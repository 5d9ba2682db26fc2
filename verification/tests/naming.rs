use eximd::exif::{ExifFile, ExifMetadata};
use eximd::file::FilePath;
use eximd::file::InputFile;
use eximd::timestamp::{format_stem, parse_timestamp, Timestamp};

fn ts(year: u32, month: u32, day: u32, hour: u32, minute: u32, second: u32) -> Timestamp {
    Timestamp { year, month, day, hour, minute, second }
}

#[test]
fn test_parse_date_with_date_and_time() {
    assert_eq!(parse_timestamp("2021:10:10 12:34:56"), Some(ts(2021, 10, 10, 12, 34, 56)));
}

#[test]
fn test_parse_date_with_date_and_time_and_zone() {
    assert_eq!(parse_timestamp("2022:03:17 17:37:48+01:00"), Some(ts(2022, 3, 17, 17, 37, 48)));
}

#[test]
fn test_parse_date_with_date_only() {
    assert_eq!(parse_timestamp("2022:03:17"), None);
}

#[test]
fn test_parse_date_with_no_date() {
    let metadata = ExifMetadata::default();
    assert_eq!(metadata.date_time_original, None);
    assert_eq!(metadata.creation_date, None);
}

#[test]
fn parse_rejects_eighteen_characters() {
    assert_eq!(parse_timestamp("2021:10:10 12:34:5"), None);
}

#[test]
fn parse_rejects_bad_calendar_dates() {
    assert_eq!(parse_timestamp("2021:13:10 12:34:56"), None);
    assert_eq!(parse_timestamp("2021:00:10 12:34:56"), None);
    assert_eq!(parse_timestamp("2021:02:29 00:00:00"), None);
    assert_eq!(parse_timestamp("2021:04:31 00:00:00"), None);
    assert_eq!(parse_timestamp("2021:01:00 00:00:00"), None);
    assert_eq!(parse_timestamp("2021:10:10 24:00:00"), None);
    assert_eq!(parse_timestamp("2021:10:10 12:60:00"), None);
    assert_eq!(parse_timestamp("2021:10:10 12:00:60"), None);
}

#[test]
fn parse_accepts_leap_days() {
    assert_eq!(parse_timestamp("2020:02:29 00:00:00"), Some(ts(2020, 2, 29, 0, 0, 0)));
    assert_eq!(parse_timestamp("2000:02:29 23:59:59"), Some(ts(2000, 2, 29, 23, 59, 59)));
    assert_eq!(parse_timestamp("1900:02:29 00:00:00"), None);
}

#[test]
fn parse_rejects_misplaced_separators() {
    assert_eq!(parse_timestamp("2021-10-10 12:34:56"), None);
    assert_eq!(parse_timestamp("2021:10:10T12:34:56"), None);
    assert_eq!(parse_timestamp("x021:10:10 12:34:56"), None);
}

#[test]
fn format_stem_zero_pads() {
    assert_eq!(format_stem(&ts(2021, 10, 10, 12, 34, 56)), "2021-10-10_12.34.56");
    assert_eq!(format_stem(&ts(800, 1, 2, 3, 4, 5)), "0800-01-02_03.04.05");
}

#[test]
fn next_file_stem_from_exif_file_with_date_time_original() {
    let metadata = ExifMetadata {
        date_time_original: parse_timestamp("2021:10:10 12:34:56"),
        ..Default::default()
    };

    let exif_file = ExifFile::new(
        &InputFile::new(&FilePath::new("path/to/file.jpg"), "path"),
        metadata,
    );

    assert_eq!(exif_file.next_file_stem_from_exif(), Some("2021-10-10_12.34.56".to_string()));
}

#[test]
fn next_file_stem_from_exif_file_with_creation_date() {
    let metadata = ExifMetadata {
        creation_date: parse_timestamp("2021:10:10 12:34:56"),
        ..Default::default()
    };

    let exif_file = ExifFile::new(
        &InputFile::new(&FilePath::new("path/to/file.jpg"), "path"),
        metadata,
    );

    assert_eq!(exif_file.next_file_stem_from_exif(), Some("2021-10-10_12.34.56".to_string()));
}

#[test]
fn next_file_stem_prefers_capture_time() {
    let metadata = ExifMetadata {
        date_time_original: parse_timestamp("2021:10:10 12:34:56"),
        creation_date: parse_timestamp("1999:01:01 00:00:00"),
        ..Default::default()
    };

    let exif_file = ExifFile::new(
        &InputFile::new(&FilePath::new("path/to/file.jpg"), "path"),
        metadata,
    );

    assert_eq!(exif_file.next_file_stem_from_exif(), Some("2021-10-10_12.34.56".to_string()));
}

#[test]
fn next_file_stem_absent_when_both_timestamps_absent() {
    let exif_file = ExifFile::new(
        &InputFile::new(&FilePath::new("path/to/file.jpg"), "path"),
        ExifMetadata::default(),
    );

    assert_eq!(exif_file.next_file_stem_from_exif(), None);
    assert_eq!(exif_file.next_file_name(), None);
    assert!(exif_file.next_file_src_from_exif().is_none());
}

#[test]
fn next_file_name_from_exif_file() {
    let metadata = ExifMetadata {
        creation_date: parse_timestamp("2021:10:10 12:34:56"),
        ..Default::default()
    };

    let exif_file = ExifFile::new(
        &InputFile::new(&FilePath::new("path/to/file.jpg"), "path"),
        metadata,
    );

    assert_eq!(exif_file.next_file_name(), Some("2021-10-10_12.34.56.jpg".to_string()));
}

#[test]
fn next_file_src_keeps_the_directory() {
    let metadata = ExifMetadata {
        date_time_original: parse_timestamp("2021:10:10 12:34:56"),
        ..Default::default()
    };

    let exif_file = ExifFile::new(
        &InputFile::new(&FilePath::new("path/to/file.jpg"), "path"),
        metadata,
    );

    assert_eq!(
        exif_file.next_file_src_from_exif().unwrap().as_str(),
        "path/to/2021-10-10_12.34.56.jpg"
    );
    assert_eq!(
        exif_file.next_file_src_with_stem_name("other").as_str(),
        "path/to/other.jpg"
    );
}

#[test]
fn create_exif_file_from_input_file() {
    let input_file = InputFile::new(&FilePath::new("path/to/file.jpg"), "path");

    let exif_file = ExifFile::from_input(&input_file);

    assert_eq!(exif_file.src, input_file.src);
    assert_eq!(exif_file.src_relative, input_file.src_relative);
    assert_eq!(exif_file.stem, input_file.stem);
    assert_eq!(exif_file.ext, input_file.ext);
    assert_eq!(exif_file.file_type, input_file.file_type);
    assert!(exif_file.metadata.is_none());
    assert_eq!(exif_file.get_key(), "file");
}
