use std::cell::RefCell;

use eximd::config::{FileSystem, MockFileSystem};
use eximd::exif::{ExifFile, ExifMetadata};
use eximd::file::{FilePath, InputFile};
use eximd::group::group_same_name_files;
use eximd::rename::{process_group, rename_with_rollback, ExifNotifier, GroupOutcome};
use eximd::timestamp::parse_timestamp;

struct MockExifNotifier;

impl MockExifNotifier {
    fn new() -> Self {
        Self {}
    }
}

impl ExifNotifier for MockExifNotifier {
    fn rename_success(&self, _prev: &FilePath, _next: &FilePath) {}
    fn rename_error(&self, _prev: &FilePath, _err: String) {}
    fn rollback_success(&self, _next: &FilePath, _prev: &FilePath) {}
    fn rollback_error(&self, _next: &FilePath, _err: String) {}
    fn uncertain(&self, _src: &FilePath) {}
    fn unsupported(&self, _src: &FilePath) {}
}

/// Records every notification as one line of text.
struct RecordingNotifier {
    events: RefCell<Vec<String>>,
}

impl RecordingNotifier {
    fn new() -> Self {
        Self { events: RefCell::new(vec![]) }
    }
}

impl ExifNotifier for RecordingNotifier {
    fn rename_success(&self, prev: &FilePath, next: &FilePath) {
        self.events.borrow_mut().push(format!("renamed {} -> {}", prev.as_str(), next.as_str()));
    }
    fn rename_error(&self, prev: &FilePath, err: String) {
        self.events.borrow_mut().push(format!("error {} {}", prev.as_str(), err));
    }
    fn rollback_success(&self, next: &FilePath, prev: &FilePath) {
        self.events.borrow_mut().push(format!("rolled back {} -> {}", next.as_str(), prev.as_str()));
    }
    fn rollback_error(&self, next: &FilePath, err: String) {
        self.events.borrow_mut().push(format!("rollback error {} {}", next.as_str(), err));
    }
    fn uncertain(&self, src: &FilePath) {
        self.events.borrow_mut().push(format!("uncertain {}", src.as_str()));
    }
    fn unsupported(&self, src: &FilePath) {
        self.events.borrow_mut().push(format!("unsupported {}", src.as_str()));
    }
}

/// A filesystem that fails chosen calls, counting from 1, and records
/// the renames that succeed.
struct FlakyFileSystem {
    fail_calls: Vec<usize>,
    call_count: usize,
    renamed_files: Vec<(String, String)>,
}

impl FlakyFileSystem {
    fn new(fail_calls: Vec<usize>) -> Self {
        Self { fail_calls, call_count: 0, renamed_files: vec![] }
    }
}

impl FileSystem for FlakyFileSystem {
    fn rename(&mut self, prev: &FilePath, next: &FilePath) -> Result<(), String> {
        self.call_count += 1;
        if self.fail_calls.contains(&self.call_count) {
            Err("boom".to_string())
        } else {
            self.renamed_files.push((prev.as_str().to_string(), next.as_str().to_string()));
            Ok(())
        }
    }
}

fn image_file(path: &str) -> ExifFile {
    ExifFile::new(
        &InputFile::new(&FilePath::new(path), "path"),
        ExifMetadata::default(),
    )
}

#[test]
fn rename_with_rollback_one_image() {
    let mut fs = MockFileSystem::new();
    let nf = MockExifNotifier::new();
    let image = image_file("path/to/file.jpg");
    let files = vec![&image];
    let next_stem = "2021-10-10_12.34.56";

    rename_with_rollback(&mut fs, &nf, files, next_stem);
    let first = fs.renamed_files.first().unwrap();

    assert_eq!(fs.renamed_files.len(), 1);
    assert_eq!(first.0.as_str(), "path/to/file.jpg");
    assert_eq!(first.1.as_str(), "path/to/2021-10-10_12.34.56.jpg");
}

#[test]
fn rename_with_rollback_one_image_with_config_file() {
    let mut fs = MockFileSystem::new();
    let nf = MockExifNotifier::new();
    let image = image_file("path/to/file.jpg");
    let config = image_file("path/to/file.xml");

    let files = vec![&image, &config];
    let next_stem = "2021-10-10_12.34.56";

    rename_with_rollback(&mut fs, &nf, files, next_stem);
    let first = fs.renamed_files.get(0).unwrap();
    let second = fs.renamed_files.get(1).unwrap();

    assert_eq!(fs.renamed_files.len(), 2);
    assert_eq!(first.0.as_str(), "path/to/file.jpg");
    assert_eq!(first.1.as_str(), "path/to/2021-10-10_12.34.56.jpg");
    assert_eq!(second.0.as_str(), "path/to/file.xml");
    assert_eq!(second.1.as_str(), "path/to/2021-10-10_12.34.56.xml");
}

#[test]
fn rename_with_rollback_one_image_with_config_files() {
    let mut fs = MockFileSystem::new();
    let nf = MockExifNotifier::new();
    let image = image_file("path/to/file.jpg");
    let config1 = image_file("path/to/file.xml");
    let config2 = image_file("path/to/file.aae");

    let files = vec![&image, &config1, &config2];
    let next_stem = "2021-10-10_12.34.56";

    rename_with_rollback(&mut fs, &nf, files, next_stem);
    let first = fs.renamed_files.get(0).unwrap();
    let second = fs.renamed_files.get(1).unwrap();
    let third = fs.renamed_files.get(2).unwrap();

    assert_eq!(fs.renamed_files.len(), 3);
    assert_eq!(first.0.as_str(), "path/to/file.jpg");
    assert_eq!(first.1.as_str(), "path/to/2021-10-10_12.34.56.jpg");
    assert_eq!(second.0.as_str(), "path/to/file.xml");
    assert_eq!(second.1.as_str(), "path/to/2021-10-10_12.34.56.xml");
    assert_eq!(third.0.as_str(), "path/to/file.aae");
    assert_eq!(third.1.as_str(), "path/to/2021-10-10_12.34.56.aae");
}

#[test]
fn rename_failure_rolls_back_earlier_renames_in_order() {
    // Three files; the second forward rename fails.
    let mut fs = FlakyFileSystem::new(vec![2]);
    let nf = RecordingNotifier::new();
    let a = image_file("d/f.jpg");
    let b = image_file("d/f.xmp");
    let c = image_file("d/f.aae");

    let report = rename_with_rollback(&mut fs, &nf, vec![&a, &b, &c], "new");

    // Forward: only the first rename succeeded; the third was never
    // attempted. Rollback: the first rename was undone.
    assert_eq!(report.renamed.len(), 1);
    assert_eq!(report.renamed[0].0.as_str(), "d/f.jpg");
    assert_eq!(report.renamed[0].1.as_str(), "d/new.jpg");
    assert_eq!(report.failed.as_ref().unwrap().as_str(), "d/f.xmp");
    assert_eq!(report.rollbacks.len(), 1);
    assert_eq!(report.rollbacks[0].next.as_str(), "d/new.jpg");
    assert_eq!(report.rollbacks[0].prev.as_str(), "d/f.jpg");
    assert!(report.rollbacks[0].restored);

    // The filesystem saw: forward f.jpg -> new.jpg, then the rollback.
    assert_eq!(fs.renamed_files.len(), 2);
    assert_eq!(fs.renamed_files[0], ("d/f.jpg".to_string(), "d/new.jpg".to_string()));
    assert_eq!(fs.renamed_files[1], ("d/new.jpg".to_string(), "d/f.jpg".to_string()));
    assert_eq!(fs.call_count, 3);

    let events = nf.events.borrow();
    assert_eq!(
        *events,
        vec![
            "renamed d/f.jpg -> d/new.jpg".to_string(),
            "error d/f.xmp boom".to_string(),
            "rolled back d/new.jpg -> d/f.jpg".to_string(),
        ]
    );
}

#[test]
fn rollback_failure_is_reported_and_never_retried() {
    // Three files: the third forward rename fails (call 3), then the
    // rollback of the first file fails too (call 4).
    let mut fs = FlakyFileSystem::new(vec![3, 4]);
    let nf = RecordingNotifier::new();
    let a = image_file("d/f.jpg");
    let b = image_file("d/f.xmp");
    let c = image_file("d/f.aae");

    let report = rename_with_rollback(&mut fs, &nf, vec![&a, &b, &c], "new");

    assert_eq!(report.renamed.len(), 2);
    assert_eq!(report.failed.as_ref().unwrap().as_str(), "d/f.aae");
    assert_eq!(report.rollbacks.len(), 2);
    assert!(!report.rollbacks[0].restored);
    assert!(report.rollbacks[1].restored);
    // One forward and at most one rollback attempt per file.
    assert_eq!(fs.call_count, 5);

    let events = nf.events.borrow();
    assert_eq!(events[3], "rollback error d/new.jpg boom".to_string());
    assert_eq!(events[4], "rolled back d/new.xmp -> d/f.xmp".to_string());
}

#[test]
fn process_group_renames_image_and_sidecar_to_capture_stem() {
    // An image with a sidecar: both members take the image's stem.
    let files = vec![
        InputFile::new(&FilePath::new("path/to/IMG_01.JPG"), "path"),
        InputFile::new(&FilePath::new("path/to/IMG_01.XMP"), "path"),
    ];
    let groups = group_same_name_files(&files);
    assert_eq!(groups.len(), 1);

    let metadata = ExifMetadata {
        date_time_original: parse_timestamp("2021:10:10 12:34:56"),
        ..Default::default()
    };

    let mut fs = MockFileSystem::new();
    let nf = MockExifNotifier::new();
    let outcome = process_group(&mut fs, &nf, &groups[0], Some(metadata));

    assert!(matches!(outcome, GroupOutcome::Renamed { .. }));
    assert_eq!(fs.renamed_files.len(), 2);
    assert_eq!(fs.renamed_files[0].0.as_str(), "path/to/IMG_01.JPG");
    assert_eq!(fs.renamed_files[0].1.as_str(), "path/to/2021-10-10_12.34.56.JPG");
    assert_eq!(fs.renamed_files[1].0.as_str(), "path/to/IMG_01.XMP");
    assert_eq!(fs.renamed_files[1].1.as_str(), "path/to/2021-10-10_12.34.56.XMP");
}

#[test]
fn process_group_renames_live_pair_to_image_stem() {
    // A live pair alone: both files take the image's derived stem with
    // their own extensions.
    let files = vec![
        InputFile::new(&FilePath::new("d/A.JPG"), "d"),
        InputFile::new(&FilePath::new("d/A.MOV"), "d"),
    ];
    let groups = group_same_name_files(&files);
    assert_eq!(groups.len(), 1);
    assert_eq!(groups[0].primary_source().unwrap().ext.value(), "JPG");

    let metadata = ExifMetadata {
        date_time_original: parse_timestamp("2021:02:08 15:56:06"),
        ..Default::default()
    };

    let mut fs = MockFileSystem::new();
    let nf = MockExifNotifier::new();
    let outcome = process_group(&mut fs, &nf, &groups[0], Some(metadata));

    assert!(matches!(outcome, GroupOutcome::Renamed { .. }));
    assert_eq!(fs.renamed_files.len(), 2);
    assert_eq!(fs.renamed_files[0].0.as_str(), "d/A.JPG");
    assert_eq!(fs.renamed_files[0].1.as_str(), "d/2021-02-08_15.56.06.JPG");
    assert_eq!(fs.renamed_files[1].0.as_str(), "d/A.MOV");
    assert_eq!(fs.renamed_files[1].1.as_str(), "d/2021-02-08_15.56.06.MOV");
}

#[test]
fn process_group_without_timestamp_renames_nothing() {
    let files = vec![InputFile::new(&FilePath::new("d/a.jpg"), "d")];
    let groups = group_same_name_files(&files);

    let mut fs = MockFileSystem::new();
    let nf = RecordingNotifier::new();
    let outcome = process_group(&mut fs, &nf, &groups[0], Some(ExifMetadata::default()));

    assert!(matches!(outcome, GroupOutcome::NoTimestamp));
    assert_eq!(fs.renamed_files.len(), 0);
    assert_eq!(nf.events.borrow().len(), 0);

    let outcome = process_group(&mut fs, &nf, &groups[0], None);
    assert!(matches!(outcome, GroupOutcome::NoTimestamp));
    assert_eq!(fs.renamed_files.len(), 0);
}

#[test]
fn process_group_reports_uncertain_members() {
    let files = vec![
        InputFile::new(&FilePath::new("d/a.jpg"), "d"),
        InputFile::new(&FilePath::new("d/a.png"), "d"),
        InputFile::new(&FilePath::new("d/a.xmp"), "d"),
    ];
    let groups = group_same_name_files(&files);

    let mut fs = MockFileSystem::new();
    let nf = RecordingNotifier::new();
    let outcome = process_group(&mut fs, &nf, &groups[0], None);

    assert!(matches!(outcome, GroupOutcome::Uncertain));
    assert_eq!(fs.renamed_files.len(), 0);
    let events = nf.events.borrow();
    assert_eq!(
        *events,
        vec![
            "uncertain d/a.jpg".to_string(),
            "uncertain d/a.png".to_string(),
            "uncertain d/a.xmp".to_string(),
        ]
    );
}

#[test]
fn lone_sidecar_is_unsupported_and_never_renamed() {
    // A lone sidecar with no primary sibling is reported, never renamed.
    let files = vec![InputFile::new(&FilePath::new("d/IMG_3896.AAE"), "d")];
    let groups = group_same_name_files(&files);
    assert_eq!(groups.len(), 1);

    let mut fs = MockFileSystem::new();
    let nf = RecordingNotifier::new();
    let outcome = process_group(&mut fs, &nf, &groups[0], None);

    assert!(matches!(outcome, GroupOutcome::Unsupported));
    assert_eq!(fs.renamed_files.len(), 0);
    let events = nf.events.borrow();
    assert_eq!(*events, vec!["unsupported d/IMG_3896.AAE".to_string()]);
}

#[test]
fn two_stems_rename_independently() {
    // Two distinct single-image groups: no cross-renaming.
    let files = vec![
        InputFile::new(&FilePath::new("d/A.JPG"), "d"),
        InputFile::new(&FilePath::new("d/B.JPG"), "d"),
    ];
    let groups = group_same_name_files(&files);
    assert_eq!(groups.len(), 2);

    let mut fs = MockFileSystem::new();
    let nf = MockExifNotifier::new();
    for group in &groups {
        let stamp = match group.group_key().value() {
            "A" => "2024:08:16 14:42:39",
            _ => "2022:03:17 17:08:18",
        };
        let metadata = ExifMetadata {
            date_time_original: parse_timestamp(stamp),
            ..Default::default()
        };
        process_group(&mut fs, &nf, group, Some(metadata));
    }

    let mut renames: Vec<(String, String)> = fs
        .renamed_files
        .iter()
        .map(|p| (p.0.as_str().to_string(), p.1.as_str().to_string()))
        .collect();
    renames.sort();
    assert_eq!(
        renames,
        vec![
            ("d/A.JPG".to_string(), "d/2024-08-16_14.42.39.JPG".to_string()),
            ("d/B.JPG".to_string(), "d/2022-03-17_17.08.18.JPG".to_string()),
        ]
    );
}

#[test]
fn exif_input_of_single_object_array() {
    let data = "[{\n\"SourceFile\": \"a.jpg\",\n\"FileSize\": \"1\"\n}]\n";
    let obj = eximd::exif::get_one_exif_input(data).unwrap();
    assert_eq!(obj, "{\"SourceFile\": \"a.jpg\",\"FileSize\": \"1\"}");
}

#[test]
fn exif_input_stops_after_first_object() {
    let data = "[{\n\"a\": 1\n},\n{\n\"b\": 2\n}]\n";
    let obj = eximd::exif::get_one_exif_input(data).unwrap();
    assert_eq!(obj, "{\"a\": 1}");
}

#[test]
fn exif_input_accepts_carriage_returns() {
    let data = "[{\r\n\"a\": 1\r\n}]\r\n";
    let obj = eximd::exif::get_one_exif_input(data).unwrap();
    assert_eq!(obj, "{\"a\": 1}");
}

#[test]
fn exif_input_without_closing_line_is_refused() {
    assert!(eximd::exif::get_one_exif_input("[{\n\"a\": 1\n").is_err());
    assert!(eximd::exif::get_one_exif_input("").is_err());
}
