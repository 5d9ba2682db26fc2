//! The metadata attached to a file and the name derived from it.
//!
//! Every file record can carry the two optional timestamps the external
//! metadata extractor reports. The canonical next name of a file prefers
//! the capture time, falls back to the creation time, and keeps the
//! file's own extension.

use vstd::prelude::*;
use crate::file::{FileExt, FilePath, FileStem, FileType, InputFile, parent_of};
use crate::timestamp::{stem_chars, Timestamp};

verus! {

/// What the metadata extractor reports for one file.
#[derive(Debug, Clone)]
pub struct ExifMetadata {
    pub source_file: String,
    pub file_name: String,
    pub file_size: String,
    pub file_type: Option<String>,
    pub file_type_extension: Option<String>,
    pub image_width: Option<usize>,
    pub date_time_original: Option<Timestamp>,
    pub creation_date: Option<Timestamp>,
}

impl Default for ExifMetadata {
    /// An empty report: no fields, no timestamps.
    fn default() -> (r: Self)
        ensures
            r.source_file@ == Seq::<char>::empty(),
            r.file_name@ == Seq::<char>::empty(),
            r.file_size@ == Seq::<char>::empty(),
            r.file_type is None,
            r.file_type_extension is None,
            r.image_width is None,
            r.date_time_original is None,
            r.creation_date is None,
    {
        ExifMetadata {
            source_file: String::new(),
            file_name: String::new(),
            file_size: String::new(),
            file_type: None,
            file_type_extension: None,
            image_width: None,
            date_time_original: None,
            creation_date: None,
        }
    }
}

/// The timestamp that governs naming: capture time first, then creation
/// time.
pub open spec fn chosen_ts(m: ExifMetadata) -> Option<Timestamp> {
    if m.date_time_original is Some {
        m.date_time_original
    } else {
        m.creation_date
    }
}

/// The canonical stem a metadata report yields, if any.
pub open spec fn next_stem_spec(md: Option<ExifMetadata>) -> Option<Seq<char>> {
    match md {
        Some(m) => match chosen_ts(m) {
            Some(t) => Some(stem_chars(t)),
            None => None,
        },
        None => None,
    }
}

/// The stem a metadata report yields: the capture time if present, else
/// the creation time, formatted as `YYYY-MM-DD_HH.MM.SS`; nothing when
/// both timestamps are absent.
pub fn next_stem_of_metadata(metadata: &Option<ExifMetadata>) -> (r: Option<String>)
    ensures
        match r {
            Some(s) => next_stem_spec(*metadata) == Some(s@),
            None => next_stem_spec(*metadata) is None,
        },
{
    match metadata {
        Some(m) => {
            match &m.date_time_original {
                Some(ts) => Some(crate::timestamp::format_stem(ts)),
                None => match &m.creation_date {
                    Some(ts) => Some(crate::timestamp::format_stem(ts)),
                    None => None,
                },
            }
        },
        None => None,
    }
}

/// A stem joined to an extension by a single dot.
pub open spec fn dotted(stem: Seq<char>, ext: Seq<char>) -> Seq<char> {
    stem + seq!['.'] + ext
}

/// An input file together with whatever metadata has been fetched for it.
#[derive(Debug, Clone)]
pub struct ExifFile {
    pub group_key: String,
    pub src: FilePath,
    pub src_relative: FilePath,
    pub stem: FileStem,
    pub ext: FileExt,
    pub file_type: FileType,
    pub metadata: Option<ExifMetadata>,
}

impl ExifFile {
    /// Pair a file with a metadata report.
    pub fn new(file: &InputFile, info: ExifMetadata) -> (r: Self)
        ensures
            r.group_key@ == file.stem@,
            r.src@ == file.src@,
            r.src_relative@ == file.src_relative@,
            r.stem@ == file.stem@,
            r.ext@ == file.ext@,
            r.file_type == file.file_type,
            r.metadata == Some(info),
    {
        ExifFile {
            group_key: file.hash_key(),
            src: FilePath::new(file.src.as_str()),
            src_relative: FilePath::new(file.src_relative.as_str()),
            stem: FileStem::from_value(file.stem.value()),
            ext: FileExt::from_value(file.ext.value()),
            file_type: file.file_type,
            metadata: Some(info),
        }
    }

    /// A file with no metadata fetched yet.
    pub fn from_input(file: &InputFile) -> (r: Self)
        ensures
            r.group_key@ == file.stem@,
            r.src@ == file.src@,
            r.src_relative@ == file.src_relative@,
            r.stem@ == file.stem@,
            r.ext@ == file.ext@,
            r.file_type == file.file_type,
            r.metadata is None,
    {
        ExifFile {
            group_key: file.hash_key(),
            src: FilePath::new(file.src.as_str()),
            src_relative: FilePath::new(file.src_relative.as_str()),
            stem: FileStem::from_value(file.stem.value()),
            ext: FileExt::from_value(file.ext.value()),
            file_type: file.file_type,
            metadata: None,
        }
    }

    /// Store a freshly fetched metadata report on the file.
    pub fn set_metadata(&mut self, metadata: Option<ExifMetadata>)
        ensures
            final(self).metadata == metadata,
            final(self).group_key == old(self).group_key,
            final(self).src == old(self).src,
            final(self).src_relative == old(self).src_relative,
            final(self).stem == old(self).stem,
            final(self).ext == old(self).ext,
            final(self).file_type == old(self).file_type,
    {
        self.metadata = metadata;
    }

    /// The canonical stem derived from this file's metadata: the capture
    /// time if present, else the creation time, formatted as
    /// `YYYY-MM-DD_HH.MM.SS`; nothing when both timestamps are absent.
    pub fn next_file_stem_from_exif(&self) -> (r: Option<String>)
        ensures
            match r {
                Some(s) => next_stem_spec(self.metadata) == Some(s@),
                None => next_stem_spec(self.metadata) is None,
            },
    {
        next_stem_of_metadata(&self.metadata)
    }

    /// The canonical file name: derived stem, dot, own extension.
    pub fn next_file_name(&self) -> (r: Option<String>)
        ensures
            match r {
                Some(s) => next_stem_spec(self.metadata) matches Some(st) && s@ == dotted(
                    st,
                    self.ext@,
                ),
                None => next_stem_spec(self.metadata) is None,
            },
    {
        match self.next_file_stem_from_exif() {
            Some(mut s) => {
                s.append(".");
                s.append(self.ext.value());
                proof {
                    reveal_strlit(".");
                    assert(s@ =~= dotted(next_stem_spec(self.metadata)->Some_0, self.ext@));
                }
                Some(s)
            },
            None => None,
        }
    }

    /// The canonical destination path derived from this file's metadata.
    pub fn next_file_src_from_exif(&self) -> (r: Option<FilePath>)
        ensures
            match r {
                Some(p) => next_stem_spec(self.metadata) matches Some(st) && p@ == parent_of(
                    self.src@,
                ) + dotted(st, self.ext@),
                None => next_stem_spec(self.metadata) is None,
            },
    {
        match self.next_file_name() {
            Some(name) => Some(self.src.with_file_name(name.as_str())),
            None => None,
        }
    }

    /// The destination path for this file under a given stem: the file's
    /// own directory, the stem, a dot, the file's own extension.
    pub fn next_file_src_with_stem_name(&self, next_stem: &str) -> (r: FilePath)
        ensures
            r@ == parent_of(self.src@) + dotted(next_stem@, self.ext@),
    {
        let mut name = next_stem.to_owned();
        name.append(".");
        name.append(self.ext.value());
        proof {
            reveal_strlit(".");
            assert(name@ =~= dotted(next_stem@, self.ext@));
        }
        self.src.with_file_name(name.as_str())
    }

    /// The key under which this file is grouped: its stem.
    pub fn get_key(&self) -> (r: String)
        ensures
            r@ == self.stem@,
    {
        self.stem.value().to_owned()
    }
}

/// The key a group of same-stem files shares.
#[derive(Debug, Clone, PartialEq, Eq, Hash)]
pub struct FileNameGroupKey {
    key: String,
}

impl View for FileNameGroupKey {
    type V = Seq<char>;

    closed spec fn view(&self) -> Seq<char> {
        self.key@
    }
}

impl FileNameGroupKey {
    pub fn new(value: &str) -> (r: Self)
        ensures
            r@ == value@,
    {
        FileNameGroupKey { key: value.to_owned() }
    }

    /// The key of the group a file belongs to.
    pub fn of_file(file: &InputFile) -> (r: Self)
        ensures
            r@ == file.stem@,
    {
        FileNameGroupKey { key: file.hash_key() }
    }

    pub fn value(&self) -> (r: &str)
        ensures
            r@ == self@,
    {
        self.key.as_str()
    }
}


/// A line with a single trailing carriage return removed.
pub open spec fn strip_cr(l: Seq<char>) -> Seq<char> {
    if l.len() > 0 && l[l.len() - 1] == '\r' {
        l.drop_last()
    } else {
        l
    }
}

/// The lines of a text: split at each newline, a carriage return before
/// the newline dropped, and no empty final line for a trailing newline.
pub open spec fn split_lines(s: Seq<char>) -> Seq<Seq<char>>
    decreases s.len(),
{
    if s.len() == 0 {
        Seq::empty()
    } else {
        let i = crate::text::first_index_of(s, '\n');
        if 0 <= i < s.len() {
            seq![strip_cr(s.take(i))] + split_lines(s.skip(i + 1))
        } else {
            seq![strip_cr(s)]
        }
    }
}

/// One line of the array wrapper, repaired: a two-character `[{` loses
/// its bracket, a two-character `},` or `}]` loses its tail. Everything
/// else passes through unchanged.
pub open spec fn surgeon_line(l: Seq<char>) -> Seq<char> {
    if l.len() == 2 && l[0] == '[' && l[1] == '{' {
        l.skip(1)
    } else if l.len() == 2 && l[0] == '}' && (l[1] == ',' || l[1] == ']') {
        l.take(1)
    } else {
        l
    }
}

/// The repaired line closes the first object.
pub open spec fn is_obj_close(l: Seq<char>) -> bool {
    surgeon_line(l) == seq!['}']
}

/// The first object of the line sequence: every repaired line up to and
/// including the first closing one, joined; nothing when no line closes
/// the object.
pub open spec fn extract_obj(ls: Seq<Seq<char>>) -> Option<Seq<char>>
    decreases ls.len(),
{
    if ls.len() == 0 {
        None
    } else if is_obj_close(ls[0]) {
        Some(surgeon_line(ls[0]))
    } else {
        match extract_obj(ls.drop_first()) {
            Some(rest) => Some(surgeon_line(ls[0]) + rest),
            None => None,
        }
    }
}

/// What the array-stripping pass yields on a whole text.
pub open spec fn obj_str_spec(s: Seq<char>) -> Option<Seq<char>> {
    extract_obj(split_lines(s))
}

/// Strip the array wrapper from the single-object JSON array the
/// metadata extractor prints: walk the lines, repair the `[{`, `},` and
/// `}]` wrapper lines, and return everything up to and including the
/// line that closes the first object. A text in which no line closes an
/// object is refused.
pub fn get_one_exif_input(data: &str) -> (r: Result<String, String>)
    ensures
        match r {
            Ok(o) => obj_str_spec(data@) == Some(o@),
            Err(_) => obj_str_spec(data@) is None,
        },
{
    let n = data.unicode_len();
    let mut buffer = String::new();
    let mut pos: usize = 0;
    proof {
        assert(data@.skip(0) =~= data@);
        if extract_obj(split_lines(data@)) is Some {
            let rest = extract_obj(split_lines(data@))->Some_0;
            assert(buffer@ + rest =~= rest);
        }
    }
    while pos < n
        invariant
            n == data@.len(),
            pos <= n,
            obj_str_spec(data@) == match extract_obj(split_lines(data@.skip(pos as int))) {
                Some(rest) => Some(buffer@ + rest),
                None => None::<Seq<char>>,
            },
        decreases n - pos,
    {
        let ghost rest_chars = data@.skip(pos as int);
        let j = crate::text::find_char_from(data, pos, '\n');
        proof {
            if j < n {
                assert forall|w: int| 0 <= w < j - pos implies rest_chars[w] != '\n' by {
                    assert(rest_chars[w] == data@[pos + w]);
                }
                assert(rest_chars[j - pos] == data@[j as int]);
                crate::text::lemma_first_index_of_found(rest_chars, '\n', j - pos);
            } else {
                assert forall|w: int| 0 <= w < rest_chars.len() implies rest_chars[w] != '\n' by {
                    assert(rest_chars[w] == data@[pos + w]);
                }
                crate::text::lemma_first_index_of_absent(rest_chars, '\n');
            }
        }
        let mut end = j;
        if end > pos && data.get_char(end - 1) == '\r' {
            end -= 1;
        }
        let line = data.substring_char(pos, end);
        proof {
            let ghost raw = if j < n {
                rest_chars.take(j - pos)
            } else {
                rest_chars
            };
            assert(raw =~= data@.subrange(pos as int, j as int));
            assert(line@ =~= strip_cr(raw));
            if j < n {
                assert(split_lines(rest_chars) == seq![strip_cr(raw)] + split_lines(
                    rest_chars.skip(j - pos + 1),
                ));
            } else {
                assert(split_lines(rest_chars) == seq![strip_cr(raw)]);
            }
        }
        let ll = line.unicode_len();
        let piece: &str;
        let close: bool;
        if ll == 2 && line.get_char(0) == '[' && line.get_char(1) == '{' {
            piece = line.substring_char(1, 2);
            close = false;
            proof {
                assert(piece@ =~= surgeon_line(line@));
                assert(surgeon_line(line@).len() == 1 && surgeon_line(line@)[0] == '{');
                assert(!is_obj_close(line@));
            }
        } else if ll == 2 && line.get_char(0) == '}' && (line.get_char(1) == ',' || line.get_char(
            1,
        ) == ']') {
            piece = line.substring_char(0, 1);
            close = true;
            proof {
                assert(piece@ =~= surgeon_line(line@));
                assert(surgeon_line(line@) =~= seq!['}']);
            }
        } else if ll == 1 && line.get_char(0) == '}' {
            piece = line;
            close = true;
            proof {
                assert(surgeon_line(line@) == line@);
                assert(line@ =~= seq!['}']);
            }
        } else {
            piece = line;
            close = false;
            proof {
                assert(surgeon_line(line@) == line@);
                if line@.len() == 1 {
                    assert(line@[0] != '}');
                    assert(line@ != seq!['}']);
                } else {
                    assert(line@.len() != 1);
                    assert(line@ != seq!['}']);
                }
            }
        }
        let ghost old_buffer = buffer@;
        buffer.append(piece);
        if close {
            proof {
                assert(is_obj_close(line@));
                assert(extract_obj(split_lines(rest_chars)) == Some(surgeon_line(line@)));
                assert(buffer@ =~= old_buffer + surgeon_line(line@));
            }
            return Ok(buffer);
        }
        proof {
            let ls = split_lines(rest_chars);
            assert(ls[0] == line@);
            assert(!is_obj_close(ls[0]));
            if j < n {
                assert(ls.drop_first() =~= split_lines(rest_chars.skip(j - pos + 1)));
                assert(rest_chars.skip(j - pos + 1) =~= data@.skip(j + 1));
            } else {
                assert(ls.drop_first() =~= Seq::<Seq<char>>::empty());
                assert(split_lines(data@.skip(n as int)) =~= Seq::<Seq<char>>::empty());
            }
            if extract_obj(ls.drop_first()) is Some {
                let r2 = extract_obj(ls.drop_first())->Some_0;
                assert(old_buffer + (surgeon_line(line@) + r2) =~= buffer@ + r2);
            }
        }
        pos = if j < n {
            j + 1
        } else {
            n
        };
    }
    proof {
        assert(data@.skip(n as int) =~= Seq::<char>::empty());
        assert(split_lines(Seq::<char>::empty()) =~= Seq::<Seq<char>>::empty());
    }
    Err("no line closes the metadata object".to_owned())
}

} // verus!
