//! Paths, stems, extensions and the record built for every input file.
//!
//! A path is kept as plain text. The file name is what follows the last
//! `/`; the stem is the name up to the last `.` (a name whose only `.` is
//! its first character has no extension); the extension is what follows
//! that `.`, with its original case preserved.

use vstd::prelude::*;
use crate::text::{last_index_of, lemma_last_index_of, rfind};
use crate::utils::{is_img_spec, is_video_spec};

verus! {

/// The file name: everything after the last `/` (the whole path if none).
pub open spec fn file_name_of(p: Seq<char>) -> Seq<char> {
    p.subrange(last_index_of(p, '/') + 1, p.len() as int)
}

/// The leading directory part, up to and including the last `/`.
pub open spec fn parent_of(p: Seq<char>) -> Seq<char> {
    p.subrange(0, last_index_of(p, '/') + 1)
}

/// The stem of a file name: up to its last `.`, unless that `.` comes
/// first or not at all, in which case the whole name is the stem.
pub open spec fn stem_of(name: Seq<char>) -> Seq<char> {
    let i = last_index_of(name, '.');
    if i <= 0 {
        name
    } else {
        name.subrange(0, i)
    }
}

/// The extension of a file name: what follows its last `.`; empty when
/// the name has no extension.
pub open spec fn ext_of(name: Seq<char>) -> Seq<char> {
    let i = last_index_of(name, '.');
    if i <= 0 {
        Seq::empty()
    } else {
        name.subrange(i + 1, name.len() as int)
    }
}

/// Stem of the path's file name.
pub open spec fn path_stem_of(p: Seq<char>) -> Seq<char> {
    stem_of(file_name_of(p))
}

/// Extension of the path's file name.
pub open spec fn path_ext_of(p: Seq<char>) -> Seq<char> {
    ext_of(file_name_of(p))
}

/// The file name as a slice of the path.
pub fn file_name_part(p: &str) -> (r: &str)
    ensures
        r@ == file_name_of(p@),
{
    proof {
        lemma_last_index_of(p@, '/');
    }
    let n = p.unicode_len();
    match rfind(p, '/') {
        Some(i) => p.substring_char(i + 1, n),
        None => {
            proof {
                assert(p@.subrange(0, p@.len() as int) =~= p@);
            }
            p
        },
    }
}

/// The stem of the path's file name.
pub fn get_stem(path: &str) -> (r: String)
    ensures
        r@ == path_stem_of(path@),
{
    let name = file_name_part(path);
    proof {
        lemma_last_index_of(name@, '.');
    }
    match rfind(name, '.') {
        Some(i) => {
            if i > 0 {
                name.substring_char(0, i).to_owned()
            } else {
                name.to_owned()
            }
        },
        None => name.to_owned(),
    }
}

/// The extension of the path's file name, empty when there is none.
pub fn get_ext(path: &str) -> (r: String)
    ensures
        r@ == path_ext_of(path@),
{
    let name = file_name_part(path);
    proof {
        lemma_last_index_of(name@, '.');
    }
    let n = name.unicode_len();
    match rfind(name, '.') {
        Some(i) => {
            if i > 0 {
                name.substring_char(i + 1, n).to_owned()
            } else {
                String::new()
            }
        },
        None => String::new(),
    }
}

/// A file path, kept as the text it was given with.
#[derive(Debug, Clone, PartialEq, Eq, Hash)]
pub struct FilePath {
    path: String,
}

impl View for FilePath {
    type V = Seq<char>;

    closed spec fn view(&self) -> Seq<char> {
        self.path@
    }
}

impl FilePath {
    pub fn new(path: &str) -> (r: Self)
        ensures
            r@ == path@,
    {
        FilePath { path: path.to_owned() }
    }

    pub fn value(&self) -> (r: &String)
        ensures
            r@ == self@,
    {
        &self.path
    }

    pub fn as_str(&self) -> (r: &str)
        ensures
            r@ == self@,
    {
        self.path.as_str()
    }

    /// The path with its file name replaced by `file_name`.
    pub fn with_file_name(&self, file_name: &str) -> (r: FilePath)
        ensures
            r@ == parent_of(self@) + file_name@,
    {
        proof {
            lemma_last_index_of(self@, '/');
        }
        let n = self.path.as_str().unicode_len();
        let mut dir: String = match rfind(self.path.as_str(), '/') {
            Some(i) => self.path.as_str().substring_char(0, i + 1).to_owned(),
            None => {
                proof {
                    assert(self@.subrange(0, 0) =~= Seq::<char>::empty());
                }
                String::new()
            },
        };
        dir.append(file_name);
        FilePath { path: dir }
    }
}

/// The stem of a file's name; the key that groups related files.
#[derive(Debug, Clone, PartialEq, Eq, Hash)]
pub struct FileStem {
    stem: String,
}

impl View for FileStem {
    type V = Seq<char>;

    closed spec fn view(&self) -> Seq<char> {
        self.stem@
    }
}

impl FileStem {
    pub fn new(path: &str) -> (r: Self)
        requires
            file_name_of(path@).len() > 0,
        ensures
            r@ == path_stem_of(path@),
    {
        FileStem { stem: get_stem(path) }
    }

    pub fn value(&self) -> (r: &str)
        ensures
            r@ == self@,
    {
        self.stem.as_str()
    }

    /// A stem holding the given text; used to carry a stem over into a
    /// derived record.
    pub(crate) fn from_value(value: &str) -> (r: Self)
        ensures
            r@ == value@,
    {
        FileStem { stem: value.to_owned() }
    }
}

/// A file's extension, with its original case preserved.
#[derive(Debug, Clone, PartialEq, Eq, Hash)]
pub struct FileExt {
    ext: String,
}

impl View for FileExt {
    type V = Seq<char>;

    closed spec fn view(&self) -> Seq<char> {
        self.ext@
    }
}

impl FileExt {
    pub fn new(path: &str) -> (r: Self)
        ensures
            r@ == path_ext_of(path@),
    {
        FileExt { ext: get_ext(path) }
    }

    pub fn value(&self) -> (r: &str)
        ensures
            r@ == self@,
    {
        self.ext.as_str()
    }

    /// An extension holding the given text; used to carry an extension
    /// over into a derived record.
    pub(crate) fn from_value(value: &str) -> (r: Self)
        ensures
            r@ == value@,
    {
        FileExt { ext: value.to_owned() }
    }
}

/// The media category an extension maps to.
#[derive(Debug, Clone, Copy, PartialEq, Eq, Structural)]
pub enum FileType {
    IMG,
    VIDEO,
    OTHER,
}

/// The category the extension policy assigns to an extension.
pub open spec fn spec_file_type(e: Seq<char>) -> FileType {
    if is_img_spec(e) {
        FileType::IMG
    } else if is_video_spec(e) {
        FileType::VIDEO
    } else {
        FileType::OTHER
    }
}

impl FileType {
    /// Classify an extension.
    pub fn from_ext(ext: &FileExt) -> (r: Self)
        ensures
            r == spec_file_type(ext@),
    {
        if crate::utils::is_img(ext.value()) {
            FileType::IMG
        } else if crate::utils::is_video(ext.value()) {
            FileType::VIDEO
        } else {
            FileType::OTHER
        }
    }
}

/// Does `prefix` name a leading directory part of `path` (or the whole
/// path), as the traversal root does for every path found under it?
pub open spec fn dir_prefix_ok(prefix: Seq<char>, path: Seq<char>) -> bool {
    ||| prefix == path
    ||| (prefix.len() < path.len() && path.subrange(0, prefix.len() as int) == prefix && (
        prefix.len() == 0 || path[prefix.len() as int] == '/' || prefix[prefix.len() - 1] == '/'))
}

/// `path` with the leading `prefix` (and one separator, when the prefix
/// does not carry its own) removed.
pub open spec fn rel_of(prefix: Seq<char>, path: Seq<char>) -> Seq<char> {
    if prefix == path {
        Seq::empty()
    } else if prefix.len() == 0 || prefix[prefix.len() - 1] == '/' {
        path.skip(prefix.len() as int)
    } else {
        path.skip(prefix.len() as int + 1)
    }
}

/// Strip the traversal root from a path, for display.
pub fn strip_relative(path: &str, prefix: &str) -> (r: String)
    requires
        dir_prefix_ok(prefix@, path@),
    ensures
        r@ == rel_of(prefix@, path@),
{
    let p_len = prefix.unicode_len();
    let len = path.unicode_len();
    if p_len == len {
        String::new()
    } else if p_len == 0 {
        proof {
            assert(path@.skip(0) =~= path@);
        }
        path.to_owned()
    } else if prefix.get_char(p_len - 1) == '/' {
        path.substring_char(p_len, len).to_owned()
    } else {
        path.substring_char(p_len + 1, len).to_owned()
    }
}

/// Everything the pipeline needs to know of one file found on disk.
#[derive(Debug, Clone)]
pub struct InputFile {
    pub src: FilePath,
    pub src_relative: FilePath,
    pub stem: FileStem,
    pub ext: FileExt,
    pub file_type: FileType,
}

impl InputFile {
    /// The stored category is the one the extension policy assigns to
    /// the stored extension.
    pub open spec fn wf(self) -> bool {
        self.file_type == spec_file_type(self.ext@)
    }

    /// Build the record for a file at `absolute_path`, found under the
    /// traversal root `relative_point`.
    pub fn new(absolute_path: &FilePath, relative_point: &str) -> (r: Self)
        requires
            file_name_of(absolute_path@).len() > 0,
            dir_prefix_ok(relative_point@, absolute_path@),
        ensures
            r.src@ == absolute_path@,
            r.src_relative@ == rel_of(relative_point@, absolute_path@),
            r.stem@ == path_stem_of(absolute_path@),
            r.ext@ == path_ext_of(absolute_path@),
            r.file_type == spec_file_type(path_ext_of(absolute_path@)),
            r.wf(),
    {
        let src = FilePath::new(absolute_path.as_str());
        let src_relative = FilePath::new(strip_relative(absolute_path.as_str(), relative_point).as_str());
        let stem = FileStem::new(absolute_path.as_str());
        let ext = FileExt::new(absolute_path.as_str());
        let file_type = FileType::from_ext(&ext);
        InputFile { src, src_relative, stem, ext, file_type }
    }

    /// The key under which this file is grouped: its stem.
    pub fn hash_key(&self) -> (r: String)
        ensures
            r@ == self.stem@,
    {
        self.stem.value().to_owned()
    }

    /// The absolute path the file was found at.
    pub fn path(&self) -> (r: &FilePath)
        ensures
            r@ == self.src@,
    {
        &self.src
    }
}

} // verus!

