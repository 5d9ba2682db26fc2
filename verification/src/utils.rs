//! The extension policy: which file extensions count as images, which as
//! videos, and which files are therefore primary members of a group.
//!
//! The two tables are fixed and matched case-insensitively.

use vstd::prelude::*;
use crate::text::{eq_lowered, lower_seq};
use crate::file::path_ext_of;

verus! {

/// The extension, lower-cased, is one of the recognised image extensions.
pub open spec fn is_img_spec(e: Seq<char>) -> bool {
    ||| lower_seq(e) == "cr3"@
    ||| lower_seq(e) == "bmp"@
    ||| lower_seq(e) == "cr2"@
    ||| lower_seq(e) == "dng"@
    ||| lower_seq(e) == "heic"@
    ||| lower_seq(e) == "jpeg"@
    ||| lower_seq(e) == "jpg"@
    ||| lower_seq(e) == "nef"@
    ||| lower_seq(e) == "png"@
    ||| lower_seq(e) == "raf"@
    ||| lower_seq(e) == "raw"@
    ||| lower_seq(e) == "rw2"@
    ||| lower_seq(e) == "svg"@
    ||| lower_seq(e) == "tif"@
    ||| lower_seq(e) == "tiff"@
    ||| lower_seq(e) == "webp"@
}

/// The extension, lower-cased, is one of the recognised video extensions.
pub open spec fn is_video_spec(e: Seq<char>) -> bool {
    ||| lower_seq(e) == "avi"@
    ||| lower_seq(e) == "m4v"@
    ||| lower_seq(e) == "mov"@
    ||| lower_seq(e) == "mp4"@
    ||| lower_seq(e) == "mpg"@
}

/// A primary file is one whose extension names an image or a video.
pub open spec fn is_primary_spec(e: Seq<char>) -> bool {
    is_img_spec(e) || is_video_spec(e)
}

/// Is `ext` an image extension, ignoring ASCII case?
pub fn is_img(ext: &str) -> (r: bool)
    ensures
        r == is_img_spec(ext@),
{
    eq_lowered(ext, "cr3") || eq_lowered(ext, "bmp") || eq_lowered(ext, "cr2")
        || eq_lowered(ext, "dng") || eq_lowered(ext, "heic") || eq_lowered(ext, "jpeg")
        || eq_lowered(ext, "jpg") || eq_lowered(ext, "nef") || eq_lowered(ext, "png")
        || eq_lowered(ext, "raf") || eq_lowered(ext, "raw") || eq_lowered(ext, "rw2")
        || eq_lowered(ext, "svg") || eq_lowered(ext, "tif") || eq_lowered(ext, "tiff")
        || eq_lowered(ext, "webp")
}

/// Is `ext` a video extension, ignoring ASCII case?
pub fn is_video(ext: &str) -> (r: bool)
    ensures
        r == is_video_spec(ext@),
{
    eq_lowered(ext, "avi") || eq_lowered(ext, "m4v") || eq_lowered(ext, "mov")
        || eq_lowered(ext, "mp4") || eq_lowered(ext, "mpg")
}

/// Is `ext` the extension of a primary (image or video) file?
pub fn is_primary_ext(ext: &str) -> (r: bool)
    ensures
        r == is_primary_spec(ext@),
{
    is_img(ext) || is_video(ext)
}

/// Does the path's extension name an image?
pub fn is_img_ext(path: &str) -> (r: bool)
    ensures
        r == is_img_spec(path_ext_of(path@)),
{
    let ext = crate::file::get_ext(path);
    is_img(ext.as_str())
}

/// Does the path's extension name a video?
pub fn is_video_ext(path: &str) -> (r: bool)
    ensures
        r == is_video_spec(path_ext_of(path@)),
{
    let ext = crate::file::get_ext(path);
    is_video(ext.as_str())
}

/// A path already is its textual form; kept for callers of the original API.
pub fn path_to_string(path: &crate::file::FilePath) -> (r: String)
    ensures
        r@ == path@,
{
    path.as_str().to_owned()
}

} // verus!
