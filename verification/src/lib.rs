//! Verified core of a media-file renaming tool.
//!
//! Files that share a stem are grouped, classified by how many image or
//! video files the group holds, given a canonical stem derived from an
//! embedded capture timestamp, and renamed as one transaction that rolls
//! back on the first failure.
//!
//! - `text`: character-level string helpers.
//! - `file`: paths, stems, extensions, and the per-file record.
//! - `utils`: the fixed image/video extension policy.
//! - `timestamp`: parsing `YYYY:MM:DD HH:MM:SS` and writing the
//!   canonical stem `YYYY-MM-DD_HH.MM.SS`.
//! - `exif`: metadata, derived names, and the extractor-output repair.
//! - `group`: bucketing by stem and classifying each bucket.
//! - `config`: the run mode and the filesystem capability.
//! - `rename`: the transactional renamer and the per-group driver.

pub mod config;
pub mod exif;
pub mod file;
pub mod group;
pub mod rename;
pub mod text;
pub mod timestamp;
pub mod utils;
