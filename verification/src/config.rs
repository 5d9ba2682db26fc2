//! The run mode and the filesystem capability behind renames.
//!
//! The renamer only ever touches the filesystem through the `FileSystem`
//! trait, so a run can swap in a recording adapter (dry runs, tests) for
//! the real one.

use vstd::prelude::*;
use crate::file::FilePath;

verus! {

/// Whether a run only reports or really renames.
#[derive(Debug, Clone, Copy, PartialEq, Eq, Structural)]
pub enum RunType {
    Dry,
    Exec,
}

/// The one filesystem operation the renamer needs. An error is reported
/// as text.
pub trait FileSystem {
    fn rename(&mut self, prev: &FilePath, next: &FilePath) -> Result<(), String>;
}

/// A filesystem that only records what it was asked to rename, and
/// always succeeds.
#[derive(Debug)]
pub struct MockFileSystem {
    pub renamed_files: Vec<(FilePath, FilePath)>,
}

impl MockFileSystem {
    pub fn new() -> (r: Self)
        ensures
            r.renamed_files@ =~= Seq::<(FilePath, FilePath)>::empty(),
    {
        MockFileSystem { renamed_files: Vec::new() }
    }
}

impl FileSystem for MockFileSystem {
    /// Record the requested pair at the end of the log, leave every
    /// earlier entry as it was, and succeed; no real file is touched.
    fn rename(&mut self, prev: &FilePath, next: &FilePath) -> (r: Result<(), String>)
        ensures
            r is Ok,
            final(self).renamed_files@.len() == old(self).renamed_files@.len() + 1,
            final(self).renamed_files@.last().0@ == prev@,
            final(self).renamed_files@.last().1@ == next@,
            forall|i: int|
                0 <= i < old(self).renamed_files@.len() ==> final(self).renamed_files@[i] == old(
                    self,
                ).renamed_files@[i],
    {
        self.renamed_files.push((FilePath::new(prev.as_str()), FilePath::new(next.as_str())));
        Ok(())
    }
}

} // verus!
