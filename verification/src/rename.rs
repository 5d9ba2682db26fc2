//! The transactional renamer and the per-group driver.
//!
//! All files of one group are renamed in order to one shared stem. On
//! the first failure no further forward rename is attempted and every
//! file already renamed is renamed back, oldest first; a rollback
//! failure is reported and never retried. Every outcome is announced to
//! the notifier and returned in a report.

use vstd::prelude::*;
use crate::config::FileSystem;
use crate::exif::{dotted, next_stem_of_metadata, next_stem_spec, ExifFile, ExifMetadata};
use crate::file::{parent_of, FilePath};
use crate::group::{rename_members, FileNameGroup};

verus! {

/// The reporting sink for per-file outcomes. Calls carry no answer back
/// into the logic.
pub trait ExifNotifier {
    fn rename_success(&self, prev: &FilePath, next: &FilePath);

    fn rename_error(&self, prev: &FilePath, err: String);

    fn rollback_success(&self, next: &FilePath, prev: &FilePath);

    fn rollback_error(&self, next: &FilePath, err: String);

    fn uncertain(&self, src: &FilePath);

    fn unsupported(&self, src: &FilePath);
}

/// One rollback attempt: `next` was to be renamed back to `prev`.
#[derive(Debug)]
pub struct RollbackRecord {
    pub next: FilePath,
    pub prev: FilePath,
    pub restored: bool,
}

/// What one group's rename transaction did.
#[derive(Debug)]
pub struct RenameReport {
    /// The forward renames that succeeded, `(old, new)`, in item order.
    pub renamed: Vec<(FilePath, FilePath)>,
    /// The source whose forward rename failed, if any.
    pub failed: Option<FilePath>,
    /// After a failure: one rollback attempt per renamed file, oldest
    /// first.
    pub rollbacks: Vec<RollbackRecord>,
}

/// The destination a file gets under a shared stem: its own directory,
/// the stem, a dot, its own extension.
pub open spec fn dest_of(f: ExifFile, stem: Seq<char>) -> Seq<char> {
    parent_of(f.src@) + dotted(stem, f.ext@)
}

/// The report is exactly what the transaction protocol allows for
/// `items` under `stem`: the successful renames are a prefix of the
/// items, each to its destination; either all items were renamed and
/// nothing was rolled back, or the item right after the prefix failed,
/// no later item was attempted, and each renamed file got exactly one
/// rollback attempt, oldest first.
pub open spec fn report_describes(rep: RenameReport, items: Seq<ExifFile>, stem: Seq<char>) -> bool {
    &&& rep.renamed@.len() <= items.len()
    &&& forall|i: int|
        0 <= i < rep.renamed@.len() ==> (#[trigger] rep.renamed@[i]).0@ == items[i].src@
            && rep.renamed@[i].1@ == dest_of(items[i], stem)
    &&& match rep.failed {
        None => rep.renamed@.len() == items.len() && rep.rollbacks@.len() == 0,
        Some(p) => {
            &&& rep.renamed@.len() < items.len()
            &&& p@ == items[rep.renamed@.len() as int].src@
            &&& rep.rollbacks@.len() == rep.renamed@.len()
            &&& forall|i: int|
                0 <= i < rep.rollbacks@.len() ==> (#[trigger] rep.rollbacks@[i]).next@
                    == rep.renamed@[i].1@ && rep.rollbacks@[i].prev@ == rep.renamed@[i].0@
        },
    }
}

/// When the transaction failed partway: the renames that succeeded are
/// the items before the failing one, the items after it were never
/// renamed, and the rollback walks exactly those renames, oldest first,
/// each back to its original path.
pub proof fn lemma_rollback_mirrors_renames(rep: RenameReport, items: Seq<ExifFile>, stem: Seq<char>)
    requires
        report_describes(rep, items, stem),
        rep.failed is Some,
    ensures
        rep.renamed@.len() < items.len(),
        rep.failed->Some_0@ == items[rep.renamed@.len() as int].src@,
        rep.rollbacks@.len() == rep.renamed@.len(),
        forall|i: int|
            0 <= i < rep.rollbacks@.len() ==> (#[trigger] rep.rollbacks@[i]).next@ == dest_of(
                items[i],
                stem,
            ) && rep.rollbacks@[i].prev@ == items[i].src@,
{
}

/// Rename every item to its destination under `next_stem`, in order,
/// stopping at the first failure and then renaming the already renamed
/// files back, oldest first. Each file gets at most one forward and at
/// most one rollback attempt; what happened is returned in the report,
/// whatever the filesystem answered.
pub fn rename_with_rollback<F: FileSystem, N: ExifNotifier>(
    fs: &mut F,
    nf: &N,
    items: Vec<&ExifFile>,
    next_stem: &str,
) -> (r: RenameReport)
    ensures
        report_describes(r, items@.map_values(|f: &ExifFile| *f), next_stem@),
{
    let ghost its = items@.map_values(|f: &ExifFile| *f);
    let n = items.len();
    let mut renamed: Vec<(FilePath, FilePath)> = Vec::new();
    let mut failed: Option<FilePath> = None;
    let mut i: usize = 0;
    while i < n
        invariant
            n == items@.len(),
            its == items@.map_values(|f: &ExifFile| *f),
            i <= n,
            renamed@.len() <= i,
            forall|t: int|
                0 <= t < renamed@.len() ==> (#[trigger] renamed@[t]).0@ == its[t].src@
                    && renamed@[t].1@ == dest_of(its[t], next_stem@),
            match failed {
                None => renamed@.len() == i,
                Some(p) => renamed@.len() < i && p@ == its[renamed@.len() as int].src@,
            },
        decreases n - i,
    {
        if failed.is_none() {
            let file = items[i];
            let next_src = file.next_file_src_with_stem_name(next_stem);
            match fs.rename(&file.src, &next_src) {
                Ok(_) => {
                    nf.rename_success(&file.src, &next_src);
                    renamed.push((FilePath::new(file.src.as_str()), next_src));
                },
                Err(err) => {
                    nf.rename_error(&file.src, err);
                    failed = Some(FilePath::new(file.src.as_str()));
                },
            }
        }
        i += 1;
    }
    let mut rollbacks: Vec<RollbackRecord> = Vec::new();
    if failed.is_some() {
        let m = renamed.len();
        let mut t: usize = 0;
        while t < m
            invariant
                m == renamed@.len(),
                t <= m,
                rollbacks@.len() == t,
                forall|w: int|
                    0 <= w < t ==> (#[trigger] rollbacks@[w]).next@ == renamed@[w].1@
                        && rollbacks@[w].prev@ == renamed@[w].0@,
            decreases m - t,
        {
            let prev = FilePath::new(renamed[t].0.as_str());
            let next = FilePath::new(renamed[t].1.as_str());
            match fs.rename(&next, &prev) {
                Ok(_) => {
                    nf.rollback_success(&next, &prev);
                    rollbacks.push(RollbackRecord { next, prev, restored: true });
                },
                Err(err) => {
                    nf.rollback_error(&next, err);
                    rollbacks.push(RollbackRecord { next, prev, restored: false });
                },
            }
            t += 1;
        }
    }
    RenameReport { renamed, failed, rollbacks }
}

/// How processing one group ended.
#[derive(Debug)]
pub enum GroupOutcome {
    /// A rename transaction ran; the report says what it did.
    Renamed { report: RenameReport },
    /// The group was renamable, but no usable timestamp was found: no
    /// rename was attempted.
    NoTimestamp,
    /// Every member was reported as uncertain; nothing was renamed.
    Uncertain,
    /// Every member was reported as unsupported; nothing was renamed.
    Unsupported,
}

/// Drive one classified group, given the metadata fetched for its
/// governing primary file: derive the shared stem and run the rename
/// transaction over all members, or report every member as uncertain or
/// unsupported.
pub fn process_group<F: FileSystem, N: ExifNotifier>(
    fs: &mut F,
    nf: &N,
    group: &FileNameGroup,
    metadata: Option<ExifMetadata>,
) -> (r: GroupOutcome)
    ensures
        group is Uncertain ==> r is Uncertain,
        group is Unsupported ==> r is Unsupported,
        (group is Image || group is Video || group is LiveImage) && next_stem_spec(metadata)
            is Some ==> (r matches GroupOutcome::Renamed { report } && report_describes(
            report,
            rename_members(*group),
            next_stem_spec(metadata)->Some_0,
        )),
        (group is Image || group is Video || group is LiveImage) && next_stem_spec(metadata)
            is None ==> r is NoTimestamp,
{
    match group {
        FileNameGroup::Uncertain { primary, config, .. } => {
            let mut i: usize = 0;
            while i < primary.len()
                decreases primary@.len() - i,
            {
                nf.uncertain(&primary[i].src);
                i += 1;
            }
            let mut i: usize = 0;
            while i < config.len()
                decreases config@.len() - i,
            {
                nf.uncertain(&config[i].src);
                i += 1;
            }
            GroupOutcome::Uncertain
        },
        FileNameGroup::Unsupported { config, .. } => {
            let mut i: usize = 0;
            while i < config.len()
                decreases config@.len() - i,
            {
                nf.unsupported(&config[i].src);
                i += 1;
            }
            GroupOutcome::Unsupported
        },
        _ => {
            match next_stem_of_metadata(&metadata) {
                Some(stem) => {
                    let refs = group.merge_into_rename_refs();
                    let ghost members = rename_members(*group);
                    proof {
                        assert(refs@.map_values(|f: &ExifFile| *f) =~= members);
                    }
                    let report = rename_with_rollback(fs, nf, refs, stem.as_str());
                    GroupOutcome::Renamed { report }
                },
                None => GroupOutcome::NoTimestamp,
            }
        },
    }
}

} // verus!
