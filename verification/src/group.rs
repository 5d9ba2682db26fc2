//! Grouping files by stem and classifying each group.
//!
//! All files that share a stem form one bucket: its primary members are
//! those whose extension names an image or a video, its secondary members
//! the rest. A bucket with exactly one primary file is an `Image` or
//! `Video` group; with exactly one image and one video it is a
//! `LiveImage`; with any other plural primary set it is `Uncertain`
//! (never renamed by silent heuristic); with none it is `Unsupported`.

use vstd::prelude::*;
use crate::exif::{ExifFile, FileNameGroupKey};
use crate::file::{FileType, InputFile};
use crate::utils::is_primary_spec;

verus! {

/// One bucket of same-stem files, split into primary and secondary
/// members in input order.
#[derive(Debug)]
pub struct FileGroup {
    pub primary: Vec<ExifFile>,
    pub secondary: Vec<ExifFile>,
}

impl FileGroup {
    pub fn new() -> (r: Self)
        ensures
            r.primary@ =~= Seq::<ExifFile>::empty(),
            r.secondary@ =~= Seq::<ExifFile>::empty(),
    {
        FileGroup { primary: Vec::new(), secondary: Vec::new() }
    }

    pub fn push_primary(&mut self, file: ExifFile)
        ensures
            final(self).primary@ == old(self).primary@.push(file),
            final(self).secondary@ == old(self).secondary@,
    {
        self.primary.push(file);
    }

    pub fn push_secondary(&mut self, file: ExifFile)
        ensures
            final(self).primary@ == old(self).primary@,
            final(self).secondary@ == old(self).secondary@.push(file),
    {
        self.secondary.push(file);
    }
}

/// A classified group of same-stem files.
#[derive(Debug, Clone)]
pub enum FileNameGroup {
    Image { key: FileNameGroupKey, image: ExifFile, config: Vec<ExifFile> },
    LiveImage { key: FileNameGroupKey, image: ExifFile, video: ExifFile, config: Vec<ExifFile> },
    Video { key: FileNameGroupKey, video: ExifFile, config: Vec<ExifFile> },
    Uncertain { key: FileNameGroupKey, primary: Vec<ExifFile>, config: Vec<ExifFile> },
    Unsupported { key: FileNameGroupKey, config: Vec<ExifFile> },
}

/// The key a group carries, whatever its variant.
pub open spec fn key_of(g: FileNameGroup) -> FileNameGroupKey {
    match g {
        FileNameGroup::Image { key, .. } => key,
        FileNameGroup::LiveImage { key, .. } => key,
        FileNameGroup::Video { key, .. } => key,
        FileNameGroup::Uncertain { key, .. } => key,
        FileNameGroup::Unsupported { key, .. } => key,
    }
}

/// Every member a group holds, primaries first, in their stored order.
pub open spec fn members_of(g: FileNameGroup) -> Seq<ExifFile> {
    match g {
        FileNameGroup::Image { image, config, .. } => seq![image] + config@,
        FileNameGroup::LiveImage { image, video, config, .. } => seq![image, video] + config@,
        FileNameGroup::Video { video, config, .. } => seq![video] + config@,
        FileNameGroup::Uncertain { primary, config, .. } => primary@ + config@,
        FileNameGroup::Unsupported { config, .. } => config@,
    }
}

/// The members a rename may touch: none for `Uncertain` or `Unsupported`.
pub open spec fn rename_members(g: FileNameGroup) -> Seq<ExifFile> {
    match g {
        FileNameGroup::Image { image, config, .. } => seq![image] + config@,
        FileNameGroup::LiveImage { image, video, config, .. } => seq![image, video] + config@,
        FileNameGroup::Video { video, config, .. } => seq![video] + config@,
        FileNameGroup::Uncertain { .. } => Seq::empty(),
        FileNameGroup::Unsupported { .. } => Seq::empty(),
    }
}

impl FileNameGroup {
    pub fn group_key(&self) -> (r: &FileNameGroupKey)
        ensures
            *r == key_of(*self),
    {
        match self {
            FileNameGroup::Image { key, .. } => key,
            FileNameGroup::LiveImage { key, .. } => key,
            FileNameGroup::Video { key, .. } => key,
            FileNameGroup::Uncertain { key, .. } => key,
            FileNameGroup::Unsupported { key, .. } => key,
        }
    }

    /// The files a rename of this group walks, in order: the governing
    /// primaries first, then every secondary member.
    pub fn merge_into_rename_refs(&self) -> (r: Vec<&ExifFile>)
        ensures
            r@.len() == rename_members(*self).len(),
            forall|i: int| 0 <= i < r@.len() ==> *r@[i] == rename_members(*self)[i],
    {
        let mut merged: Vec<&ExifFile> = Vec::new();
        match self {
            FileNameGroup::Image { image, config, .. } => {
                merged.push(image);
                let mut i: usize = 0;
                while i < config.len()
                    invariant
                        merged@.len() == 1 + i,
                        i <= config@.len(),
                        *merged@[0] == *image,
                        forall|j: int| 0 <= j < i ==> *merged@[j + 1] == config@[j],
                    decreases config@.len() - i,
                {
                    merged.push(&config[i]);
                    i += 1;
                }
            },
            FileNameGroup::LiveImage { image, video, config, .. } => {
                merged.push(image);
                merged.push(video);
                let mut i: usize = 0;
                while i < config.len()
                    invariant
                        merged@.len() == 2 + i,
                        i <= config@.len(),
                        *merged@[0] == *image,
                        *merged@[1] == *video,
                        forall|j: int| 0 <= j < i ==> *merged@[j + 2] == config@[j],
                    decreases config@.len() - i,
                {
                    merged.push(&config[i]);
                    i += 1;
                }
            },
            FileNameGroup::Video { video, config, .. } => {
                merged.push(video);
                let mut i: usize = 0;
                while i < config.len()
                    invariant
                        merged@.len() == 1 + i,
                        i <= config@.len(),
                        *merged@[0] == *video,
                        forall|j: int| 0 <= j < i ==> *merged@[j + 1] == config@[j],
                    decreases config@.len() - i,
                {
                    merged.push(&config[i]);
                    i += 1;
                }
            },
            FileNameGroup::Uncertain { .. } => {},
            FileNameGroup::Unsupported { .. } => {},
        }
        merged
    }
}

/// The group member whose timestamp governs the shared stem: the image
/// for `Image` and `LiveImage` groups, the video for `Video` groups.
pub open spec fn governing_primary(g: FileNameGroup) -> Option<ExifFile> {
    match g {
        FileNameGroup::Image { image, .. } => Some(image),
        FileNameGroup::LiveImage { image, .. } => Some(image),
        FileNameGroup::Video { video, .. } => Some(video),
        FileNameGroup::Uncertain { .. } => None,
        FileNameGroup::Unsupported { .. } => None,
    }
}

impl FileNameGroup {
    /// The member whose metadata decides the whole group's new stem, if
    /// the group can be renamed at all.
    pub fn primary_source(&self) -> (r: Option<&ExifFile>)
        ensures
            match r {
                Some(f) => governing_primary(*self) == Some(*f),
                None => governing_primary(*self) is None,
            },
    {
        match self {
            FileNameGroup::Image { image, .. } => Some(image),
            FileNameGroup::LiveImage { image, .. } => Some(image),
            FileNameGroup::Video { video, .. } => Some(video),
            FileNameGroup::Uncertain { .. } => None,
            FileNameGroup::Unsupported { .. } => None,
        }
    }
}

/// Exactly one image and one video, in either order.
pub open spec fn is_live_pair(p: Seq<ExifFile>) -> bool {
    p.len() == 2 && ((p[0].file_type == FileType::IMG && p[1].file_type == FileType::VIDEO) || (
    p[0].file_type == FileType::VIDEO && p[1].file_type == FileType::IMG))
}

/// The image of a live pair.
pub open spec fn live_image_of(p: Seq<ExifFile>) -> ExifFile {
    if p[0].file_type == FileType::IMG {
        p[0]
    } else {
        p[1]
    }
}

/// The video of a live pair.
pub open spec fn live_video_of(p: Seq<ExifFile>) -> ExifFile {
    if p[0].file_type == FileType::VIDEO {
        p[0]
    } else {
        p[1]
    }
}

/// Map one bucket to its group variant. Total in the bucket's shape:
/// one primary file gives `Image` or `Video` after its category; a live
/// pair gives `LiveImage`; any other plural primary set gives
/// `Uncertain`; no primary file gives `Unsupported`.
pub fn classify_group(
    key: FileNameGroupKey,
    primary: Vec<ExifFile>,
    secondary: Vec<ExifFile>,
) -> (g: FileNameGroup)
    requires
        forall|i: int| 0 <= i < primary@.len() ==> primary@[i].file_type != FileType::OTHER,
    ensures
        key_of(g) == key,
        primary@.len() == 1 && primary@[0].file_type == FileType::IMG ==> (g matches
            FileNameGroup::Image { key: k, image, config } && image == primary@[0] && config@
            == secondary@),
        primary@.len() == 1 && primary@[0].file_type == FileType::VIDEO ==> (g matches
            FileNameGroup::Video { key: k, video, config } && video == primary@[0] && config@
            == secondary@),
        is_live_pair(primary@) ==> (g matches FileNameGroup::LiveImage {
            key: k,
            image,
            video,
            config,
        } && image == live_image_of(primary@) && video == live_video_of(primary@) && config@
            == secondary@),
        primary@.len() >= 2 && !is_live_pair(primary@) ==> (g matches FileNameGroup::Uncertain {
            key: k,
            primary: p,
            config,
        } && p@ == primary@ && config@ == secondary@),
        primary@.len() == 0 ==> (g matches FileNameGroup::Unsupported { key: k, config } && config@
            == secondary@),
{
    let mut primary = primary;
    if primary.len() == 1 {
        let first = primary.remove(0);
        match first.file_type {
            FileType::IMG => FileNameGroup::Image { key, image: first, config: secondary },
            FileType::VIDEO => FileNameGroup::Video { key, video: first, config: secondary },
            FileType::OTHER => {
                proof {
                    assert(false);
                }
                FileNameGroup::Unsupported { key, config: secondary }
            },
        }
    } else if primary.len() == 2 {
        let ghost orig = primary@;
        let a = primary.remove(0);
        let b = primary.remove(0);
        match (a.file_type, b.file_type) {
            (FileType::IMG, FileType::VIDEO) => FileNameGroup::LiveImage {
                key,
                image: a,
                video: b,
                config: secondary,
            },
            (FileType::VIDEO, FileType::IMG) => FileNameGroup::LiveImage {
                key,
                image: b,
                video: a,
                config: secondary,
            },
            _ => {
                let mut p: Vec<ExifFile> = Vec::new();
                p.push(a);
                p.push(b);
                proof {
                    assert(p@ =~= orig);
                }
                FileNameGroup::Uncertain { key, primary: p, config: secondary }
            },
        }
    } else if primary.len() == 0 {
        FileNameGroup::Unsupported { key, config: secondary }
    } else {
        FileNameGroup::Uncertain { key, primary, config: secondary }
    }
}

/// The group member built for an input file: every field carried over,
/// no metadata yet.
pub open spec fn matches_input(e: ExifFile, f: InputFile) -> bool {
    &&& e.group_key@ == f.stem@
    &&& e.src@ == f.src@
    &&& e.src_relative@ == f.src_relative@
    &&& e.stem@ == f.stem@
    &&& e.ext@ == f.ext@
    &&& e.file_type == f.file_type
    &&& e.metadata is None
}

/// The group members correspond one to one, in order, to the input files.
pub open spec fn seq_matches(es: Seq<ExifFile>, fs: Seq<InputFile>) -> bool {
    es.len() == fs.len() && forall|i: int|
        0 <= i < es.len() ==> matches_input(#[trigger] es[i], fs[i])
}

/// Membership test for stem `k`'s primary bucket.
pub open spec fn primary_pred(k: Seq<char>) -> spec_fn(InputFile) -> bool {
    |f: InputFile| f.stem@ == k && is_primary_spec(f.ext@)
}

/// Membership test for stem `k`'s secondary bucket.
pub open spec fn secondary_pred(k: Seq<char>) -> spec_fn(InputFile) -> bool {
    |f: InputFile| f.stem@ == k && !is_primary_spec(f.ext@)
}

/// The primary members of stem `k`'s bucket, in input order.
pub open spec fn bucket_primary(files: Seq<InputFile>, k: Seq<char>) -> Seq<InputFile> {
    files.filter(primary_pred(k))
}

/// The secondary members of stem `k`'s bucket, in input order.
pub open spec fn bucket_secondary(files: Seq<InputFile>, k: Seq<char>) -> Seq<InputFile> {
    files.filter(secondary_pred(k))
}

/// Exactly one image and one video among the bucket's primary files.
pub open spec fn input_live_pair(p: Seq<InputFile>) -> bool {
    p.len() == 2 && ((p[0].file_type == FileType::IMG && p[1].file_type == FileType::VIDEO) || (
    p[0].file_type == FileType::VIDEO && p[1].file_type == FileType::IMG))
}

/// The group is the right variant for its stem's bucket in `files`, and
/// holds exactly that bucket's members.
pub open spec fn group_described(g: FileNameGroup, files: Seq<InputFile>) -> bool {
    let k = key_of(g)@;
    let p = bucket_primary(files, k);
    let s = bucket_secondary(files, k);
    match g {
        FileNameGroup::Image { image, config, .. } => {
            &&& p.len() == 1
            &&& p[0].file_type == FileType::IMG
            &&& matches_input(image, p[0])
            &&& seq_matches(config@, s)
        },
        FileNameGroup::Video { video, config, .. } => {
            &&& p.len() == 1
            &&& p[0].file_type == FileType::VIDEO
            &&& matches_input(video, p[0])
            &&& seq_matches(config@, s)
        },
        FileNameGroup::LiveImage { image, video, config, .. } => {
            &&& input_live_pair(p)
            &&& image.file_type == FileType::IMG
            &&& video.file_type == FileType::VIDEO
            &&& ((matches_input(image, p[0]) && matches_input(video, p[1])) || (matches_input(
                image,
                p[1],
            ) && matches_input(video, p[0])))
            &&& seq_matches(config@, s)
        },
        FileNameGroup::Uncertain { primary, config, .. } => {
            &&& p.len() >= 2
            &&& !input_live_pair(p)
            &&& seq_matches(primary@, p)
            &&& seq_matches(config@, s)
        },
        FileNameGroup::Unsupported { config, .. } => {
            &&& p.len() == 0
            &&& s.len() >= 1
            &&& seq_matches(config@, s)
        },
    }
}

/// Some emitted group carries the key `k`.
pub open spec fn has_group_with_key(gs: Seq<FileNameGroup>, k: Seq<char>) -> bool {
    exists|j: int| 0 <= j < gs.len() && key_of(#[trigger] gs[j])@ == k
}

/// The position of `stem` in the list of keys seen so far.
fn find_key(keys: &Vec<String>, stem: &str) -> (r: Option<usize>)
    ensures
        match r {
            Some(p) => p < keys@.len() && keys@[p as int]@ == stem@,
            None => forall|j: int| 0 <= j < keys@.len() ==> keys@[j]@ != stem@,
        },
{
    let mut pos: usize = 0;
    while pos < keys.len()
        invariant
            pos <= keys@.len(),
            forall|j: int| 0 <= j < pos ==> keys@[j]@ != stem@,
        decreases keys@.len() - pos,
    {
        if crate::text::str_eq(keys[pos].as_str(), stem) {
            return Some(pos);
        }
        pos += 1;
    }
    None
}

/// Some key in the list spells `k`.
pub open spec fn key_list_has(keys: Seq<String>, k: Seq<char>) -> bool {
    exists|j: int| 0 <= j < keys.len() && (#[trigger] keys[j])@ == k
}

/// Some of the first `n` files has stem `k`.
pub open spec fn stem_appears(files: Seq<InputFile>, n: int, k: Seq<char>) -> bool {
    exists|i: int| 0 <= i < n && (#[trigger] files[i]).stem@ == k
}

proof fn lemma_key_list_has_push(keys: Seq<String>, x: String, k: Seq<char>)
    requires
        key_list_has(keys, k),
    ensures
        key_list_has(keys.push(x), k),
{
    let j = choose|j: int| 0 <= j < keys.len() && (#[trigger] keys[j])@ == k;
    assert(keys.push(x)[j]@ == k);
}

/// Members extend together: a matching pair may be pushed onto matching
/// sequences.
proof fn lemma_seq_matches_push(es: Seq<ExifFile>, fs: Seq<InputFile>, e: ExifFile, f: InputFile)
    requires
        seq_matches(es, fs),
        matches_input(e, f),
    ensures
        seq_matches(es.push(e), fs.push(f)),
{
    assert forall|i: int| 0 <= i < es.push(e).len() implies matches_input(
        #[trigger] es.push(e)[i],
        fs.push(f)[i],
    ) by {
        if i < es.len() {
            assert(es.push(e)[i] == es[i]);
            assert(fs.push(f)[i] == fs[i]);
        }
    }
}

/// Bucket the input files by stem: one key per distinct stem, in order
/// of first appearance, and under each key the primary and secondary
/// members of that stem, in input order.
fn bucketize(files: &Vec<InputFile>) -> (r: (Vec<String>, Vec<FileGroup>))
    ensures
        r.0@.len() == r.1@.len(),
        forall|a: int, b: int| 0 <= a < b < r.0@.len() ==> r.0@[a]@ != r.0@[b]@,
        forall|i: int|
            0 <= i < files@.len() ==> key_list_has(r.0@, (#[trigger] files@[i]).stem@),
        forall|j: int|
            0 <= j < r.0@.len() ==> stem_appears(files@, files@.len() as int, (#[trigger] r.0@[j])@),
        forall|j: int|
            0 <= j < r.0@.len() ==> seq_matches(
                (#[trigger] r.1@[j]).primary@,
                bucket_primary(files@, r.0@[j]@),
            ),
        forall|j: int|
            0 <= j < r.0@.len() ==> seq_matches(
                (#[trigger] r.1@[j]).secondary@,
                bucket_secondary(files@, r.0@[j]@),
            ),
{
    let n = files.len();
    let mut keys: Vec<String> = Vec::new();
    let mut bodies: Vec<FileGroup> = Vec::new();
    let mut idx: usize = 0;
    while idx < n
        invariant
            n == files@.len(),
            idx <= n,
            keys@.len() == bodies@.len(),
            forall|a: int, b: int| 0 <= a < b < keys@.len() ==> keys@[a]@ != keys@[b]@,
            forall|i: int| 0 <= i < idx ==> key_list_has(keys@, (#[trigger] files@[i]).stem@),
            forall|j: int|
                0 <= j < keys@.len() ==> stem_appears(files@, idx as int, (#[trigger] keys@[j])@),
            forall|j: int|
                0 <= j < keys@.len() ==> seq_matches(
                    (#[trigger] bodies@[j]).primary@,
                    bucket_primary(files@.take(idx as int), keys@[j]@),
                ),
            forall|j: int|
                0 <= j < keys@.len() ==> seq_matches(
                    (#[trigger] bodies@[j]).secondary@,
                    bucket_secondary(files@.take(idx as int), keys@[j]@),
                ),
        decreases n - idx,
    {
        let f = &files[idx];
        let ghost fx = files@[idx as int];
        let ghost old_take = files@.take(idx as int);
        let ghost old_keys = keys@;
        let pos: usize = match find_key(&keys, f.stem.value()) {
            Some(p) => p,
            None => {
                keys.push(f.hash_key());
                bodies.push(FileGroup::new());
                proof {
                    assert forall|t: int| 0 <= t < old_take.len() implies #[trigger] old_take[t].stem@
                        != fx.stem@ by {
                        assert(old_take[t] == files@[t]);
                        assert(key_list_has(old_keys, files@[t].stem@));
                    }
                    assert(old_take.all(|x: InputFile| !(primary_pred(fx.stem@)(x))));
                    old_take.lemma_all_neg_filter_empty(primary_pred(fx.stem@));
                    assert(old_take.all(|x: InputFile| !(secondary_pred(fx.stem@)(x))));
                    old_take.lemma_all_neg_filter_empty(secondary_pred(fx.stem@));
                    assert forall|j: int| 0 <= j < old_keys.len() implies stem_appears(
                        files@,
                        idx as int,
                        (#[trigger] keys@[j])@,
                    ) by {
                        assert(keys@[j] == old_keys[j]);
                    }
                }
                keys.len() - 1
            },
        };
        proof {
            assert(keys@[pos as int]@ == fx.stem@);
            assert forall|i: int| 0 <= i < idx implies key_list_has(
                keys@,
                (#[trigger] files@[i]).stem@,
            ) by {
                if keys@.len() > old_keys.len() {
                    lemma_key_list_has_push(old_keys, keys@[keys@.len() - 1], files@[i].stem@);
                }
            }
        }
        let ghost keys_now = keys@;
        let ghost old_bodies = bodies@;
        let mut g = bodies.remove(pos);
        let member = ExifFile::from_input(f);
        let is_p = crate::utils::is_primary_ext(f.ext.value());
        if is_p {
            g.push_primary(member);
        } else {
            g.push_secondary(member);
        }
        bodies.insert(pos, g);
        proof {
            assert(files@.take(idx as int + 1) =~= old_take.push(fx));
            assert forall|j: int|
                0 <= j < keys_now.len() && j != pos implies #[trigger] bodies@[j] == old_bodies[j]
                && bodies@.len() == old_bodies.len() by {
                assert(bodies@ =~= old_bodies.remove(pos as int).insert(pos as int, bodies@[pos as int]));
            }
            assert forall|j: int| 0 <= j < keys_now.len() implies seq_matches(
                (#[trigger] bodies@[j]).primary@,
                bucket_primary(files@.take(idx as int + 1), keys_now[j]@),
            ) && seq_matches(
                bodies@[j].secondary@,
                bucket_secondary(files@.take(idx as int + 1), keys_now[j]@),
            ) by {
                let kj = keys_now[j]@;
                old_take.lemma_filter_push(fx, primary_pred(kj));
                old_take.lemma_filter_push(fx, secondary_pred(kj));
                assert(bucket_primary(files@.take(idx as int + 1), kj) == old_take.push(fx).filter(
                    primary_pred(kj),
                ));
                assert(bucket_secondary(files@.take(idx as int + 1), kj) == old_take.push(fx)
                    .filter(secondary_pred(kj)));
                if j == pos as int {
                    assert(kj == fx.stem@);
                    if is_p {
                        assert(primary_pred(kj)(fx));
                        assert(!(secondary_pred(kj)(fx)));
                        lemma_seq_matches_push(
                            old_bodies[j].primary@,
                            bucket_primary(old_take, kj),
                            member,
                            fx,
                        );
                    } else {
                        assert(!(primary_pred(kj)(fx)));
                        assert(secondary_pred(kj)(fx));
                        lemma_seq_matches_push(
                            old_bodies[j].secondary@,
                            bucket_secondary(old_take, kj),
                            member,
                            fx,
                        );
                    }
                } else {
                    assert(kj != fx.stem@);
                    assert(!(primary_pred(kj)(fx)));
                    assert(!(secondary_pred(kj)(fx)));
                }
            }
            assert forall|j: int| 0 <= j < keys_now.len() implies stem_appears(
                files@,
                idx as int + 1,
                (#[trigger] keys_now[j])@,
            ) by {
                let w = choose|i: int|
                    0 <= i < idx && (#[trigger] files@[i]).stem@ == keys_now[j]@;
                if 0 <= w < idx && files@[w].stem@ == keys_now[j]@ {
                } else {
                    assert(files@[idx as int].stem@ == keys_now[j]@);
                }
            }
        }
        idx += 1;
    }
    proof {
        assert(files@.take(n as int) =~= files@);
    }
    (keys, bodies)
}

/// Bucket the input files by shared stem and classify every bucket.
/// Each emitted group carries a distinct stem as its key; every input
/// file's stem is among them; and each group holds exactly its stem's
/// bucket, under the variant the bucket's shape selects.
pub fn group_same_name_files(files: &Vec<InputFile>) -> (groups: Vec<FileNameGroup>)
    requires
        forall|i: int| 0 <= i < files@.len() ==> (#[trigger] files@[i]).wf(),
    ensures
        forall|a: int, b: int|
            0 <= a < b < groups@.len() ==> key_of(groups@[a])@ != key_of(groups@[b])@,
        forall|i: int|
            0 <= i < files@.len() ==> has_group_with_key(groups@, (#[trigger] files@[i]).stem@),
        forall|j: int| 0 <= j < groups@.len() ==> group_described(#[trigger] groups@[j], files@),
{
    let (keys, mut bodies) = bucketize(files);
    let ghost keys0 = keys@;
    let ghost bodies0 = bodies@;
    let mut groups: Vec<FileNameGroup> = Vec::new();
    let mut j: usize = 0;
    while j < keys.len()
        invariant
            keys@ == keys0,
            keys0.len() == bodies0.len(),
            j <= keys0.len(),
            bodies@ =~= bodies0.skip(j as int),
            groups@.len() == j,
            forall|i: int| 0 <= i < files@.len() ==> (#[trigger] files@[i]).wf(),
            forall|a: int, b: int| 0 <= a < b < keys0.len() ==> keys0[a]@ != keys0[b]@,
            forall|t: int|
                0 <= t < keys0.len() ==> stem_appears(
                    files@,
                    files@.len() as int,
                    (#[trigger] keys0[t])@,
                ),
            forall|t: int|
                0 <= t < keys0.len() ==> seq_matches(
                    (#[trigger] bodies0[t]).primary@,
                    bucket_primary(files@, keys0[t]@),
                ),
            forall|t: int|
                0 <= t < keys0.len() ==> seq_matches(
                    (#[trigger] bodies0[t]).secondary@,
                    bucket_secondary(files@, keys0[t]@),
                ),
            forall|t: int| 0 <= t < j ==> key_of(#[trigger] groups@[t])@ == keys0[t]@,
            forall|t: int| 0 <= t < j ==> group_described(#[trigger] groups@[t], files@),
        decreases keys0.len() - j,
    {
        let body = bodies.remove(0);
        let key = FileNameGroupKey::new(keys[j].as_str());
        let ghost k = keys0[j as int]@;
        let ghost p_bucket = bucket_primary(files@, k);
        let ghost s_bucket = bucket_secondary(files@, k);
        proof {
            assert(body == bodies0[j as int]);
            assert(seq_matches(body.primary@, p_bucket));
            assert forall|i: int| 0 <= i < p_bucket.len() implies is_primary_spec(
                (#[trigger] p_bucket[i]).ext@,
            ) && p_bucket[i].wf() by {
                Seq::lemma_filter_pred(files@, primary_pred(k), i);
                assert(p_bucket.contains(p_bucket[i]));
                Seq::lemma_filter_contains_rev(files@, primary_pred(k), p_bucket[i]);
                let w = choose|w: int| 0 <= w < files@.len() && files@[w] == p_bucket[i];
                assert(files@[w].wf());
            }
            assert forall|i: int| 0 <= i < body.primary@.len() implies (#[trigger] body.primary@[i]).file_type
                != FileType::OTHER by {
                assert(matches_input(body.primary@[i], p_bucket[i]));
                assert(is_primary_spec(p_bucket[i].ext@) && p_bucket[i].wf());
            }
        }
        let ghost es = body.primary@;
        let g = classify_group(key, body.primary, body.secondary);
        proof {
            assert(key_of(g)@ == k);
            if p_bucket.len() == 1 {
                assert(matches_input(es[0], p_bucket[0]));
            } else if p_bucket.len() == 2 {
                assert(matches_input(es[0], p_bucket[0]));
                assert(matches_input(es[1], p_bucket[1]));
                assert(is_live_pair(es) == input_live_pair(p_bucket));
                if is_live_pair(es) {
                    if es[0].file_type == FileType::IMG {
                        assert(live_image_of(es) == es[0]);
                        assert(live_video_of(es) == es[1]);
                    } else {
                        assert(live_image_of(es) == es[1]);
                        assert(live_video_of(es) == es[0]);
                    }
                }
            } else if p_bucket.len() == 0 {
                let i = choose|i: int|
                    0 <= i < files@.len() && (#[trigger] files@[i]).stem@ == k;
                if is_primary_spec(files@[i].ext@) {
                    Seq::lemma_filter_contains(files@, primary_pred(k), i);
                    assert(p_bucket.contains(files@[i]));
                    let w = choose|w: int| 0 <= w < p_bucket.len() && p_bucket[w] == files@[i];
                    assert(false);
                } else {
                    Seq::lemma_filter_contains(files@, secondary_pred(k), i);
                    assert(s_bucket.contains(files@[i]));
                    let w = choose|w: int| 0 <= w < s_bucket.len() && s_bucket[w] == files@[i];
                    assert(s_bucket.len() >= 1);
                }
            }
            assert(group_described(g, files@));
        }
        groups.push(g);
        j += 1;
    }
    proof {
        assert forall|i: int| 0 <= i < files@.len() implies has_group_with_key(
            groups@,
            (#[trigger] files@[i]).stem@,
        ) by {
            let t = choose|t: int|
                0 <= t < keys0.len() && (#[trigger] keys0[t])@ == files@[i].stem@;
            assert(key_of(groups@[t])@ == files@[i].stem@);
        }
    }
    groups
}



/// The group holds `f`: it carries `f`'s stem as its key and one of its
/// members was built from `f`.
pub open spec fn group_holds_file(g: FileNameGroup, f: InputFile) -> bool {
    key_of(g)@ == f.stem@ && exists|m: int|
        0 <= m < members_of(g).len() && matches_input(#[trigger] members_of(g)[m], f)
}

/// Every input file appears in exactly one emitted group: some group
/// holds it, and no two distinct groups do. (That each group is exactly
/// one variant is the sum type's own guarantee.)
pub proof fn lemma_file_in_exactly_one_group(
    files: Seq<InputFile>,
    groups: Seq<FileNameGroup>,
    i: int,
)
    requires
        forall|t: int| 0 <= t < files.len() ==> (#[trigger] files[t]).wf(),
        forall|a: int, b: int| 0 <= a < b < groups.len() ==> key_of(groups[a])@ != key_of(groups[b])@,
        forall|t: int| 0 <= t < files.len() ==> has_group_with_key(groups, (#[trigger] files[t]).stem@),
        forall|j: int| 0 <= j < groups.len() ==> group_described(#[trigger] groups[j], files),
        0 <= i < files.len(),
    ensures
        exists|j: int| 0 <= j < groups.len() && group_holds_file(#[trigger] groups[j], files[i]),
        forall|j1: int, j2: int|
            0 <= j1 < groups.len() && 0 <= j2 < groups.len() && group_holds_file(
                #[trigger] groups[j1],
                files[i],
            ) && group_holds_file(#[trigger] groups[j2], files[i]) ==> j1 == j2,
{
    let f = files[i];
    let k = f.stem@;
    assert(has_group_with_key(groups, k));
    let j = choose|j: int| 0 <= j < groups.len() && key_of(#[trigger] groups[j])@ == k;
    let g = groups[j];
    assert(group_described(g, files));
    let p = bucket_primary(files, k);
    let s = bucket_secondary(files, k);
    if is_primary_spec(f.ext@) {
        Seq::lemma_filter_contains(files, primary_pred(k), i);
        assert(p.contains(f));
        let w = choose|w: int| 0 <= w < p.len() && p[w] == f;
        match g {
            FileNameGroup::Image { image, config, .. } => {
                assert(members_of(g)[0] == image);
                assert(matches_input(members_of(g)[0], f));
            },
            FileNameGroup::Video { video, config, .. } => {
                assert(members_of(g)[0] == video);
                assert(matches_input(members_of(g)[0], f));
            },
            FileNameGroup::LiveImage { image, video, config, .. } => {
                if matches_input(image, p[0]) && matches_input(video, p[1]) {
                    if w == 0 {
                        assert(members_of(g)[0] == image);
                        assert(matches_input(members_of(g)[0], f));
                    } else {
                        assert(members_of(g)[1] == video);
                        assert(matches_input(members_of(g)[1], f));
                    }
                } else {
                    if w == 0 {
                        assert(members_of(g)[1] == video);
                        assert(matches_input(members_of(g)[1], f));
                    } else {
                        assert(members_of(g)[0] == image);
                        assert(matches_input(members_of(g)[0], f));
                    }
                }
            },
            FileNameGroup::Uncertain { primary, config, .. } => {
                assert(members_of(g)[w] == primary@[w]);
                assert(matches_input(members_of(g)[w], f));
            },
            FileNameGroup::Unsupported { config, .. } => {
                assert(false);
            },
        }
    } else {
        Seq::lemma_filter_contains(files, secondary_pred(k), i);
        assert(s.contains(f));
        let w = choose|w: int| 0 <= w < s.len() && s[w] == f;
        match g {
            FileNameGroup::Image { image, config, .. } => {
                assert(members_of(g)[1 + w] == config@[w]);
                assert(matches_input(members_of(g)[1 + w], f));
            },
            FileNameGroup::Video { video, config, .. } => {
                assert(members_of(g)[1 + w] == config@[w]);
                assert(matches_input(members_of(g)[1 + w], f));
            },
            FileNameGroup::LiveImage { image, video, config, .. } => {
                assert(members_of(g)[2 + w] == config@[w]);
                assert(matches_input(members_of(g)[2 + w], f));
            },
            FileNameGroup::Uncertain { primary, config, .. } => {
                assert(members_of(g)[primary@.len() as int + w] == config@[w]);
                assert(matches_input(members_of(g)[primary@.len() as int + w], f));
            },
            FileNameGroup::Unsupported { config, .. } => {
                assert(members_of(g)[w] == config@[w]);
                assert(matches_input(members_of(g)[w], f));
            },
        }
    }
    assert(group_holds_file(groups[j], f));
}


/// A group whose stem has exactly one primary file, an image, is always
/// an `Image` group, whatever its secondary count.
pub proof fn lemma_single_image_is_image(g: FileNameGroup, files: Seq<InputFile>)
    requires
        group_described(g, files),
        bucket_primary(files, key_of(g)@).len() == 1,
        bucket_primary(files, key_of(g)@)[0].file_type == FileType::IMG,
    ensures
        g is Image,
{
}

/// A group whose stem has exactly one primary file, a video, is always
/// a `Video` group, whatever its secondary count.
pub proof fn lemma_single_video_is_video(g: FileNameGroup, files: Seq<InputFile>)
    requires
        group_described(g, files),
        bucket_primary(files, key_of(g)@).len() == 1,
        bucket_primary(files, key_of(g)@)[0].file_type == FileType::VIDEO,
    ensures
        g is Video,
{
}

/// A group whose stem has exactly one image and one video primary is
/// always a `LiveImage` group, whatever its secondary count.
pub proof fn lemma_live_pair_is_live_image(g: FileNameGroup, files: Seq<InputFile>)
    requires
        group_described(g, files),
        input_live_pair(bucket_primary(files, key_of(g)@)),
    ensures
        g is LiveImage,
{
}

/// A group whose stem has two or more primary files not forming exactly
/// one image and one video is always an `Uncertain` group.
pub proof fn lemma_plural_primaries_are_uncertain(g: FileNameGroup, files: Seq<InputFile>)
    requires
        group_described(g, files),
        bucket_primary(files, key_of(g)@).len() >= 2,
        !input_live_pair(bucket_primary(files, key_of(g)@)),
    ensures
        g is Uncertain,
{
}

/// A group whose stem has no primary file and at least one secondary
/// file is always an `Unsupported` group.
pub proof fn lemma_no_primary_is_unsupported(g: FileNameGroup, files: Seq<InputFile>)
    requires
        group_described(g, files),
        bucket_primary(files, key_of(g)@).len() == 0,
    ensures
        g is Unsupported,
{
}

} // verus!
