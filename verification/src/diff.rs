//! The diff of two directory listings: which paths are only in the source
//! tree, only in the target tree, or in both.

use crate::laws::{
    lemma_common_paths_ascending, lemma_common_paths_fixed, lemma_diff_ascending,
    lemma_diff_covers, lemma_diff_partitions,
};
use crate::listing::{strictly_sorted, DirListing};
use crate::order::{compare_paths, lemma_path_lt_total, path_lt, PathOrder};
use vstd::prelude::*;

verus! {

/// What is known of the content at a path that both trees hold.
#[derive(Clone, Copy, Debug, PartialEq, Eq, Structural)]
pub enum ContentStatus {
    /// The content was not compared: comparison is off, or neither side is a
    /// regular file.
    NotCompared,
    /// Both sides are regular files with the same bytes.
    Unchanged,
    /// The two sides differ: in their bytes, or in that only one of them is a
    /// regular file.
    Changed,
}

/// What was observed at one path under the two roots.
#[derive(Clone, Copy, Debug, PartialEq, Eq, Structural)]
pub struct PathProbe {
    /// The path is a regular file in the source tree.
    pub source_is_file: bool,
    /// The path is a regular file in the target tree.
    pub target_is_file: bool,
    /// Both files were read and hold the same bytes. It counts only where
    /// both sides are regular files.
    pub same_content: bool,
}

/// One entry of a diff.
#[derive(Clone, Debug, PartialEq, Eq)]
pub enum DirDiff {
    /// The path is only in the source listing.
    Removed(String),
    /// The path is only in the target listing.
    Added(String),
    /// The path is in both listings.
    Common(String, ContentStatus),
}

/// The model of a `DirDiff`: the same entry, its path as a sequence of
/// characters.
pub enum DiffEntry {
    Removed(Seq<char>),
    Added(Seq<char>),
    Common(Seq<char>, ContentStatus),
}

impl View for DirDiff {
    type V = DiffEntry;

    open spec fn view(&self) -> DiffEntry {
        match *self {
            DirDiff::Removed(path) => DiffEntry::Removed(path@),
            DirDiff::Added(path) => DiffEntry::Added(path@),
            DirDiff::Common(path, status) => DiffEntry::Common(path@, status),
        }
    }
}

impl DeepView for DirDiff {
    type V = DiffEntry;

    open spec fn deep_view(&self) -> DiffEntry {
        self@
    }
}

/// The status that a probe gives: a change of type is a change; two regular
/// files are compared by their bytes; where neither is a regular file there is
/// nothing to compare.
pub open spec fn probe_status(probe: PathProbe) -> ContentStatus {
    if probe.source_is_file != probe.target_is_file {
        ContentStatus::Changed
    } else if probe.source_is_file {
        if probe.same_content {
            ContentStatus::Unchanged
        } else {
            ContentStatus::Changed
        }
    } else {
        ContentStatus::NotCompared
    }
}

/// The status of the common path of rank `k`, the ranks counting the common
/// paths in ascending order from 0: that of the probe of this rank, where
/// content is compared and there is such a probe.
pub open spec fn status_at(probes: Seq<PathProbe>, compare: bool, k: int) -> ContentStatus {
    if compare && 0 <= k < probes.len() {
        probe_status(probes[k])
    } else {
        ContentStatus::NotCompared
    }
}

/// The merge of the listings `a` and `b` into a diff, the first common path
/// having rank `k`. The smaller of the two first paths leaves its listing as
/// `Removed` or `Added`; a path that heads both leaves both as `Common`; when
/// one listing is used up, what is left of the other follows as it stands.
pub open spec fn merge_diff(
    a: Seq<Seq<char>>,
    b: Seq<Seq<char>>,
    probes: Seq<PathProbe>,
    compare: bool,
    k: int,
) -> Seq<DiffEntry>
    decreases a.len() + b.len(),
{
    if a.len() == 0 {
        b.map_values(|p: Seq<char>| DiffEntry::Added(p))
    } else if b.len() == 0 {
        a.map_values(|p: Seq<char>| DiffEntry::Removed(p))
    } else if path_lt(a[0], b[0]) {
        seq![DiffEntry::Removed(a[0])] + merge_diff(a.drop_first(), b, probes, compare, k)
    } else if path_lt(b[0], a[0]) {
        seq![DiffEntry::Added(b[0])] + merge_diff(a, b.drop_first(), probes, compare, k)
    } else {
        seq![DiffEntry::Common(a[0], status_at(probes, compare, k))] + merge_diff(
            a.drop_first(),
            b.drop_first(),
            probes,
            compare,
            k + 1,
        )
    }
}

/// The diff of the source listing `a` against the target listing `b`. With
/// `compare`, the common paths take their status from `probes`, the probe of
/// rank `k` being that of the `k`-th common path.
pub open spec fn dir_diff(
    a: Seq<Seq<char>>,
    b: Seq<Seq<char>>,
    probes: Seq<PathProbe>,
    compare: bool,
) -> Seq<DiffEntry> {
    merge_diff(a, b, probes, compare, 0)
}

/// The path of an entry.
pub open spec fn entry_path(entry: DiffEntry) -> Seq<char> {
    match entry {
        DiffEntry::Removed(path) => path,
        DiffEntry::Added(path) => path,
        DiffEntry::Common(path, _) => path,
    }
}

/// The paths of a diff, entry by entry.
pub open spec fn diff_paths(diff: Seq<DiffEntry>) -> Seq<Seq<char>> {
    diff.map_values(|entry: DiffEntry| entry_path(entry))
}

/// The paths of the `Removed` entries of a diff, in the diff's order.
pub open spec fn removed_paths(diff: Seq<DiffEntry>) -> Seq<Seq<char>>
    decreases diff.len(),
{
    if diff.len() == 0 {
        Seq::empty()
    } else {
        match diff[0] {
            DiffEntry::Removed(path) => seq![path] + removed_paths(diff.drop_first()),
            _ => removed_paths(diff.drop_first()),
        }
    }
}

/// The paths of the `Added` entries of a diff, in the diff's order.
pub open spec fn added_paths(diff: Seq<DiffEntry>) -> Seq<Seq<char>>
    decreases diff.len(),
{
    if diff.len() == 0 {
        Seq::empty()
    } else {
        match diff[0] {
            DiffEntry::Added(path) => seq![path] + added_paths(diff.drop_first()),
            _ => added_paths(diff.drop_first()),
        }
    }
}

/// The paths of the `Common` entries of a diff, in the diff's order.
pub open spec fn common_paths(diff: Seq<DiffEntry>) -> Seq<Seq<char>>
    decreases diff.len(),
{
    if diff.len() == 0 {
        Seq::empty()
    } else {
        match diff[0] {
            DiffEntry::Common(path, _) => seq![path] + common_paths(diff.drop_first()),
            _ => common_paths(diff.drop_first()),
        }
    }
}

/// The status that a probe gives.
pub fn content_status(probe: PathProbe) -> (status: ContentStatus)
    ensures
        status == probe_status(probe),
{
    if probe.source_is_file != probe.target_is_file {
        ContentStatus::Changed
    } else if probe.source_is_file {
        if probe.same_content {
            ContentStatus::Unchanged
        } else {
            ContentStatus::Changed
        }
    } else {
        ContentStatus::NotCompared
    }
}

/// Says whether the content at a path has to be read: only where both sides
/// are regular files.
pub fn needs_content(source_is_file: bool, target_is_file: bool) -> (needed: bool)
    ensures
        needed == (source_is_file && target_is_file),
{
    source_is_file && target_is_file
}

/// Compares the content of two files byte for byte.
pub fn same_content(source: &[u8], target: &[u8]) -> (same: bool)
    ensures
        same == (source@ == target@),
{
    if source.len() != target.len() {
        return false;
    }
    let mut n: usize = 0;
    while n < source.len()
        invariant
            0 <= n <= source.len(),
            source.len() == target.len(),
            source@.take(n as int) == target@.take(n as int),
        decreases source.len() - n,
    {
        if source[n] != target[n] {
            return false;
        }
        n += 1;
    }
    proof {
        assert(source@ =~= source@.take(n as int));
        assert(target@ =~= target@.take(n as int));
    }
    true
}

/// The diff of the source listing against the target listing, in one pass
/// over both.
///
/// With `compare_file_content`, the common paths take their status from
/// `probes`: the probe at index `k` is that of the `k`-th common path in
/// ascending order. A common path without a probe is `NotCompared`, and so is
/// every common path when content is not compared.
pub fn get_dir_diff(
    source_dir_listing: &DirListing,
    target_dir_listing: &DirListing,
    probes: &Vec<PathProbe>,
    compare_file_content: bool,
) -> (diff: Vec<DirDiff>)
    ensures
        diff.deep_view() == dir_diff(
            source_dir_listing@,
            target_dir_listing@,
            probes@,
            compare_file_content,
        ),
        strictly_sorted(diff_paths(diff.deep_view())),
        diff_paths(diff.deep_view()).to_set() == source_dir_listing@.to_set().union(
            target_dir_listing@.to_set(),
        ),
        removed_paths(diff.deep_view()).to_set() == source_dir_listing@.to_set().difference(
            target_dir_listing@.to_set(),
        ),
        added_paths(diff.deep_view()).to_set() == target_dir_listing@.to_set().difference(
            source_dir_listing@.to_set(),
        ),
        common_paths(diff.deep_view()).to_set() == source_dir_listing@.to_set().intersect(
            target_dir_listing@.to_set(),
        ),
{
    let source = source_dir_listing.paths();
    let target = target_dir_listing.paths();
    let ghost a = source.deep_view();
    let ghost b = target.deep_view();
    let ghost whole = dir_diff(a, b, probes@, compare_file_content);
    let mut diff: Vec<DirDiff> = Vec::new();
    let mut i: usize = 0;
    let mut j: usize = 0;
    let mut k: usize = 0;
    proof {
        assert(a.skip(0) =~= a);
        assert(b.skip(0) =~= b);
    }
    while i < source.len() || j < target.len()
        invariant
            a == source.deep_view(),
            b == target.deep_view(),
            whole == dir_diff(a, b, probes@, compare_file_content),
            0 <= i <= source.len(),
            0 <= j <= target.len(),
            k <= i,
            diff.deep_view() + merge_diff(
                a.skip(i as int),
                b.skip(j as int),
                probes@,
                compare_file_content,
                k as int,
            ) == whole,
        decreases source.len() - i + target.len() - j,
    {
        proof {
            if i < source.len() {
                assert(a.skip(i as int).drop_first() =~= a.skip(i + 1));
            }
            if j < target.len() {
                assert(b.skip(j as int).drop_first() =~= b.skip(j + 1));
            }
        }
        if i >= source.len() {
            diff.push(DirDiff::Added(target[j].clone()));
            j += 1;
        } else if j >= target.len() {
            diff.push(DirDiff::Removed(source[i].clone()));
            i += 1;
        } else {
            match compare_paths(source[i].as_str(), target[j].as_str()) {
                PathOrder::Before => {
                    diff.push(DirDiff::Removed(source[i].clone()));
                    i += 1;
                },
                PathOrder::After => {
                    proof {
                        lemma_path_lt_total(a[i as int], b[j as int]);
                    }
                    diff.push(DirDiff::Added(target[j].clone()));
                    j += 1;
                },
                PathOrder::Same => {
                    let status = if compare_file_content && k < probes.len() {
                        content_status(probes[k])
                    } else {
                        ContentStatus::NotCompared
                    };
                    diff.push(DirDiff::Common(source[i].clone(), status));
                    i += 1;
                    j += 1;
                    k += 1;
                },
            }
        }
    }
    proof {
        lemma_diff_ascending(a, b, probes@, compare_file_content);
        lemma_diff_covers(a, b, probes@, compare_file_content);
        lemma_diff_partitions(a, b, probes@, compare_file_content);
    }
    diff
}

/// The paths whose content is to be probed before a diff with content
/// comparison: the paths that both listings hold, in ascending order. The
/// probe of the `k`-th of them is the probe at index `k` that `get_dir_diff`
/// takes.
pub fn paths_to_probe(source_dir_listing: &DirListing, target_dir_listing: &DirListing) -> (paths:
    Vec<String>)
    ensures
        forall|probes: Seq<PathProbe>, compare: bool|
            paths.deep_view() == common_paths(
                #[trigger] dir_diff(source_dir_listing@, target_dir_listing@, probes, compare),
            ),
        strictly_sorted(paths.deep_view()),
        paths.deep_view().to_set() == source_dir_listing@.to_set().intersect(
            target_dir_listing@.to_set(),
        ),
{
    let no_probes: Vec<PathProbe> = Vec::new();
    let diff = get_dir_diff(source_dir_listing, target_dir_listing, &no_probes, false);
    let ghost d = diff.deep_view();
    let mut paths: Vec<String> = Vec::new();
    let mut n: usize = 0;
    proof {
        assert(d.skip(0) =~= d);
    }
    while n < diff.len()
        invariant
            0 <= n <= diff.len(),
            d == diff.deep_view(),
            paths.deep_view() + common_paths(d.skip(n as int)) == common_paths(d),
        decreases diff.len() - n,
    {
        proof {
            assert(d.skip(n as int).drop_first() =~= d.skip(n + 1));
        }
        match &diff[n] {
            DirDiff::Common(path, _) => {
                paths.push(path.clone());
            },
            _ => {},
        }
        n += 1;
    }
    proof {
        assert forall|probes: Seq<PathProbe>, compare: bool|
            paths.deep_view() == common_paths(
                #[trigger] dir_diff(source_dir_listing@, target_dir_listing@, probes, compare),
            ) by {
            lemma_common_paths_fixed(
                source_dir_listing@,
                target_dir_listing@,
                no_probes@,
                false,
                0,
                probes,
                compare,
                0,
            );
        }
        lemma_common_paths_ascending(d);
    }
    paths
}

} // verus!
