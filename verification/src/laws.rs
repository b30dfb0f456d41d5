//! What holds of every diff.

use crate::diff::{
    added_paths, common_paths, diff_paths, dir_diff, merge_diff, removed_paths,
    status_at, ContentStatus, DiffEntry, PathProbe,
};
use crate::listing::{is_listing_of, lemma_sorted_listing_unique, listed_as, strictly_sorted};
use crate::order::{
    lemma_path_lt_asymmetric, lemma_path_lt_total, lemma_path_lt_transitive, path_lt,
};
use crate::seq_facts::lemma_concat_contains;
use vstd::prelude::*;

verus! {

/// What an ascending sequence holds, seen from its first path.
proof fn lemma_sorted_head(a: Seq<Seq<char>>)
    requires
        strictly_sorted(a),
        a.len() > 0,
    ensures
        strictly_sorted(a.drop_first()),
        forall|p: Seq<char>| a.drop_first().contains(p) ==> path_lt(a[0], p),
        forall|p: Seq<char>| a.contains(p) <==> p == a[0] || a.drop_first().contains(p),
        !a.drop_first().contains(a[0]),
{
    let rest = a.drop_first();
    assert forall|p: Seq<char>| a.contains(p) <==> p == a[0] || rest.contains(p) by {
        assert(a =~= seq![a[0]] + rest);
    }
}

/// A path put before an ascending sequence of paths that all come after it.
proof fn lemma_sorted_prepend(x: Seq<char>, s: Seq<Seq<char>>)
    requires
        strictly_sorted(s),
        forall|p: Seq<char>| s.contains(p) ==> path_lt(x, p),
    ensures
        strictly_sorted(seq![x] + s),
        forall|p: Seq<char>| (seq![x] + s).contains(p) <==> p == x || s.contains(p),
{
    let t = seq![x] + s;
    assert forall|p: Seq<char>| t.contains(p) <==> p == x || s.contains(p) by {
        lemma_concat_contains(seq![x], s, p);
        if p == x {
            assert(seq![x][0] == p);
        }
    }
}

/// A listing of which every path is `Added`.
proof fn lemma_all_added(b: Seq<Seq<char>>)
    ensures
        removed_paths(b.map_values(|p: Seq<char>| DiffEntry::Added(p))) == Seq::<
            Seq<char>,
        >::empty(),
        added_paths(b.map_values(|p: Seq<char>| DiffEntry::Added(p))) == b,
        common_paths(b.map_values(|p: Seq<char>| DiffEntry::Added(p))) == Seq::<
            Seq<char>,
        >::empty(),
        diff_paths(b.map_values(|p: Seq<char>| DiffEntry::Added(p))) == b,
    decreases b.len(),
{
    let d = b.map_values(|p: Seq<char>| DiffEntry::Added(p));
    if b.len() > 0 {
        lemma_all_added(b.drop_first());
        assert(d.drop_first() =~= b.drop_first().map_values(|p: Seq<char>| DiffEntry::Added(p)));
    }
}

/// A listing of which every path is `Removed`.
proof fn lemma_all_removed(a: Seq<Seq<char>>)
    ensures
        removed_paths(a.map_values(|p: Seq<char>| DiffEntry::Removed(p))) == a,
        added_paths(a.map_values(|p: Seq<char>| DiffEntry::Removed(p))) == Seq::<
            Seq<char>,
        >::empty(),
        common_paths(a.map_values(|p: Seq<char>| DiffEntry::Removed(p))) == Seq::<
            Seq<char>,
        >::empty(),
        diff_paths(a.map_values(|p: Seq<char>| DiffEntry::Removed(p))) == a,
    decreases a.len(),
{
    let d = a.map_values(|p: Seq<char>| DiffEntry::Removed(p));
    if a.len() > 0 {
        lemma_all_removed(a.drop_first());
        assert(d.drop_first() =~= a.drop_first().map_values(|p: Seq<char>| DiffEntry::Removed(p)));
    }
}

/// What the merge of two ascending listings holds, and in what order.
proof fn lemma_merge_diff_contents(
    a: Seq<Seq<char>>,
    b: Seq<Seq<char>>,
    probes: Seq<PathProbe>,
    compare: bool,
    k: int,
)
    requires
        strictly_sorted(a),
        strictly_sorted(b),
    ensures
        forall|p: Seq<char>|
            removed_paths(merge_diff(a, b, probes, compare, k)).contains(p) <==> a.contains(p)
                && !b.contains(p),
        forall|p: Seq<char>|
            added_paths(merge_diff(a, b, probes, compare, k)).contains(p) <==> b.contains(p)
                && !a.contains(p),
        forall|p: Seq<char>|
            common_paths(merge_diff(a, b, probes, compare, k)).contains(p) <==> a.contains(p)
                && b.contains(p),
        forall|p: Seq<char>|
            diff_paths(merge_diff(a, b, probes, compare, k)).contains(p) <==> a.contains(p)
                || b.contains(p),
        strictly_sorted(diff_paths(merge_diff(a, b, probes, compare, k))),
    decreases a.len() + b.len(),
{
    let d = merge_diff(a, b, probes, compare, k);
    if a.len() == 0 {
        lemma_all_added(b);
    } else if b.len() == 0 {
        lemma_all_removed(a);
    } else {
        lemma_sorted_head(a);
        lemma_sorted_head(b);
        let x = a[0];
        let y = b[0];
        let a1 = a.drop_first();
        let b1 = b.drop_first();
        if path_lt(x, y) {
            let rest = merge_diff(a1, b, probes, compare, k);
            lemma_merge_diff_contents(a1, b, probes, compare, k);
            assert(d.drop_first() =~= rest);
            assert(diff_paths(d) =~= seq![x] + diff_paths(rest));
            assert forall|p: Seq<char>| diff_paths(rest).contains(p) implies path_lt(x, p) by {
                if b.contains(p) && p != y {
                    lemma_path_lt_transitive(x, y, p);
                }
            }
            lemma_sorted_prepend(x, diff_paths(rest));
            assert(!b.contains(x)) by {
                if b.contains(x) && x != y {
                    lemma_path_lt_asymmetric(x, y);
                }
            }
            assert forall|p: Seq<char>|
                removed_paths(d).contains(p) <==> a.contains(p) && !b.contains(p) by {
                lemma_concat_contains(seq![x], removed_paths(rest), p);
            }
        } else if path_lt(y, x) {
            let rest = merge_diff(a, b1, probes, compare, k);
            lemma_merge_diff_contents(a, b1, probes, compare, k);
            assert(d.drop_first() =~= rest);
            assert(diff_paths(d) =~= seq![y] + diff_paths(rest));
            assert forall|p: Seq<char>| diff_paths(rest).contains(p) implies path_lt(y, p) by {
                if a.contains(p) && p != x {
                    lemma_path_lt_transitive(y, x, p);
                }
            }
            lemma_sorted_prepend(y, diff_paths(rest));
            assert forall|p: Seq<char>|
                added_paths(d).contains(p) <==> b.contains(p) && !a.contains(p) by {
                lemma_concat_contains(seq![y], added_paths(rest), p);
            }
        } else {
            lemma_path_lt_total(x, y);
            let rest = merge_diff(a1, b1, probes, compare, k + 1);
            lemma_merge_diff_contents(a1, b1, probes, compare, k + 1);
            assert(d.drop_first() =~= rest);
            assert(diff_paths(d) =~= seq![x] + diff_paths(rest));
            assert forall|p: Seq<char>| diff_paths(rest).contains(p) implies path_lt(x, p) by {
                assert(a1.contains(p) || b1.contains(p));
            }
            lemma_sorted_prepend(x, diff_paths(rest));
            assert forall|p: Seq<char>|
                common_paths(d).contains(p) <==> a.contains(p) && b.contains(p) by {
                lemma_concat_contains(seq![x], common_paths(rest), p);
            }
        }
    }
}

/// The removed paths of a diff are exactly those of the source listing that
/// the target listing lacks, the added paths those of the target listing that
/// the source listing lacks, and the common paths those that both hold.
pub proof fn lemma_diff_partitions(
    a: Seq<Seq<char>>,
    b: Seq<Seq<char>>,
    probes: Seq<PathProbe>,
    compare: bool,
)
    requires
        strictly_sorted(a),
        strictly_sorted(b),
    ensures
        removed_paths(dir_diff(a, b, probes, compare)).to_set() == a.to_set().difference(
            b.to_set(),
        ),
        added_paths(dir_diff(a, b, probes, compare)).to_set() == b.to_set().difference(
            a.to_set(),
        ),
        common_paths(dir_diff(a, b, probes, compare)).to_set() == a.to_set().intersect(
            b.to_set(),
        ),
{
    lemma_merge_diff_contents(a, b, probes, compare, 0);
}

/// The entries of a diff stand in ascending order of their paths.
pub proof fn lemma_diff_ascending(
    a: Seq<Seq<char>>,
    b: Seq<Seq<char>>,
    probes: Seq<PathProbe>,
    compare: bool,
)
    requires
        strictly_sorted(a),
        strictly_sorted(b),
    ensures
        strictly_sorted(diff_paths(dir_diff(a, b, probes, compare))),
{
    lemma_merge_diff_contents(a, b, probes, compare, 0);
}

/// Every path of either listing is the path of exactly one entry of their
/// diff, and the diff has no other entries.
pub proof fn lemma_diff_covers(
    a: Seq<Seq<char>>,
    b: Seq<Seq<char>>,
    probes: Seq<PathProbe>,
    compare: bool,
)
    requires
        strictly_sorted(a),
        strictly_sorted(b),
    ensures
        diff_paths(dir_diff(a, b, probes, compare)).to_set() == a.to_set().union(b.to_set()),
        diff_paths(dir_diff(a, b, probes, compare)).no_duplicates(),
{
    lemma_merge_diff_contents(a, b, probes, compare, 0);
    let paths = diff_paths(dir_diff(a, b, probes, compare));
    assert forall|i: int, j: int| 0 <= i < paths.len() && 0 <= j < paths.len() && i != j implies
        paths[i] != paths[j] by {
    }
}

/// The merge of a listing with itself: every path is common.
proof fn lemma_merge_diff_self(a: Seq<Seq<char>>, probes: Seq<PathProbe>, compare: bool, k: int)
    ensures
        merge_diff(a, a, probes, compare, k).len() == a.len(),
        forall|i: int|
            0 <= i < a.len() ==> #[trigger] merge_diff(a, a, probes, compare, k)[i]
                == DiffEntry::Common(a[i], status_at(probes, compare, k + i)),
        removed_paths(merge_diff(a, a, probes, compare, k)) == Seq::<Seq<char>>::empty(),
        added_paths(merge_diff(a, a, probes, compare, k)) == Seq::<Seq<char>>::empty(),
        common_paths(merge_diff(a, a, probes, compare, k)) == a,
    decreases a.len(),
{
    let d = merge_diff(a, a, probes, compare, k);
    if a.len() > 0 {
        let rest = merge_diff(a.drop_first(), a.drop_first(), probes, compare, k + 1);
        lemma_merge_diff_self(a.drop_first(), probes, compare, k + 1);
        assert(d.drop_first() =~= rest);
    }
}

/// The diff of a listing against itself, content not compared, has no
/// removed and no added path: it holds every path of the listing as
/// `Common` and `NotCompared`.
pub proof fn lemma_diff_of_itself(a: Seq<Seq<char>>, probes: Seq<PathProbe>)
    ensures
        dir_diff(a, a, probes, false) == a.map_values(
            |p: Seq<char>| DiffEntry::Common(p, ContentStatus::NotCompared),
        ),
        removed_paths(dir_diff(a, a, probes, false)).len() == 0,
        added_paths(dir_diff(a, a, probes, false)).len() == 0,
        common_paths(dir_diff(a, a, probes, false)) == a,
{
    lemma_merge_diff_self(a, probes, false, 0);
}

/// The diff of a listing against itself, content compared, where every path
/// was found to be a regular file on both sides with the same bytes: every
/// path is `Common` and `Unchanged`.
pub proof fn lemma_diff_of_itself_same_content(a: Seq<Seq<char>>, probes: Seq<PathProbe>)
    requires
        probes.len() >= a.len(),
        forall|k: int|
            0 <= k < a.len() ==> (#[trigger] probes[k]).source_is_file
                && probes[k].target_is_file && probes[k].same_content,
    ensures
        dir_diff(a, a, probes, true) == a.map_values(
            |p: Seq<char>| DiffEntry::Common(p, ContentStatus::Unchanged),
        ),
{
    lemma_merge_diff_self(a, probes, true, 0);
}

/// The listing of a tree rests on which entries a walk has enumerated, not on
/// their order nor on how often each was met: two walks that enumerate the
/// same entries have the same listing.
pub proof fn lemma_listing_fixed_by_entries(
    root: Seq<char>,
    depth: Option<u8>,
    entries: Seq<Seq<char>>,
    entries_again: Seq<Seq<char>>,
    listing: Seq<Seq<char>>,
    listing_again: Seq<Seq<char>>,
)
    requires
        is_listing_of(listing, root, depth, entries),
        is_listing_of(listing_again, root, depth, entries_again),
        entries.to_set() == entries_again.to_set(),
    ensures
        listing == listing_again,
{
    assert forall|p: Seq<char>| listing.contains(p) <==> listing_again.contains(p) by {
        if listing.contains(p) {
            let i = choose|i: int|
                0 <= i < entries.len() && listed_as(root, depth, #[trigger] entries[i]) == Some(p);
            assert(entries_again.to_set().contains(entries[i]));
        }
        if listing_again.contains(p) {
            let i = choose|i: int|
                0 <= i < entries_again.len() && listed_as(root, depth, #[trigger] entries_again[i])
                    == Some(p);
            assert(entries.to_set().contains(entries_again[i]));
        }
    }
    lemma_sorted_listing_unique(listing, listing_again);
}

/// Two runs on trees in the same state give the same diff: where the walks of
/// the source tree have enumerated the same entries both times, and so have
/// the walks of the target tree, in whatever order, and the probes are the
/// same, the listings are the same and so is the diff.
pub proof fn lemma_same_entries_same_diff(
    source_root: Seq<char>,
    target_root: Seq<char>,
    depth: Option<u8>,
    source_entries: Seq<Seq<char>>,
    source_entries_again: Seq<Seq<char>>,
    target_entries: Seq<Seq<char>>,
    target_entries_again: Seq<Seq<char>>,
    source: Seq<Seq<char>>,
    source_again: Seq<Seq<char>>,
    target: Seq<Seq<char>>,
    target_again: Seq<Seq<char>>,
    probes: Seq<PathProbe>,
    compare: bool,
)
    requires
        is_listing_of(source, source_root, depth, source_entries),
        is_listing_of(source_again, source_root, depth, source_entries_again),
        is_listing_of(target, target_root, depth, target_entries),
        is_listing_of(target_again, target_root, depth, target_entries_again),
        source_entries.to_set() == source_entries_again.to_set(),
        target_entries.to_set() == target_entries_again.to_set(),
    ensures
        source == source_again,
        target == target_again,
        dir_diff(source, target, probes, compare) == dir_diff(
            source_again,
            target_again,
            probes,
            compare,
        ),
{
    lemma_listing_fixed_by_entries(
        source_root,
        depth,
        source_entries,
        source_entries_again,
        source,
        source_again,
    );
    lemma_listing_fixed_by_entries(
        target_root,
        depth,
        target_entries,
        target_entries_again,
        target,
        target_again,
    );
}

/// Against an empty source listing every path of the target listing is
/// `Added`: nothing is removed, nothing is common.
pub proof fn lemma_diff_of_empty_source(b: Seq<Seq<char>>, probes: Seq<PathProbe>, compare: bool)
    ensures
        dir_diff(Seq::empty(), b, probes, compare) == b.map_values(
            |p: Seq<char>| DiffEntry::Added(p),
        ),
        removed_paths(dir_diff(Seq::empty(), b, probes, compare)).len() == 0,
        added_paths(dir_diff(Seq::empty(), b, probes, compare)) == b,
        common_paths(dir_diff(Seq::empty(), b, probes, compare)).len() == 0,
{
    lemma_all_added(b);
}

/// Against an empty target listing every path of the source listing is
/// `Removed`: nothing is added, nothing is common.
pub proof fn lemma_diff_of_empty_target(a: Seq<Seq<char>>, probes: Seq<PathProbe>, compare: bool)
    ensures
        dir_diff(a, Seq::empty(), probes, compare) == a.map_values(
            |p: Seq<char>| DiffEntry::Removed(p),
        ),
        removed_paths(dir_diff(a, Seq::empty(), probes, compare)) == a,
        added_paths(dir_diff(a, Seq::empty(), probes, compare)).len() == 0,
        common_paths(dir_diff(a, Seq::empty(), probes, compare)).len() == 0,
{
    lemma_all_removed(a);
}

/// Which paths of a diff are common rests on the two listings alone: neither
/// the probes nor the comparison of content bear on it.
pub proof fn lemma_common_paths_fixed(
    a: Seq<Seq<char>>,
    b: Seq<Seq<char>>,
    probes: Seq<PathProbe>,
    compare: bool,
    k: int,
    other_probes: Seq<PathProbe>,
    other_compare: bool,
    other_k: int,
)
    ensures
        common_paths(merge_diff(a, b, probes, compare, k)) == common_paths(
            merge_diff(a, b, other_probes, other_compare, other_k),
        ),
    decreases a.len() + b.len(),
{
    let d = merge_diff(a, b, probes, compare, k);
    let e = merge_diff(a, b, other_probes, other_compare, other_k);
    if a.len() == 0 || b.len() == 0 {
        // One listing is used up: the diff is the other one as it stands.
    } else if path_lt(a[0], b[0]) {
        lemma_common_paths_fixed(
            a.drop_first(),
            b,
            probes,
            compare,
            k,
            other_probes,
            other_compare,
            other_k,
        );
        assert(d.drop_first() =~= merge_diff(a.drop_first(), b, probes, compare, k));
        assert(e.drop_first() =~= merge_diff(
            a.drop_first(),
            b,
            other_probes,
            other_compare,
            other_k,
        ));
    } else if path_lt(b[0], a[0]) {
        lemma_common_paths_fixed(
            a,
            b.drop_first(),
            probes,
            compare,
            k,
            other_probes,
            other_compare,
            other_k,
        );
        assert(d.drop_first() =~= merge_diff(a, b.drop_first(), probes, compare, k));
        assert(e.drop_first() =~= merge_diff(
            a,
            b.drop_first(),
            other_probes,
            other_compare,
            other_k,
        ));
    } else {
        lemma_common_paths_fixed(
            a.drop_first(),
            b.drop_first(),
            probes,
            compare,
            k + 1,
            other_probes,
            other_compare,
            other_k + 1,
        );
        assert(d.drop_first() =~= merge_diff(
            a.drop_first(),
            b.drop_first(),
            probes,
            compare,
            k + 1,
        ));
        assert(e.drop_first() =~= merge_diff(
            a.drop_first(),
            b.drop_first(),
            other_probes,
            other_compare,
            other_k + 1,
        ));
    }
}

/// Where the paths of a diff stand in ascending order, so do its common paths,
/// and each of them is a path of the diff.
pub proof fn lemma_common_paths_ascending(d: Seq<DiffEntry>)
    requires
        strictly_sorted(diff_paths(d)),
    ensures
        strictly_sorted(common_paths(d)),
        forall|p: Seq<char>| common_paths(d).contains(p) ==> diff_paths(d).contains(p),
    decreases d.len(),
{
    if d.len() > 0 {
        let rest = d.drop_first();
        let paths = diff_paths(d);
        assert(diff_paths(rest) =~= paths.drop_first());
        lemma_common_paths_ascending(rest);
        let c = common_paths(d);
        let cr = common_paths(rest);
        assert forall|p: Seq<char>| c.contains(p) implies paths.contains(p) by {
            let i = choose|i: int| 0 <= i < c.len() && c[i] == p;
            if c.len() > cr.len() && i == 0 {
                assert(paths[0] == p);
            } else {
                let n = choose|n: int| 0 <= n < diff_paths(rest).len() && diff_paths(rest)[n] == p;
            }
        }
        if c.len() > cr.len() {
            assert forall|i: int, j: int| 0 <= i < j < c.len() implies path_lt(
                #[trigger] c[i],
                #[trigger] c[j],
            ) by {
                if i == 0 {
                    assert(cr.contains(c[j]));
                    let n = choose|n: int|
                        0 <= n < diff_paths(rest).len() && diff_paths(rest)[n] == c[j];
                    assert(path_lt(paths[0], paths[n + 1]));
                }
            }
        }
    }
}

} // verus!
