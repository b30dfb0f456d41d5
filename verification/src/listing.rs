//! Directory listings: the paths of one tree, each once, in ascending order.

use crate::order::{
    compare_paths, lemma_path_lt_asymmetric, lemma_path_lt_total, lemma_path_lt_transitive,
    path_lt, PathOrder,
};
use crate::relative::{is_within_depth, relative_path, relative_to, within_depth};
use crate::seq_facts::{lemma_concat_contains, lemma_push_contains};
use vstd::prelude::*;

verus! {

/// Every path of `s` comes strictly before all that follow it, so `s` is in
/// ascending order and holds no path twice.
pub open spec fn strictly_sorted(s: Seq<Seq<char>>) -> bool {
    forall|i: int, j: int| 0 <= i < j < s.len() ==> path_lt(#[trigger] s[i], #[trigger] s[j])
}

/// A listing is fixed by the paths it holds: two ascending sequences without
/// repetition that hold the same paths are the same sequence.
pub proof fn lemma_sorted_listing_unique(s: Seq<Seq<char>>, t: Seq<Seq<char>>)
    requires
        strictly_sorted(s),
        strictly_sorted(t),
        forall|p: Seq<char>| s.contains(p) <==> t.contains(p),
    ensures
        s == t,
    decreases s.len(),
{
    if s.len() == 0 {
        if t.len() > 0 {
            assert(s.contains(t[0]));
        }
    } else {
        assert(t.contains(s[0]));
        let m = choose|m: int| 0 <= m < t.len() && t[m] == s[0];
        assert(s.contains(t[0]));
        let n = choose|n: int| 0 <= n < s.len() && s[n] == t[0];
        if m > 0 && n > 0 {
            lemma_path_lt_asymmetric(s[0], t[0]);
        }
        let s1 = s.drop_first();
        let t1 = t.drop_first();
        assert forall|p: Seq<char>| s1.contains(p) <==> t1.contains(p) by {
            if s1.contains(p) {
                assert(t.contains(p));
                let j = choose|j: int| 0 <= j < t.len() && t[j] == p;
                assert(t1[j - 1] == p);
            }
            if t1.contains(p) {
                assert(s.contains(p));
                let j = choose|j: int| 0 <= j < s.len() && s[j] == p;
                assert(s1[j - 1] == p);
            }
        }
        lemma_sorted_listing_unique(s1, t1);
        assert(t =~= seq![t[0]] + t1);
    }
}

/// Merges two ascending sequences of paths into one, keeping a path that both
/// hold once.
fn merge_unique(left: &Vec<String>, right: &Vec<String>) -> (merged: Vec<String>)
    requires
        strictly_sorted(left.deep_view()),
        strictly_sorted(right.deep_view()),
    ensures
        strictly_sorted(merged.deep_view()),
        forall|p: Seq<char>|
            merged.deep_view().contains(p) <==> left.deep_view().contains(p)
                || right.deep_view().contains(p),
{
    let mut merged: Vec<String> = Vec::new();
    let mut i: usize = 0;
    let mut j: usize = 0;
    let ghost l = left.deep_view();
    let ghost r = right.deep_view();
    while i < left.len() || j < right.len()
        invariant
            l == left.deep_view(),
            r == right.deep_view(),
            strictly_sorted(l),
            strictly_sorted(r),
            0 <= i <= left.len(),
            0 <= j <= right.len(),
            strictly_sorted(merged.deep_view()),
            forall|k: int|
                0 <= k < merged.len() && i < left.len() ==> path_lt(
                    #[trigger] merged.deep_view()[k],
                    l[i as int],
                ),
            forall|k: int|
                0 <= k < merged.len() && j < right.len() ==> path_lt(
                    #[trigger] merged.deep_view()[k],
                    r[j as int],
                ),
            forall|p: Seq<char>|
                merged.deep_view().contains(p) <==> l.take(i as int).contains(p) || r.take(
                    j as int,
                ).contains(p),
        decreases left.len() - i + right.len() - j,
    {
        let ghost before = merged.deep_view();
        let mut take_left = false;
        let mut take_right = false;
        if j >= right.len() {
            take_left = true;
        } else if i >= left.len() {
            take_right = true;
        } else {
            match compare_paths(left[i].as_str(), right[j].as_str()) {
                PathOrder::Before => {
                    take_left = true;
                },
                PathOrder::After => {
                    take_right = true;
                    proof {
                        lemma_path_lt_total(l[i as int], r[j as int]);
                    }
                },
                PathOrder::Same => {
                    take_left = true;
                    take_right = true;
                },
            }
        }
        let next = if take_left {
            left[i].clone()
        } else {
            right[j].clone()
        };
        merged.push(next);
        proof {
            let x = next@;
            assert(merged.deep_view() =~= before.push(x));
            let ni: int = if take_left {
                i + 1
            } else {
                i as int
            };
            let nj: int = if take_right {
                j + 1
            } else {
                j as int
            };
            assert forall|k: int| 0 <= k < merged.len() && ni < left.len() implies path_lt(
                #[trigger] merged.deep_view()[k],
                l[ni],
            ) by {
                if take_left {
                    assert(path_lt(l[i as int], l[ni]));
                    if k < before.len() {
                        lemma_path_lt_transitive(before[k], l[i as int], l[ni]);
                    }
                }
            }
            assert forall|k: int| 0 <= k < merged.len() && nj < right.len() implies path_lt(
                #[trigger] merged.deep_view()[k],
                r[nj],
            ) by {
                if take_right {
                    assert(path_lt(r[j as int], r[nj]));
                    if k < before.len() {
                        lemma_path_lt_transitive(before[k], r[j as int], r[nj]);
                    }
                }
            }
            assert forall|p: Seq<char>|
                merged.deep_view().contains(p) <==> l.take(ni).contains(p) || r.take(nj).contains(
                    p,
                ) by {
                lemma_push_contains(before, x, p);
                if take_left {
                    assert(l.take(ni) =~= l.take(i as int).push(l[i as int]));
                    lemma_push_contains(l.take(i as int), l[i as int], p);
                }
                if take_right {
                    assert(r.take(nj) =~= r.take(j as int).push(r[j as int]));
                    lemma_push_contains(r.take(j as int), r[j as int], p);
                }
            }
        }
        if take_left {
            i += 1;
        }
        if take_right {
            j += 1;
        }
    }
    proof {
        assert(l.take(i as int) =~= l);
        assert(r.take(j as int) =~= r);
    }
    merged
}

/// Sorts the paths `paths[lo..hi]` into ascending order, each kept once.
fn sort_range(paths: &Vec<String>, lo: usize, hi: usize) -> (sorted: Vec<String>)
    requires
        lo <= hi <= paths.len(),
    ensures
        strictly_sorted(sorted.deep_view()),
        forall|p: Seq<char>|
            sorted.deep_view().contains(p) <==> paths.deep_view().subrange(
                lo as int,
                hi as int,
            ).contains(p),
    decreases hi - lo,
{
    let ghost all = paths.deep_view();
    if hi - lo == 0 {
        let sorted: Vec<String> = Vec::new();
        sorted
    } else if hi - lo == 1 {
        let mut sorted: Vec<String> = Vec::new();
        sorted.push(paths[lo].clone());
        proof {
            assert(sorted.deep_view() =~= seq![all[lo as int]]);
            assert(all.subrange(lo as int, hi as int) =~= seq![all[lo as int]]);
        }
        sorted
    } else {
        let mid = lo + (hi - lo) / 2;
        let left = sort_range(paths, lo, mid);
        let right = sort_range(paths, mid, hi);
        let sorted = merge_unique(&left, &right);
        proof {
            let whole = all.subrange(lo as int, hi as int);
            let first = all.subrange(lo as int, mid as int);
            let second = all.subrange(mid as int, hi as int);
            assert(whole =~= first + second);
            assert forall|p: Seq<char>| whole.contains(p) <==> first.contains(p) || second.contains(
                p,
            ) by {
                lemma_concat_contains(first, second, p);
            }
        }
        sorted
    }
}

/// The paths of one directory tree, relative to its root: in ascending order
/// of their text, each path once.
#[derive(Debug, PartialEq, Eq)]
pub struct DirListing {
    paths: Vec<String>,
}

impl View for DirListing {
    type V = Seq<Seq<char>>;

    closed spec fn view(&self) -> Seq<Seq<char>> {
        self.paths.deep_view()
    }
}

impl DirListing {
    #[verifier::type_invariant]
    spec fn ascending(self) -> bool {
        strictly_sorted(self.paths.deep_view())
    }

    /// The listing of a tree without entries.
    pub fn new() -> (listing: DirListing)
        ensures
            listing@ == Seq::<Seq<char>>::empty(),
    {
        let paths: Vec<String> = Vec::new();
        DirListing { paths }
    }

    /// The listing that holds the given paths: they are put in ascending
    /// order, and a path given more than once is kept once.
    pub fn from_paths(paths: Vec<String>) -> (listing: DirListing)
        ensures
            strictly_sorted(listing@),
            forall|p: Seq<char>| listing@.contains(p) <==> paths.deep_view().contains(p),
    {
        let sorted = sort_range(&paths, 0, paths.len());
        proof {
            assert(paths.deep_view().subrange(0, paths.len() as int) =~= paths.deep_view());
        }
        DirListing { paths: sorted }
    }

    /// The number of paths.
    pub fn len(&self) -> (n: usize)
        ensures
            n == self@.len(),
    {
        self.paths.len()
    }

    /// The paths, in ascending order.
    pub fn paths(&self) -> (paths: &Vec<String>)
        ensures
            paths.deep_view() == self@,
            strictly_sorted(self@),
    {
        proof {
            use_type_invariant(self);
        }
        &self.paths
    }
}

/// The relative path under which an enumerated entry is listed: its path
/// relative to the root, if it has one that lies within the depth limit.
pub open spec fn listed_as(root: Seq<char>, depth: Option<u8>, entry: Seq<char>) -> Option<
    Seq<char>,
> {
    match relative_to(root, entry) {
        Some(relative) => if within_depth(relative, depth) {
            Some(relative)
        } else {
            None
        },
        None => None,
    }
}

/// `listing` is the listing of the tree under `root` of which a walk has
/// enumerated `entries`: it is in ascending order without repetition, and it
/// holds exactly the relative paths under which the entries are listed.
pub open spec fn is_listing_of(
    listing: Seq<Seq<char>>,
    root: Seq<char>,
    depth: Option<u8>,
    entries: Seq<Seq<char>>,
) -> bool {
    &&& strictly_sorted(listing)
    &&& forall|p: Seq<char>|
        listing.contains(p) <==> exists|i: int|
            0 <= i < entries.len() && listed_as(root, depth, #[trigger] entries[i]) == Some(p)
}

/// The listing of the tree under `dir_path`, from the entries that a walk of
/// the tree has enumerated, in whatever order and however often.
///
/// Each entry is listed by its path relative to `dir_path`. With a depth limit
/// `d`, only entries at most `d` levels below the root are listed, the
/// immediate children being at level 1; a limit of 0 therefore lists nothing.
/// An entry that is not under `dir_path` is no entry of the tree and is left
/// out. A tree without entries has the empty listing.
pub fn get_dir_listing(dir_path: &str, depth: Option<u8>, entries: &Vec<String>) -> (listing:
    DirListing)
    ensures
        is_listing_of(listing@, dir_path@, depth, entries.deep_view()),
        entries.len() == 0 ==> listing@.len() == 0,
        depth == Some(0u8) ==> listing@.len() == 0,
{
    let mut kept: Vec<String> = Vec::new();
    let ghost all = entries.deep_view();
    let mut n: usize = 0;
    while n < entries.len()
        invariant
            0 <= n <= entries.len(),
            all == entries.deep_view(),
            forall|p: Seq<char>|
                kept.deep_view().contains(p) <==> exists|i: int|
                    0 <= i < n && listed_as(dir_path@, depth, #[trigger] all[i]) == Some(p),
        decreases entries.len() - n,
    {
        let ghost before = kept.deep_view();
        let ghost entry = all[n as int];
        let mut pushed = false;
        match relative_path(dir_path, entries[n].as_str()) {
            Some(relative) => {
                if is_within_depth(relative.as_str(), depth) {
                    kept.push(relative);
                    pushed = true;
                }
            },
            None => {},
        }
        proof {
            if pushed {
                let x = listed_as(dir_path@, depth, entry).unwrap();
                assert(kept.deep_view() =~= before.push(x));
                assert forall|p: Seq<char>|
                    kept.deep_view().contains(p) <==> exists|i: int|
                        0 <= i < n + 1 && listed_as(dir_path@, depth, #[trigger] all[i]) == Some(
                            p,
                        ) by {
                    lemma_push_contains(before, x, p);
                }
            }
        }
        n += 1;
    }
    let listing = DirListing::from_paths(kept);
    proof {
        if listing@.len() > 0 {
            assert(listing@.contains(listing@[0]));
        }
    }
    listing
}

} // verus!
