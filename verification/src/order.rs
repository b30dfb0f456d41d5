//! The order of paths: their text, compared code point by code point.
//!
//! A path is held as text, and its model is the sequence of its characters.
//! `path_lt` is the strict order in which listings are kept and merged; the
//! lemmas of this module show that it is a strict total order.

use vstd::prelude::*;
use vstd::std_specs::iter::IteratorSpec;

verus! {

/// How one path stands to another in the order of their text.
#[derive(Clone, Copy, Debug, PartialEq, Eq, Structural)]
pub enum PathOrder {
    /// The first path comes strictly before the second.
    Before,
    /// The two paths are the same text.
    Same,
    /// The first path comes strictly after the second.
    After,
}

/// `a` comes strictly before `b`: the two agree on their first `k` characters,
/// and there either `a` has ended while `b` goes on, or `a` holds the smaller
/// code point.
pub open spec fn path_lt(a: Seq<char>, b: Seq<char>) -> bool {
    exists|k: int|
        0 <= k <= a.len() && k < b.len() && #[trigger] a.take(k) == b.take(k) && (k == a.len() || a[k]
            < b[k])
}

/// The place of `a` relative to `b`.
pub open spec fn path_order(a: Seq<char>, b: Seq<char>) -> PathOrder {
    if a == b {
        PathOrder::Same
    } else if path_lt(a, b) {
        PathOrder::Before
    } else {
        PathOrder::After
    }
}

/// The first position from `i` on at which `a` and `b` differ, or at which
/// one of them has ended.
spec fn mismatch_from(a: Seq<char>, b: Seq<char>, i: int) -> int
    decreases a.len() - i,
{
    if 0 <= i < a.len() && i < b.len() && a[i] == b[i] {
        mismatch_from(a, b, i + 1)
    } else {
        i
    }
}

proof fn lemma_mismatch_from(a: Seq<char>, b: Seq<char>, i: int)
    requires
        0 <= i <= a.len(),
        i <= b.len(),
    ensures
        i <= mismatch_from(a, b, i) <= a.len(),
        mismatch_from(a, b, i) <= b.len(),
        forall|j: int| i <= j < mismatch_from(a, b, i) ==> a[j] == b[j],
        mismatch_from(a, b, i) < a.len() && mismatch_from(a, b, i) < b.len() ==> a[mismatch_from(
            a,
            b,
            i,
        )] != b[mismatch_from(a, b, i)],
    decreases a.len() - i,
{
    if i < a.len() && i < b.len() && a[i] == b[i] {
        lemma_mismatch_from(a, b, i + 1);
    }
}

/// No path comes before itself.
pub proof fn lemma_path_lt_irreflexive(a: Seq<char>)
    ensures
        !path_lt(a, a),
{
}

/// Of two different paths, one comes before the other.
pub proof fn lemma_path_lt_total(a: Seq<char>, b: Seq<char>)
    ensures
        a == b || path_lt(a, b) || path_lt(b, a),
{
    lemma_mismatch_from(a, b, 0);
    let k = mismatch_from(a, b, 0);
    assert(a.take(k) =~= b.take(k));
}

/// Two paths are never each before the other.
pub proof fn lemma_path_lt_asymmetric(a: Seq<char>, b: Seq<char>)
    ensures
        !(path_lt(a, b) && path_lt(b, a)),
{
    if path_lt(a, b) && path_lt(b, a) {
        let k = choose|k: int|
            0 <= k <= a.len() && k < b.len() && #[trigger] a.take(k) == b.take(k) && (k == a.len()
                || a[k] < b[k]);
        let m = choose|m: int|
            0 <= m <= b.len() && m < a.len() && #[trigger] b.take(m) == a.take(m) && (m == b.len()
                || b[m] < a[m]);
        if k < m {
            assert(b.take(m)[k] == a.take(m)[k]);
        } else if m < k {
            assert(a.take(k)[m] == b.take(k)[m]);
        }
    }
}

/// What comes before a path comes before all that the path comes before.
pub proof fn lemma_path_lt_transitive(a: Seq<char>, b: Seq<char>, c: Seq<char>)
    requires
        path_lt(a, b),
        path_lt(b, c),
    ensures
        path_lt(a, c),
{
    let k = choose|k: int|
        0 <= k <= a.len() && k < b.len() && #[trigger] a.take(k) == b.take(k) && (k == a.len() || a[k]
            < b[k]);
    let m = choose|m: int|
        0 <= m <= b.len() && m < c.len() && #[trigger] b.take(m) == c.take(m) && (m == b.len() || b[m]
            < c[m]);
    let n = if k <= m {
        k
    } else {
        m
    };
    assert forall|j: int| 0 <= j < n implies a[j] == c[j] by {
        assert(b.take(m)[j] == c.take(m)[j]);
    }
    assert(a.take(n) =~= c.take(n));
    if k < m {
        assert(b.take(m)[k] == c.take(m)[k]);
    } else if m < k {
        assert(a.take(k)[m] == b.take(k)[m]);
    }
}

/// Compares two paths by their text.
pub fn compare_paths(a: &str, b: &str) -> (r: PathOrder)
    ensures
        r == path_order(a@, b@),
{
    broadcast use vstd::string::group_string_axioms;

    let mut rest_a = a.chars();
    let mut rest_b = b.chars();
    let ghost mut i: int = 0;
    loop
        invariant
            0 <= i <= a@.len(),
            i <= b@.len(),
            rest_a.obeys_prophetic_iter_laws(),
            rest_b.obeys_prophetic_iter_laws(),
            rest_a.remaining() == a@.skip(i),
            rest_b.remaining() == b@.skip(i),
            a@.take(i) == b@.take(i),
        decreases a@.len() - i,
    {
        let next_a = rest_a.next();
        let next_b = rest_b.next();
        match (next_a, next_b) {
            (None, None) => {
                proof {
                    assert(a@ =~= a@.take(i));
                    assert(b@ =~= b@.take(i));
                }
                return PathOrder::Same;
            },
            (None, Some(_)) => {
                return PathOrder::Before;
            },
            (Some(_), None) => {
                proof {
                    lemma_path_lt_asymmetric(a@, b@);
                }
                return PathOrder::After;
            },
            (Some(x), Some(y)) => {
                if x != y {
                    if x < y {
                        return PathOrder::Before;
                    } else {
                        proof {
                            lemma_path_lt_asymmetric(a@, b@);
                        }
                        return PathOrder::After;
                    }
                }
                proof {
                    i = i + 1;
                }
            },
        }
    }
}

} // verus!
