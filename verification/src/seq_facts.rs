//! Two facts about what a sequence holds.

use vstd::prelude::*;

verus! {

/// What a sequence holds once `x` is put at its end.
pub proof fn lemma_push_contains<A>(s: Seq<A>, x: A, p: A)
    ensures
        s.push(x).contains(p) <==> s.contains(p) || p == x,
{
    if s.contains(p) {
        let i = choose|i: int| 0 <= i < s.len() && s[i] == p;
        assert(s.push(x)[i] == p);
    }
    if p == x {
        assert(s.push(x)[s.len() as int] == p);
    }
}

/// What the concatenation of two sequences holds.
pub proof fn lemma_concat_contains<A>(s: Seq<A>, t: Seq<A>, p: A)
    ensures
        (s + t).contains(p) <==> s.contains(p) || t.contains(p),
{
    if s.contains(p) {
        let i = choose|i: int| 0 <= i < s.len() && s[i] == p;
        assert((s + t)[i] == p);
    }
    if t.contains(p) {
        let i = choose|i: int| 0 <= i < t.len() && t[i] == p;
        assert((s + t)[s.len() + i] == p);
    }
}

} // verus!
