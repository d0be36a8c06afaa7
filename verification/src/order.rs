//! Stable insertion sorting, as a specification: each element goes in
//! before the first one it comes strictly before, so elements that the
//! order does not tell apart keep the order they came in.

use vstd::prelude::*;

verus! {

/// `t` with `x` inserted before the first element that `x` comes strictly
/// before, or at the end when there is none.
pub open spec fn insert_stable<A>(t: Seq<A>, x: A, before: spec_fn(A, A) -> bool) -> Seq<A>
    decreases t.len(),
{
    if t.len() == 0 {
        seq![x]
    } else if before(x, t[0]) {
        seq![x] + t
    } else {
        seq![t[0]] + insert_stable(t.drop_first(), x, before)
    }
}

/// The stable sort of `s`: its elements inserted one after another, in the
/// order they come, by `insert_stable`.
pub open spec fn stable_sorted<A>(s: Seq<A>, before: spec_fn(A, A) -> bool) -> Seq<A>
    decreases s.len(),
{
    if s.len() == 0 {
        Seq::empty()
    } else {
        insert_stable(stable_sorted(s.drop_last(), before), s.last(), before)
    }
}

/// No element of `s` comes before an earlier one.
pub open spec fn ordered_by<A>(s: Seq<A>, before: spec_fn(A, A) -> bool) -> bool {
    forall|i: int, j: int| 0 <= i < j < s.len() ==> !before(#[trigger] s[j], #[trigger] s[i])
}

/// Whether `before` is a strict order: irreflexive and transitive.
pub open spec fn strict_order<A>(before: spec_fn(A, A) -> bool) -> bool {
    &&& forall|a: A| !#[trigger] before(a, a)
    &&& forall|a: A, b: A, c: A| #[trigger] before(a, b) && #[trigger] before(b, c) ==> before(a, c)
}

/// Inserting at the first position whose element `x` comes strictly before
/// is `insert_stable`.
pub proof fn lemma_insert_stable_at<A>(t: Seq<A>, p: int, x: A, before: spec_fn(A, A) -> bool)
    requires
        0 <= p <= t.len(),
        forall|j: int| 0 <= j < p ==> !before(x, #[trigger] t[j]),
        p < t.len() ==> before(x, t[p]),
    ensures
        insert_stable(t, x, before) == t.insert(p, x),
    decreases t.len(),
{
    if t.len() == 0 {
        assert(t.insert(p, x) =~= seq![x]);
    } else if p == 0 {
        assert(t.insert(0, x) =~= seq![x] + t);
    } else {
        assert(!before(x, t[0]));
        let rest = t.drop_first();
        assert forall|j: int| 0 <= j < p - 1 implies !before(x, #[trigger] rest[j]) by {
            assert(rest[j] == t[j + 1]);
        }
        if p < t.len() {
            assert(rest[p - 1] == t[p]);
        }
        lemma_insert_stable_at(rest, p - 1, x, before);
        assert(seq![t[0]] + rest.insert(p - 1, x) =~= t.insert(p, x));
    }
}

/// Sorting what is already in order changes nothing; so sorting twice is
/// sorting once.
pub proof fn lemma_stable_sorted_ordered<A>(s: Seq<A>, before: spec_fn(A, A) -> bool)
    requires
        ordered_by(s, before),
    ensures
        stable_sorted(s, before) == s,
    decreases s.len(),
{
    if s.len() > 0 {
        let prefix = s.drop_last();
        assert forall|i: int, j: int| 0 <= i < j < prefix.len() implies !before(
            #[trigger] prefix[j],
            #[trigger] prefix[i],
        ) by {
            assert(prefix[i] == s[i] && prefix[j] == s[j]);
        }
        lemma_stable_sorted_ordered(prefix, before);
        assert forall|j: int| 0 <= j < prefix.len() implies !before(s.last(), #[trigger] prefix[j]) by {
            assert(prefix[j] == s[j]);
        }
        lemma_insert_stable_at(prefix, prefix.len() as int, s.last(), before);
        assert(prefix.insert(prefix.len() as int, s.last()) =~= s);
    }
}

} // verus!
