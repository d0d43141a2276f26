//! Order-keeping selection from sequences.

use vstd::prelude::*;

verus! {

/// The members of `s` that satisfy `p`, in order.
pub open spec fn keep<A>(s: Seq<A>, p: spec_fn(A) -> bool) -> Seq<A>
    decreases s.len(),
{
    if s.len() == 0 {
        seq![]
    } else if p(s.last()) {
        keep(s.drop_last(), p).push(s.last())
    } else {
        keep(s.drop_last(), p)
    }
}

/// Whether `keep(s.take(j), p)` is the start of `keep(s, p)`.
pub proof fn lemma_keep_prefix<A>(s: Seq<A>, p: spec_fn(A) -> bool, j: int)
    requires
        0 <= j <= s.len(),
    ensures
        keep(s.take(j), p).len() <= keep(s, p).len(),
        forall|t: int|
            0 <= t < keep(s.take(j), p).len() ==> #[trigger] keep(s, p)[t] == keep(s.take(j), p)[t],
    decreases s.len(),
{
    if j == s.len() {
        assert(s.take(j) =~= s);
    } else {
        let d = s.drop_last();
        assert(s.take(j) =~= d.take(j));
        lemma_keep_prefix(d, p, j);
    }
}

/// One more member: `keep` of a prefix grows by it exactly when it satisfies `p`.
pub proof fn lemma_keep_step<A>(s: Seq<A>, p: spec_fn(A) -> bool, i: int)
    requires
        0 <= i < s.len(),
    ensures
        keep(s.take(i + 1), p) == if p(s[i]) {
            keep(s.take(i), p).push(s[i])
        } else {
            keep(s.take(i), p)
        },
{
    assert(s.take(i + 1).drop_last() =~= s.take(i));
    assert(s.take(i + 1).last() == s[i]);
}

/// Selecting from a concatenation selects from each part.
pub proof fn lemma_keep_append<A>(a: Seq<A>, b: Seq<A>, p: spec_fn(A) -> bool)
    ensures
        keep(a + b, p) == keep(a, p) + keep(b, p),
    decreases b.len(),
{
    if b.len() == 0 {
        assert(a + b =~= a);
        assert(keep(a, p) + keep(b, p) =~= keep(a, p));
    } else {
        let b0 = b.drop_last();
        lemma_keep_append(a, b0, p);
        assert((a + b).drop_last() =~= a + b0);
        assert((a + b).last() == b.last());
        if p(b.last()) {
            assert(keep(a, p) + keep(b, p) =~= (keep(a, p) + keep(b0, p)).push(b.last()));
        }
    }
}

/// Selecting from a single member.
pub proof fn lemma_keep_single<A>(x: A, p: spec_fn(A) -> bool)
    ensures
        keep(seq![x], p) == if p(x) {
            seq![x]
        } else {
            Seq::<A>::empty()
        },
{
    assert(seq![x].drop_last() =~= Seq::<A>::empty());
    assert(seq![x].last() == x);
    assert(keep(Seq::<A>::empty(), p) =~= Seq::<A>::empty());
    if p(x) {
        assert(keep(seq![x], p) =~= Seq::<A>::empty().push(x));
        assert(Seq::<A>::empty().push(x) =~= seq![x]);
    }
}

/// Nothing is selected from members that all fail `p`.
pub proof fn lemma_keep_none<A>(s: Seq<A>, p: spec_fn(A) -> bool)
    requires
        forall|i: int| 0 <= i < s.len() ==> !p(#[trigger] s[i]),
    ensures
        keep(s, p) == Seq::<A>::empty(),
    decreases s.len(),
{
    if s.len() > 0 {
        lemma_keep_none(s.drop_last(), p);
    }
}

} // verus!
