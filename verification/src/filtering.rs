//! General lemmas about `Seq::filter`, the mathematical core of every
//! retain-style operation in this crate.

use vstd::prelude::*;

verus! {

/// One step of a left-to-right retain pass: filtering one more element either
/// appends that element (when the predicate holds) or changes nothing.
pub proof fn lemma_filter_take_step<A>(s: Seq<A>, pred: spec_fn(A) -> bool, i: int)
    requires
        0 <= i < s.len(),
    ensures
        s.take(i + 1).filter(pred) == if pred(s[i]) {
            s.take(i).filter(pred).push(s[i])
        } else {
            s.take(i).filter(pred)
        },
{
    reveal(Seq::filter);
    assert(s.take(i + 1).drop_last() =~= s.take(i));
    assert(s.take(i + 1).last() == s[i]);
}

/// Filtering by `pred1` and then by `pred2` filters by their conjunction.
pub proof fn lemma_filter_compose<A>(
    s: Seq<A>,
    pred1: spec_fn(A) -> bool,
    pred2: spec_fn(A) -> bool,
    both: spec_fn(A) -> bool,
)
    requires
        forall|x: A| #[trigger] both(x) == (pred1(x) && pred2(x)),
    ensures
        s.filter(pred1).filter(pred2) == s.filter(both),
    decreases s.len(),
{
    reveal(Seq::filter);
    if s.len() == 0 {
        assert(s.filter(pred1).filter(pred2) =~= s.filter(both));
    } else {
        let t = s.drop_last();
        let a = s.last();
        lemma_filter_compose(t, pred1, pred2, both);
        assert(both(a) == (pred1(a) && pred2(a)));
        if pred1(a) {
            assert(t.filter(pred1).push(a).drop_last() =~= t.filter(pred1));
            assert(t.filter(pred1).push(a).last() == a);
        }
    }
}

/// A predicate that holds of every element filters nothing out.
pub proof fn lemma_filter_everything<A>(s: Seq<A>, pred: spec_fn(A) -> bool)
    requires
        forall|i: int| 0 <= i < s.len() ==> pred(#[trigger] s[i]),
    ensures
        s.filter(pred) == s,
    decreases s.len(),
{
    reveal(Seq::filter);
    if s.len() == 0 {
        assert(s.filter(pred) =~= s);
    } else {
        let t = s.drop_last();
        assert(forall|i: int| 0 <= i < t.len() ==> pred(#[trigger] t[i]));
        lemma_filter_everything(t, pred);
        assert(pred(s.last()));
        assert(s.filter(pred) == t.push(s.last()));
        assert(t.push(s.last()) =~= s);
    }
}

/// Filtering an already filtered sequence by the same predicate changes
/// nothing: every survivor still satisfies the predicate.
pub proof fn lemma_filter_idempotent<A>(s: Seq<A>, pred: spec_fn(A) -> bool)
    ensures
        s.filter(pred).filter(pred) == s.filter(pred),
{
    broadcast use vstd::seq_lib::group_filter_ensures;

    lemma_filter_everything(s.filter(pred), pred);
}

/// Independent filters commute: the final set does not depend on the order in
/// which the two predicates are applied.
pub proof fn lemma_filter_commutes<A>(
    s: Seq<A>,
    pred1: spec_fn(A) -> bool,
    pred2: spec_fn(A) -> bool,
)
    ensures
        s.filter(pred1).filter(pred2) == s.filter(pred2).filter(pred1),
{
    let both = |x: A| pred1(x) && pred2(x);
    lemma_filter_compose(s, pred1, pred2, both);
    lemma_filter_compose(s, pred2, pred1, both);
}

/// Filtering shrinks: the result is no longer than the input and every element
/// of the result occurs in the input.
pub proof fn lemma_filter_monotonic<A>(s: Seq<A>, pred: spec_fn(A) -> bool)
    ensures
        s.filter(pred).len() <= s.len(),
        forall|i: int| 0 <= i < s.filter(pred).len() ==> s.contains(#[trigger] s.filter(pred)[i]),
    decreases s.len(),
{
    reveal(Seq::filter);
    if s.len() > 0 {
        let t = s.drop_last();
        lemma_filter_monotonic(t, pred);
        assert forall|i: int| 0 <= i < s.filter(pred).len() implies s.contains(
            #[trigger] s.filter(pred)[i],
        ) by {
            let x = s.filter(pred)[i];
            if pred(s.last()) && i == s.filter(pred).len() - 1 {
                assert(x == s.last());
                assert(s[s.len() - 1] == x);
            } else {
                assert(x == t.filter(pred)[i]);
                assert(t.contains(x));
                let j = choose|j: int| 0 <= j < t.len() && t[j] == x;
                assert(s[j] == x);
            }
        }
    }
}

} // verus!
