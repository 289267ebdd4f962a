use vstd::prelude::*;

verus! {

/// Filtering the empty sequence yields the empty sequence.
pub proof fn lemma_filter_empty<A>(pred: spec_fn(A) -> bool)
    ensures
        Seq::<A>::empty().filter(pred) == Seq::<A>::empty(),
{
    reveal(Seq::filter);
}

/// Filtering a one-element sequence keeps or drops that element.
pub proof fn lemma_filter_singleton<A>(x: A, pred: spec_fn(A) -> bool)
    ensures
        pred(x) ==> seq![x].filter(pred) == seq![x],
        !pred(x) ==> seq![x].filter(pred) == Seq::<A>::empty(),
{
    reveal_with_fuel(Seq::filter, 2);
    assert(seq![x].drop_last() =~= Seq::<A>::empty());
    assert(seq![x].last() == x);
    if pred(x) {
        assert(seq![x].filter(pred) =~= seq![x]);
    } else {
        assert(seq![x].filter(pred) =~= Seq::<A>::empty());
    }
}

/// Filtering commutes with appending one element.
pub proof fn lemma_filter_push<A>(s: Seq<A>, x: A, pred: spec_fn(A) -> bool)
    ensures
        pred(x) ==> s.push(x).filter(pred) == s.filter(pred).push(x),
        !pred(x) ==> s.push(x).filter(pred) == s.filter(pred),
{
    assert(s.push(x) =~= s + seq![x]);
    Seq::<A>::filter_distributes_over_add(s, seq![x], pred);
    lemma_filter_singleton(x, pred);
    if pred(x) {
        assert(s.filter(pred) + seq![x] =~= s.filter(pred).push(x));
    } else {
        assert(s.filter(pred) + Seq::<A>::empty() =~= s.filter(pred));
    }
}

/// Replacing an element that the predicate rejects by another rejected
/// element does not change the filtered sequence.
pub proof fn lemma_filter_update_unmatched<A>(s: Seq<A>, i: int, x: A, pred: spec_fn(A) -> bool)
    requires
        0 <= i < s.len(),
        !pred(s[i]),
        !pred(x),
    ensures
        s.update(i, x).filter(pred) == s.filter(pred),
{
    let front = s.take(i);
    let back = s.skip(i + 1);
    assert(s =~= front + seq![s[i]] + back);
    assert(s.update(i, x) =~= front + seq![x] + back);
    Seq::<A>::filter_distributes_over_add(front + seq![s[i]], back, pred);
    Seq::<A>::filter_distributes_over_add(front, seq![s[i]], pred);
    Seq::<A>::filter_distributes_over_add(front + seq![x], back, pred);
    Seq::<A>::filter_distributes_over_add(front, seq![x], pred);
    lemma_filter_singleton(s[i], pred);
    lemma_filter_singleton(x, pred);
    assert(s.update(i, x).filter(pred) =~= s.filter(pred));
}

/// Removing an element that the predicate rejects does not change the
/// filtered sequence.
pub proof fn lemma_filter_remove_unmatched<A>(s: Seq<A>, i: int, pred: spec_fn(A) -> bool)
    requires
        0 <= i < s.len(),
        !pred(s[i]),
    ensures
        s.remove(i).filter(pred) == s.filter(pred),
{
    let front = s.take(i);
    let back = s.skip(i + 1);
    assert(s =~= front + seq![s[i]] + back);
    assert(s.remove(i) =~= front + back);
    Seq::<A>::filter_distributes_over_add(front + seq![s[i]], back, pred);
    Seq::<A>::filter_distributes_over_add(front, seq![s[i]], pred);
    Seq::<A>::filter_distributes_over_add(front, back, pred);
    lemma_filter_singleton(s[i], pred);
    assert(s.remove(i).filter(pred) =~= s.filter(pred));
}

} // verus!
