//! Facts about what a filter keeps of a sequence.

use vstd::prelude::*;

verus! {

/// A filter that every element passes keeps the sequence.
pub proof fn lemma_filter_keeps_all<A>(s: Seq<A>, pred: spec_fn(A) -> bool)
    requires
        forall|i: int| 0 <= i < s.len() ==> pred(#[trigger] s[i]),
    ensures
        s.filter(pred) == s,
    decreases s.len(),
{
    reveal(Seq::filter);
    if s.len() > 0 {
        lemma_filter_keeps_all(s.drop_last(), pred);
        assert(s.drop_last().push(s.last()) =~= s);
    }
}

/// What a filter keeps is in the sequence and passes the filter.
pub proof fn lemma_filtered_is_member<A>(s: Seq<A>, pred: spec_fn(A) -> bool, i: int)
    requires
        0 <= i < s.filter(pred).len(),
    ensures
        pred(s.filter(pred)[i]),
        s.contains(s.filter(pred)[i]),
    decreases s.len(),
{
    reveal(Seq::filter);
    if s.len() > 0 {
        let rest = s.drop_last();
        if pred(s.last()) && i == rest.filter(pred).len() {
            assert(s[s.len() - 1] == s.last());
        } else {
            lemma_filtered_is_member(rest, pred, i);
            let j = choose|j: int| 0 <= j < rest.len() && rest[j] == rest.filter(pred)[i];
            assert(s[j] == rest[j]);
        }
    }
}

/// A filter that no element passes keeps nothing.
pub proof fn lemma_filter_keeps_none<A>(s: Seq<A>, pred: spec_fn(A) -> bool)
    requires
        forall|i: int| 0 <= i < s.len() ==> !pred(#[trigger] s[i]),
    ensures
        s.filter(pred) == Seq::<A>::empty(),
    decreases s.len(),
{
    reveal(Seq::filter);
    if s.len() > 0 {
        lemma_filter_keeps_none(s.drop_last(), pred);
    }
}

/// Removing an element that does not pass a filter leaves what the filter
/// keeps.
pub proof fn lemma_remove_unfiltered<A>(s: Seq<A>, position: int, pred: spec_fn(A) -> bool)
    requires
        0 <= position < s.len(),
        !pred(s[position]),
    ensures
        s.remove(position).filter(pred) == s.filter(pred),
{
    let before = s.take(position);
    let one = seq![s[position]];
    let after = s.skip(position + 1);
    assert(s =~= before + (one + after));
    assert(s.remove(position) =~= before + after);
    Seq::filter_distributes_over_add(before, one + after, pred);
    Seq::filter_distributes_over_add(one, after, pred);
    Seq::filter_distributes_over_add(before, after, pred);
    lemma_filter_keeps_none(one, pred);
    assert(Seq::<A>::empty() + after.filter(pred) =~= after.filter(pred));
}

/// Replacing an element that does not pass a filter by another that does not
/// leaves what the filter keeps.
pub proof fn lemma_update_unfiltered<A>(s: Seq<A>, position: int, value: A, pred: spec_fn(A) -> bool)
    requires
        0 <= position < s.len(),
        !pred(s[position]),
        !pred(value),
    ensures
        s.update(position, value).filter(pred) == s.filter(pred),
{
    let before = s.take(position);
    let after = s.skip(position + 1);
    assert(s =~= before + (seq![s[position]] + after));
    assert(s.update(position, value) =~= before + (seq![value] + after));
    Seq::filter_distributes_over_add(before, seq![s[position]] + after, pred);
    Seq::filter_distributes_over_add(seq![s[position]], after, pred);
    Seq::filter_distributes_over_add(before, seq![value] + after, pred);
    Seq::filter_distributes_over_add(seq![value], after, pred);
    lemma_filter_keeps_none(seq![s[position]], pred);
    lemma_filter_keeps_none(seq![value], pred);
}

/// Removing the first element that passes a filter removes the first of
/// what the filter keeps.
pub proof fn lemma_remove_first_filtered<A>(s: Seq<A>, position: int, pred: spec_fn(A) -> bool)
    requires
        0 <= position < s.len(),
        pred(s[position]),
        forall|j: int| 0 <= j < position ==> !pred(#[trigger] s[j]),
    ensures
        s.filter(pred).len() > 0,
        s.filter(pred)[0] == s[position],
        s.remove(position).filter(pred) == s.filter(pred).skip(1),
{
    let before = s.take(position);
    let one = seq![s[position]];
    let after = s.skip(position + 1);
    assert(s =~= before + (one + after));
    assert(s.remove(position) =~= before + after);
    Seq::filter_distributes_over_add(before, one + after, pred);
    Seq::filter_distributes_over_add(one, after, pred);
    Seq::filter_distributes_over_add(before, after, pred);
    lemma_filter_keeps_none(before, pred);
    lemma_filter_keeps_all(one, pred);
    assert(Seq::<A>::empty() + (one + after.filter(pred)) =~= one + after.filter(pred));
    assert(Seq::<A>::empty() + after.filter(pred) =~= after.filter(pred));
    assert((one + after.filter(pred)).skip(1) =~= after.filter(pred));
}

} // verus!
