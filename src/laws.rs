//! Properties of the array that span several operations, stated over the
//! same models that the operations' contracts use.
use vstd::prelude::*;

use crate::capacity::{is_pow2, lemma_pow2_above_16, lemma_pow2_half, popped_capacity, sparse};
use crate::vector::{occurrences, without};

verus! {

/// The elements after pushing `xs` one by one, first to last, onto `s`.
pub open spec fn after_pushes(s: Seq<i32>, xs: Seq<i32>) -> Seq<i32>
    decreases xs.len(),
{
    if xs.len() == 0 {
        s
    } else {
        after_pushes(s.push(xs[0]), xs.skip(1))
    }
}

/// Pushing `xs` one by one appends them in order: from an empty array the
/// size is the number of pushes and position `i` holds the `i`-th value pushed.
pub proof fn lemma_pushes_append(s: Seq<i32>, xs: Seq<i32>)
    ensures
        after_pushes(s, xs) == s + xs,
        after_pushes(Seq::<i32>::empty(), xs) == xs,
        after_pushes(Seq::<i32>::empty(), xs).len() == xs.len(),
        forall|i: int| 0 <= i < xs.len() ==> after_pushes(Seq::<i32>::empty(), xs)[i] == xs[i],
    decreases xs.len(),
{
    if xs.len() > 0 {
        lemma_pushes_append(s.push(xs[0]), xs.skip(1));
        assert(s.push(xs[0]) + xs.skip(1) =~= s + xs);
        lemma_pushes_append(Seq::<i32>::empty().push(xs[0]), xs.skip(1));
        assert(Seq::<i32>::empty().push(xs[0]) + xs.skip(1) =~= xs);
    } else {
        assert(s + xs =~= s);
    }
    assert(Seq::<i32>::empty() + xs =~= xs);
}

/// The capacity that `pop` leaves is a power of two, never below 16 unless
/// it already was, and half the old one exactly when the shrink check fires.
pub proof fn lemma_pop_capacity_floor(size: nat, cap: nat)
    requires
        is_pow2(cap),
    ensures
        is_pow2(popped_capacity(size, cap)),
        cap >= 16 ==> popped_capacity(size, cap) >= 16,
        cap < 16 ==> popped_capacity(size, cap) == cap,
        sparse(size, cap) ==> 2 * popped_capacity(size, cap) == cap,
        !sparse(size, cap) ==> popped_capacity(size, cap) == cap,
{
    if sparse(size, cap) {
        lemma_pow2_above_16(cap);
        lemma_pow2_half(cap);
    }
}

/// After `remove(x)` no element equals `x`.
pub proof fn lemma_without_excludes(s: Seq<i32>, x: i32)
    ensures
        forall|i: int| 0 <= i < without(s, x).len() ==> without(s, x)[i] != x,
    decreases s.len(),
{
    if s.len() > 0 {
        lemma_without_excludes(s.skip(1), x);
        let rest = without(s.skip(1), x);
        if s[0] != x {
            assert forall|i: int| 0 <= i < without(s, x).len() implies without(s, x)[i] != x by {
                if i > 0 {
                    assert(without(s, x)[i] == rest[i - 1]);
                }
            }
        }
    }
}

/// `remove(x)` keeps exactly the elements other than `x`, in their order:
/// the result is the standard filter of the sequence.
pub proof fn lemma_without_is_filter(s: Seq<i32>, x: i32)
    ensures
        without(s, x) == s.filter(|v: i32| v != x),
    decreases s.len(),
{
    let pred = |v: i32| v != x;
    if s.len() == 0 {
        assert(s.filter(pred) =~= s);
    } else {
        lemma_without_is_filter(s.skip(1), x);
        let head = seq![s[0]];
        assert(head + s.skip(1) =~= s);
        Seq::filter_distributes_over_add(head, s.skip(1), pred);
        assert(head.drop_last() =~= Seq::<i32>::empty());
        reveal_with_fuel(Seq::filter, 2);
        if s[0] == x {
            assert(head.filter(pred) =~= Seq::<i32>::empty());
            assert(without(s, x) =~= Seq::<i32>::empty() + s.skip(1).filter(pred));
        } else {
            assert(head.filter(pred) =~= head);
        }
    }
}

/// `remove(x)` shortens the array by exactly the number of elements equal
/// to `x`.
pub proof fn lemma_occurrences_count(s: Seq<i32>, x: i32)
    ensures
        occurrences(s, x) == s.filter(|v: i32| v == x).len(),
        without(s, x).len() + s.filter(|v: i32| v == x).len() == s.len(),
    decreases s.len(),
{
    let pred = |v: i32| v == x;
    if s.len() == 0 {
        assert(s.filter(pred) =~= s);
    } else {
        lemma_occurrences_count(s.skip(1), x);
        crate::vector::lemma_without_len(s, x);
        let head = seq![s[0]];
        assert(head + s.skip(1) =~= s);
        Seq::filter_distributes_over_add(head, s.skip(1), pred);
        assert(head.drop_last() =~= Seq::<i32>::empty());
        reveal_with_fuel(Seq::filter, 2);
        if s[0] == x {
            assert(head.filter(pred) =~= head);
        } else {
            assert(head.filter(pred) =~= Seq::<i32>::empty());
        }
    }
}

/// A push followed at once by a pop returns the pushed value and leaves the
/// elements, and so the size, as they were.
pub proof fn lemma_push_then_pop(s: Seq<i32>, v: i32)
    ensures
        s.push(v).len() > 0,
        s.push(v).last() == v,
        s.push(v).drop_last() == s,
        s.push(v).drop_last().len() == s.len(),
{
    assert(s.push(v).drop_last() =~= s);
}

} // verus!
