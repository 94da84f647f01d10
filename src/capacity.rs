//! The growth and shrink policy of the buffer, stated over plain numbers.
use vstd::prelude::*;

verus! {

/// `c` is a power of two (1, 2, 4, ...).
pub open spec fn is_pow2(c: nat) -> bool
    decreases c,
{
    if c <= 1 {
        c == 1
    } else {
        c % 2 == 0 && is_pow2((c / 2) as nat)
    }
}

/// `c` is the smallest power of two that is at least `h`.
pub open spec fn smallest_pow2_at_least(h: nat, c: nat) -> bool {
    &&& is_pow2(c)
    &&& h <= c
    &&& forall|p: nat| is_pow2(p) && h <= p ==> c <= p
}

/// The capacity chosen for an initial capacity hint `h`.
pub open spec fn initial_capacity(h: nat, c: nat) -> bool {
    if h == 0 {
        c == 16
    } else {
        smallest_pow2_at_least(h, c)
    }
}

/// Capacity after an append to an array of `size` elements: doubled when full.
pub open spec fn grown_capacity(size: nat, cap: nat) -> nat {
    if size == cap {
        2 * cap
    } else {
        cap
    }
}

/// The array is sparse enough to trigger the shrink check: `size` elements
/// (counted after the removal) in a buffer above 16 slots holding at least
/// four times as many.
pub open spec fn sparse(size: nat, cap: nat) -> bool {
    size <= cap / 4 && cap > 16
}

/// Capacity after `pop` leaves `size` elements: halved when sparse.
pub open spec fn popped_capacity(size: nat, cap: nat) -> nat {
    if sparse(size, cap) {
        cap / 2
    } else {
        cap
    }
}

/// Capacity after `delete` leaves `size` elements: doubled when sparse.
pub open spec fn deleted_capacity(size: nat, cap: nat) -> nat {
    if sparse(size, cap) {
        2 * cap
    } else {
        cap
    }
}

/// Capacity after `m` successive deletions from an array of `size` elements.
pub open spec fn removed_capacity(size: nat, cap: nat, m: nat) -> nat
    decreases m,
{
    if m == 0 || size == 0 {
        cap
    } else {
        removed_capacity((size - 1) as nat, deleted_capacity((size - 1) as nat, cap), (m - 1) as nat)
    }
}

/// Doubling a power of two gives a power of two.
pub proof fn lemma_pow2_double(c: nat)
    requires
        is_pow2(c),
    ensures
        is_pow2(2 * c),
{
    assert((2 * c) / 2 == c);
}

/// Halving a power of two above 1 gives a power of two.
pub proof fn lemma_pow2_half(c: nat)
    requires
        is_pow2(c),
        c > 1,
    ensures
        is_pow2(c / 2),
        c == 2 * (c / 2),
{
}

/// Of two powers of two, the smaller is at most half the larger.
pub proof fn lemma_pow2_gap(a: nat, b: nat)
    requires
        is_pow2(a),
        is_pow2(b),
        a < b,
    ensures
        2 * a <= b,
    decreases b,
{
    if a > 1 {
        lemma_pow2_gap((a / 2) as nat, (b / 2) as nat);
    }
}

/// A power of two `c` with `h <= c < 2 * h` is the smallest one at least `h`.
pub proof fn lemma_smallest_pow2(h: nat, c: nat)
    requires
        is_pow2(c),
        h <= c,
        c < 2 * h,
    ensures
        smallest_pow2_at_least(h, c),
{
    assert forall|p: nat| is_pow2(p) && h <= p implies c <= p by {
        if p < c {
            lemma_pow2_gap(p, c);
        }
    }
}

/// 16 is a power of two.
pub proof fn lemma_pow2_16()
    ensures
        is_pow2(16),
{
    reveal_with_fuel(is_pow2, 5);
}

/// Every power of two above 16 is at least 32.
pub proof fn lemma_pow2_above_16(c: nat)
    requires
        is_pow2(c),
        c > 16,
    ensures
        c >= 32,
{
    lemma_pow2_16();
    lemma_pow2_gap(16, c);
}

/// Deletions never lower the capacity.
pub proof fn lemma_removed_capacity_grows(size: nat, cap: nat, m: nat)
    ensures
        cap <= removed_capacity(size, cap, m),
    decreases m,
{
    if m > 0 && size > 0 {
        lemma_removed_capacity_grows((size - 1) as nat, deleted_capacity((size - 1) as nat, cap), (m - 1) as nat);
    }
}

} // verus!
