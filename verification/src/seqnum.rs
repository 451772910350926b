//! Arithmetic on 32-bit TCP sequence numbers.
//!
//! Sequence numbers live on a circle of size 2^32. All window containment
//! tests go through `is_between_wrapped`, the sole comparison primitive; its
//! meaning is given by `spec_between`, stated over the forward distance
//! `seq_dist` along the circle.

use vstd::prelude::*;

verus! {

/// The number of 32-bit sequence numbers: 2^32.
pub const SEQ_MOD: u64 = 0x1_0000_0000;

/// Forward distance from `a` to `b` on the circle of 32-bit sequence
/// numbers: the unique `d` in `[0, 2^32)` with `a + d == b (mod 2^32)`.
pub open spec fn seq_dist(a: u32, b: u32) -> int {
    if b >= a {
        b - a
    } else {
        b - a + SEQ_MOD
    }
}

/// Wrapped ordering `a <= b`: `b` is at most half the circle ahead of `a`.
pub open spec fn wrapped_le(a: u32, b: u32) -> bool {
    seq_dist(a, b) < 0x8000_0000
}

/// `x` lies strictly between `start` and `end` on the circle: walking
/// forward from `start`, `x` is reached after at least one step and before
/// `end` is reached. Both endpoints are exclusive; when `start == end` the
/// interval is empty.
pub open spec fn spec_between(start: u32, x: u32, end: u32) -> bool {
    0 < seq_dist(start, x) && seq_dist(start, x) < seq_dist(start, end)
}

/// Strict containment of `x` in the wrapped-open interval `(start, end)`.
pub fn is_between_wrapped(start: u32, x: u32, end: u32) -> (r: bool)
    ensures
        r == spec_between(start, x, end),
        start == x ==> !r,
{
    if start == x {
        false
    } else if start < x {
        // false iff start <= end <= x
        !(end >= start && end <= x)
    } else {
        // true only when end wrapped below start yet is still past x
        end < start && end > x
    }
}

/// Stepping `k` forward from `a` lands exactly `k` away from `a`.
pub proof fn lemma_dist_add(a: u32, k: u32)
    ensures
        seq_dist(a, vstd::wrapping::u32_specs::wrapping_add(a, k)) == k,
{
}

/// Distances compose along the circle: going `a -> b -> c` covers the
/// distance `a -> c`, up to one full turn.
pub proof fn lemma_dist_chain(a: u32, b: u32, c: u32)
    ensures
        seq_dist(a, b) + seq_dist(b, c) < SEQ_MOD ==> seq_dist(a, c) == seq_dist(a, b) + seq_dist(b, c),
        seq_dist(a, b) + seq_dist(b, c) >= SEQ_MOD ==> seq_dist(a, c) == seq_dist(a, b) + seq_dist(b, c) - SEQ_MOD,
{
}

/// Adding the same offset to both points leaves their distance unchanged.
pub proof fn lemma_dist_translation(a: u32, b: u32, k: u32)
    ensures
        seq_dist(
            vstd::wrapping::u32_specs::wrapping_add(a, k),
            vstd::wrapping::u32_specs::wrapping_add(b, k),
        ) == seq_dist(a, b),
{
}

/// Law: strict betweenness on the circle is invariant under translation.
/// `is_between_wrapped(a, b, c)` agrees with
/// `is_between_wrapped(a + k, b + k, c + k)` for every offset `k`, with all
/// additions taken modulo 2^32.
pub proof fn lemma_between_translation(a: u32, b: u32, c: u32, k: u32)
    ensures
        spec_between(a, b, c) == spec_between(
            vstd::wrapping::u32_specs::wrapping_add(a, k),
            vstd::wrapping::u32_specs::wrapping_add(b, k),
            vstd::wrapping::u32_specs::wrapping_add(c, k),
        ),
{
    lemma_dist_translation(a, b, k);
    lemma_dist_translation(a, c, k);
}

/// Law: the lower endpoint is excluded: no `x` equal to `start` is inside.
pub proof fn lemma_between_start_excluded(start: u32, end: u32)
    ensures
        !spec_between(start, start, end),
{
}

/// Two wrapped additions collapse into one while the offsets fit in u32.
pub proof fn lemma_wadd_chain(a: u32, x: u32, y: u32)
    requires
        x + y < SEQ_MOD,
    ensures
        vstd::wrapping::u32_specs::wrapping_add(vstd::wrapping::u32_specs::wrapping_add(a, x), y)
            == vstd::wrapping::u32_specs::wrapping_add(a, (x + y) as u32),
{
}

/// Stepping one back from the point one past `a` returns to `a`.
pub proof fn lemma_add_one_sub_one(a: u32)
    ensures
        vstd::wrapping::u32_specs::wrapping_sub(vstd::wrapping::u32_specs::wrapping_add(a, 1), 1) == a,
{
}

/// Stepping one forward from the point one below `a` returns to `a`.
pub proof fn lemma_sub_one_add_one(a: u32)
    ensures
        vstd::wrapping::u32_specs::wrapping_add(vstd::wrapping::u32_specs::wrapping_sub(a, 1), 1) == a,
        seq_dist(vstd::wrapping::u32_specs::wrapping_sub(a, 1), a) == 1,
{
}

} // verus!
