use vstd::prelude::*;

use crate::color::ONE;

verus! {

/// The triangle wave of a combined argument `x`: with `w = x mod 1`
/// (always non-negative), `|2w - 1| * 2 - 1`. It is 1 at whole numbers
/// and -1 half way between them.
pub open spec fn tri(x: int) -> int {
    let d = 2 * (x % (ONE as int)) - ONE;
    (if d < 0 {
        -d
    } else {
        d
    }) * 2 - ONE
}

/// The phase function: a periodic ping-pong ramp in [-1, 1] of
/// `position + phase`, wrapped with a Euclidean modulo so that negative
/// arguments wrap too.
pub fn triangle_wave(position: i32, phase: i32) -> (r: i32)
    ensures
        r == tri(position + phase),
        -ONE <= r <= ONE,
{
    let sum: i64 = position as i64 + phase as i64;
    let w: i64 = match sum.checked_rem_euclid(ONE as i64) {
        Some(w) => w,
        None => 0,
    };
    let d: i64 = 2 * w - ONE as i64;
    let m: i64 = if d < 0 {
        -d
    } else {
        d
    };
    (m * 2 - ONE as i64) as i32
}

/// The triangle wave has period 1 in its combined argument, stays within
/// [-1, 1], and peaks at the origin.
pub proof fn lemma_triangle_wave(x: int, k: int)
    ensures
        tri(x + k * (ONE as int)) == tri(x),
        -ONE <= tri(x) <= ONE,
        tri(0) == ONE,
{
    vstd::arithmetic::div_mod::lemma_mod_multiples_vanish(k, x, ONE as int);
    assert((ONE as int) * k + x == x + k * (ONE as int)) by (nonlinear_arith);
}

} // verus!
