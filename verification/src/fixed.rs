//! Fixed-point scalar arithmetic.
//!
//! A world length is an `i64` holding the length times [`SCALE`], so
//! `1000` stands for one world unit and `-100` for a tenth of a unit
//! downward. Products of two fixed-point values are divided by the
//! scale again; the division rounds toward zero, as the machine's
//! signed division does.

use vstd::prelude::*;

verus! {

use vstd::arithmetic::div_mod::{
    lemma_div_by_multiple,
    lemma_div_is_ordered,
    lemma_div_pos_is_pos,
};

/// Number of fixed-point steps per world unit: `1000` stands for `1.0`.
pub const SCALE: i64 = 1000;

/// Largest coordinate magnitude accepted for an agent or camera
/// position: a million world units. Together with the limits below it
/// keeps every product in the engine's arithmetic inside `i64`.
pub const POS_LIMIT: i64 = 1_000_000_000;

/// Largest analog axis magnitude accepted: a thousand times full
/// deflection, far beyond what a device reports.
pub const AXIS_LIMIT: i64 = 1_000_000;

/// Largest frame delta time accepted: a thousand seconds.
pub const DT_LIMIT: i64 = 1_000_000;

/// Largest coordinate magnitude of a desired displacement that the
/// intent mapper can produce within the limits above.
pub const INTENT_LIMIT: i64 = 2_100_000_000_000;

/// Largest coordinate magnitude of a desired displacement scaled by
/// the frame delta time, within the limits above.
pub const SCALED_LIMIT: i64 = 2_100_000_000_000_000;

/// Magnitude of an integer.
pub open spec fn iabs(n: int) -> int {
    if n >= 0 {
        n
    } else {
        -n
    }
}

/// Division rounded toward zero, for a positive divisor. This is the
/// rounding that Rust's `/` performs on signed integers, while `/` on
/// `int` is Euclidean; the two agree on non-negative dividends.
pub open spec fn tdiv(n: int, d: int) -> int {
    if n >= 0 {
        n / d
    } else {
        -((-n) / d)
    }
}

/// Fixed-point product: `a * b / d`, rounded toward zero.
pub open spec fn mul_div_spec(a: int, b: int, d: int) -> int {
    tdiv(a * b, d)
}

/// The quotient is no larger in magnitude than any `k` with `|n| <= k * d`.
pub proof fn lemma_tdiv_bound(n: int, d: int, k: int)
    requires
        d >= 1,
        k >= 0,
        -(k * d) <= n <= k * d,
    ensures
        -k <= tdiv(n, d) <= k,
{
    if n >= 0 {
        lemma_div_pos_is_pos(n, d);
        lemma_div_is_ordered(n, k * d, d);
        lemma_div_by_multiple(k, d);
    } else {
        lemma_div_pos_is_pos(-n, d);
        lemma_div_is_ordered(-n, k * d, d);
        lemma_div_by_multiple(k, d);
    }
}

/// Dividing an exact multiple recovers the factor.
pub proof fn lemma_tdiv_mul_exact(k: int, d: int)
    requires
        d >= 1,
    ensures
        tdiv(k * d, d) == k,
{
    if k >= 0 {
        lemma_div_by_multiple(k, d);
    } else {
        lemma_div_by_multiple(-k, d);
        assert(-(k * d) == (-k) * d) by (nonlinear_arith);
    }
}

/// `a * b / d` rounded toward zero, computed through a 128-bit
/// intermediate product so the multiplication cannot overflow.
pub fn mul_div(a: i64, b: i64, d: i64) -> (q: i64)
    requires
        d >= 1,
        -0x7fff_ffff_ffff_ffff <= a * b <= 0x7fff_ffff_ffff_ffff,
    ensures
        q == mul_div_spec(a as int, b as int, d as int),
{
    let p: i128 = (a as i128) * (b as i128);
    let q128: i128 = p / (d as i128);
    proof {
        assert(0x7fff_ffff_ffff_ffff <= 0x7fff_ffff_ffff_ffff * d) by (nonlinear_arith)
            requires d >= 1;
        lemma_tdiv_bound(p as int, d as int, 0x7fff_ffff_ffff_ffff);
    }
    q128 as i64
}

/// Magnitude of a fixed-point value.
pub fn abs_fx(a: i64) -> (r: i64)
    requires
        -0x7fff_ffff_ffff_ffff <= a,
    ensures
        r == iabs(a as int),
{
    if a < 0 {
        -a
    } else {
        a
    }
}

/// Integer square root: the largest `r` with `r * r <= n`.
pub open spec fn isqrt_spec(n: nat) -> nat
    decreases n,
{
    if n == 0 {
        0
    } else {
        let r = isqrt_spec((n - 1) as nat);
        if (r + 1) * (r + 1) <= n {
            r + 1
        } else {
            r
        }
    }
}

/// The integer square root brackets its argument between two squares.
pub proof fn lemma_isqrt_bounds(n: nat)
    ensures
        isqrt_spec(n) * isqrt_spec(n) <= n,
        n < (isqrt_spec(n) + 1) * (isqrt_spec(n) + 1),
    decreases n,
{
    if n == 0 {
        assert(isqrt_spec(0) == 0);
        assert(n < (isqrt_spec(n) + 1) * (isqrt_spec(n) + 1)) by (nonlinear_arith)
            requires n == 0 && isqrt_spec(n) == 0;
    } else {
        lemma_isqrt_bounds((n - 1) as nat);
        let r = isqrt_spec((n - 1) as nat);
        if (r + 1) * (r + 1) <= n {
            assert(isqrt_spec(n) == r + 1);
            assert((r + 1) * (r + 1) < (r + 2) * (r + 2)) by (nonlinear_arith);
            assert(n < (isqrt_spec(n) + 1) * (isqrt_spec(n) + 1));
        } else {
            assert(isqrt_spec(n) == r);
            assert(n < (isqrt_spec(n) + 1) * (isqrt_spec(n) + 1));
        }
    }
}

/// Any `r` bracketed the same way is the integer square root.
pub proof fn lemma_isqrt_unique(n: nat, r: nat)
    requires
        r * r <= n,
        n < (r + 1) * (r + 1),
    ensures
        r == isqrt_spec(n),
{
    lemma_isqrt_bounds(n);
    let s = isqrt_spec(n);
    if r < s {
        assert((r + 1) * (r + 1) <= s * s) by (nonlinear_arith)
            requires r + 1 <= s;
    }
    if s < r {
        assert((s + 1) * (s + 1) <= r * r) by (nonlinear_arith)
            requires s + 1 <= r;
    }
}

/// Integer square root by bisection.
pub fn isqrt(n: u64) -> (r: u64)
    ensures
        r == isqrt_spec(n as nat),
{
    let mut lo: u64 = 0;
    let mut hi: u64 = 0x1_0000_0000;
    proof {
        assert(n < 0x1_0000_0000u64 * 0x1_0000_0000u64);
    }
    while lo + 1 < hi
        invariant
            lo < hi <= 0x1_0000_0000,
            (lo as int) * (lo as int) <= n as int,
            (n as int) < (hi as int) * (hi as int),
        decreases hi - lo,
    {
        let mid: u64 = lo + (hi - lo) / 2;
        proof {
            assert(mid * mid <= 0xffff_ffffu64 * 0xffff_ffffu64) by (nonlinear_arith)
                requires mid <= 0xffff_ffffu64;
        }
        if mid * mid <= n {
            lo = mid;
        } else {
            hi = mid;
        }
    }
    proof {
        lemma_isqrt_unique(n as nat, lo as nat);
    }
    lo
}

} // verus!
