//! Fixed-point arithmetic of the simulation.
//!
//! Every length, coordinate, speed and scale factor is an integer count of
//! thousandths: `UNIT` stands for one world unit (or for the factor one).
//! Stored values are `i32`; intermediate results are computed in wider
//! integers and brought back with [`saturate`], so that a coordinate at the
//! end of the representable range stays there instead of wrapping.
use vstd::prelude::*;

verus! {

/// One world unit, in thousandths.
pub const UNIT: i32 = 1000;

/// Quotient of `a` by a positive `b`, rounded toward zero.
pub open spec fn div_trunc(a: int, b: int) -> int
    recommends
        b > 0,
{
    if a >= 0 {
        a / b
    } else {
        -((-a) / b)
    }
}

/// Remainder of `a` by a positive `b` with the sign of `a`, so that
/// `a == b * div_trunc(a, b) + rem_trunc(a, b)`.
pub open spec fn rem_trunc(a: int, b: int) -> int
    recommends
        b > 0,
{
    if a >= 0 {
        a % b
    } else {
        -((-a) % b)
    }
}

/// The value of the `i32` range that is nearest to `x`.
pub open spec fn saturate(x: int) -> int {
    if x < i32::MIN {
        i32::MIN as int
    } else if x > i32::MAX {
        i32::MAX as int
    } else {
        x
    }
}

/// Brings a wide intermediate result back into the stored range.
pub fn saturate_i64(x: i64) -> (r: i32)
    ensures
        r == saturate(x as int),
{
    if x < i32::MIN as i64 {
        i32::MIN
    } else if x > i32::MAX as i64 {
        i32::MAX
    } else {
        x as i32
    }
}

/// `value` multiplied by the fixed-point `factor`: `value * factor / UNIT`,
/// rounded toward zero and saturated.
pub open spec fn scaled(value: int, factor: int) -> int {
    saturate(div_trunc(value * factor, UNIT as int))
}

/// Multiplies a stored value by a fixed-point factor.
pub fn scale(value: i32, factor: i32) -> (r: i32)
    ensures
        r == scaled(value as int, factor as int),
{
    let v: i64 = value as i64;
    let f: i64 = factor as i64;
    assert(-0x4000_0000_0000_0000 <= v * f <= 0x4000_0000_0000_0000) by (nonlinear_arith)
        requires
            -0x8000_0000 <= v <= 0x8000_0000,
            -0x8000_0000 <= f <= 0x8000_0000,
    ;
    saturate_i64(v * f / (UNIT as i64))
}

/// `r` is the integer square root of `n`: the largest `r` with `r * r <= n`.
pub open spec fn is_sqrt_floor(n: int, r: int) -> bool {
    0 <= r && r * r <= n && n < (r + 1) * (r + 1)
}

/// The integer square root of `n`.
pub open spec fn sqrt_floor(n: nat) -> nat
    decreases n,
{
    if n == 0 {
        0
    } else {
        let r = sqrt_floor((n - 1) as nat);
        if (r + 1) * (r + 1) <= n {
            r + 1
        } else {
            r
        }
    }
}

/// `sqrt_floor` gives the integer square root.
pub proof fn lemma_sqrt_floor(n: nat)
    ensures
        is_sqrt_floor(n as int, sqrt_floor(n) as int),
    decreases n,
{
    if n > 0 {
        lemma_sqrt_floor((n - 1) as nat);
        let r = sqrt_floor((n - 1) as nat) as int;
        assert(r * r <= n && (r + 1) * (r + 1) <= n ==> n < (r + 2) * (r + 2)) by (nonlinear_arith)
            requires
                0 <= r,
                n - 1 < (r + 1) * (r + 1),
        ;
    } else {
        assert(0 < (0 + 1) * (0 + 1)) by (nonlinear_arith);
    }
}

/// The integer square root is unique.
pub proof fn lemma_sqrt_floor_unique(n: int, r: int, s: int)
    requires
        is_sqrt_floor(n, r),
        is_sqrt_floor(n, s),
    ensures
        r == s,
{
    if r < s {
        assert((r + 1) * (r + 1) <= s * s) by (nonlinear_arith)
            requires
                0 <= r,
                r + 1 <= s,
        ;
    } else if s < r {
        assert((s + 1) * (s + 1) <= r * r) by (nonlinear_arith)
            requires
                0 <= s,
                s + 1 <= r,
        ;
    }
}

/// Integer square root, by bisection.
pub fn isqrt(n: u128) -> (r: u64)
    ensures
        r == sqrt_floor(n as nat),
{
    let mut low: u128 = 0;
    let mut high: u128 = 0x1_0000_0000_0000_0000;
    assert(0x1_0000_0000_0000_0000int * 0x1_0000_0000_0000_0000int > u128::MAX) by (nonlinear_arith);
    while high - low > 1
        invariant
            low < high <= 0x1_0000_0000_0000_0000,
            low * low <= n,
            n < high * high,
        decreases high - low,
    {
        let mid: u128 = low + (high - low) / 2;
        assert(mid * mid <= u128::MAX) by (nonlinear_arith)
            requires
                0 <= mid < 0x1_0000_0000_0000_0000,
        ;
        if mid * mid <= n {
            low = mid;
        } else {
            high = mid;
        }
    }
    proof {
        lemma_sqrt_floor(n as nat);
        lemma_sqrt_floor_unique(n as int, low as int, sqrt_floor(n as nat) as int);
    }
    low as u64
}

/// Length of the vector `(dx, dy)`, rounded down.
pub open spec fn length(dx: int, dy: int) -> nat {
    sqrt_floor((dx * dx + dy * dy) as nat)
}

/// Only the null vector has length zero.
pub proof fn lemma_length_zero(dx: int, dy: int)
    ensures
        length(dx, dy) == 0 <==> (dx == 0 && dy == 0),
{
    let n = dx * dx + dy * dy;
    assert(n >= 0 && ((dx != 0 || dy != 0) ==> n >= 1) && (dx == 0 && dy == 0 ==> n == 0))
        by (nonlinear_arith)
        requires
            n == dx * dx + dy * dy,
    ;
    lemma_sqrt_floor(n as nat);
    let d = sqrt_floor(n as nat) as int;
    if n >= 1 {
        assert(d != 0) by (nonlinear_arith)
            requires
                n >= 1,
                n < (d + 1) * (d + 1),
        ;
    } else {
        assert(d == 0) by (nonlinear_arith)
            requires
                0 <= d,
                d * d <= n,
                n == 0,
        ;
    }
}

/// Absolute value, widened so that the least `i64` has one too.
pub fn magnitude(x: i64) -> (m: u128)
    ensures
        m == vstd::math::abs(x as int),
{
    if x >= 0 {
        x as u128
    } else {
        (-(x as i128)) as u128
    }
}

/// Length of the vector `(dx, dy)`, rounded down.
pub fn distance(dx: i64, dy: i64) -> (d: u64)
    ensures
        d == length(dx as int, dy as int),
{
    let ax: u128 = magnitude(dx);
    let ay: u128 = magnitude(dy);
    assert(ax * ax <= 0x4000_0000_0000_0000_0000_0000_0000_0000 && ax * ax == dx * dx)
        by (nonlinear_arith)
        requires
            0 <= ax <= 0x8000_0000_0000_0000,
            ax == dx || ax == -dx,
    ;
    assert(ay * ay <= 0x4000_0000_0000_0000_0000_0000_0000_0000 && ay * ay == dy * dy)
        by (nonlinear_arith)
        requires
            0 <= ay <= 0x8000_0000_0000_0000,
            ay == dy || ay == -dy,
    ;
    isqrt(ax * ax + ay * ay)
}

} // verus!
