//! Fixed-point helpers: saturation, scaling by thousandths, timers and the
//! integer square root.
use vstd::prelude::*;

verus! {

/// One whole unit (of length, of time in seconds, of a dimensionless factor)
/// in the fixed-point representation.
pub const UNIT: i64 = 1000;

/// `v` limited to the range of `i64`.
pub open spec fn clamp_i64(v: int) -> int {
    if v < i64::MIN {
        i64::MIN as int
    } else if v > i64::MAX {
        i64::MAX as int
    } else {
        v
    }
}

/// Quotient of `n` by a positive `d`, rounded toward zero.
pub open spec fn div_toward_zero(n: int, d: int) -> int {
    if n >= 0 {
        n / d
    } else {
        -((-n) / d)
    }
}

/// The fixed-point product `v * k`: the exact product, divided by `UNIT`
/// and rounded toward zero.
pub open spec fn scaled(v: int, k: int) -> int {
    div_toward_zero(v * k, UNIT as int)
}

/// An elapsed time as the simulation reads it: a negative one counts as none.
pub open spec fn elapsed(delta_t: int) -> int {
    if delta_t < 0 {
        0
    } else {
        delta_t
    }
}

/// A timer that runs up by `delta_t` and stops at `limit`. A timer that is
/// beyond the limit already stays as it is.
pub open spec fn charged(timer: int, delta_t: int, limit: int) -> int {
    if timer + elapsed(delta_t) > limit {
        if timer > limit { timer } else { limit }
    } else {
        timer + elapsed(delta_t)
    }
}

/// A timer that runs down by `delta_t` and stops at zero. A timer that is
/// below zero already stays as it is.
pub open spec fn drained(timer: int, delta_t: int) -> int {
    if timer - elapsed(delta_t) < 0 {
        if timer < 0 { timer } else { 0 }
    } else {
        timer - elapsed(delta_t)
    }
}

/// An age `delta_t` later, held at the largest representable time.
pub open spec fn aged(age: int, delta_t: int) -> int {
    clamp_i64(age + elapsed(delta_t))
}

/// `v` limited to the range of `i64`.
pub fn saturate(v: i128) -> (r: i64)
    ensures
        r == clamp_i64(v as int),
{
    if v < i64::MIN as i128 {
        i64::MIN
    } else if v > i64::MAX as i128 {
        i64::MAX
    } else {
        v as i64
    }
}

/// The exact product of two `i64` values.
pub fn wide_product(a: i64, b: i64) -> (r: i128)
    ensures
        r == a * b,
        -0x4000_0000_0000_0000_0000_0000_0000_0000 < r <= 0x4000_0000_0000_0000_0000_0000_0000_0000,
{
    assert(-0x4000_0000_0000_0000_0000_0000_0000_0000 < a * b
        <= 0x4000_0000_0000_0000_0000_0000_0000_0000) by (nonlinear_arith)
        requires
            -0x8000_0000_0000_0000 <= a < 0x8000_0000_0000_0000,
            -0x8000_0000_0000_0000 <= b < 0x8000_0000_0000_0000,
    ;
    (a as i128) * (b as i128)
}

/// `n / d` rounded toward zero, for a positive divisor.
pub fn quotient(n: i128, d: i128) -> (r: i128)
    requires
        d > 0,
        n > i128::MIN,
    ensures
        r == div_toward_zero(n as int, d as int),
        n >= 0 ==> 0 <= r <= n,
        n <= 0 ==> n <= r <= 0,
{
    if n >= 0 {
        n / d
    } else {
        -((-n) / d)
    }
}

/// The fixed-point product of two `i64` values, not yet limited to `i64`.
pub fn scale(v: i64, k: i64) -> (r: i128)
    ensures
        r == scaled(v as int, k as int),
        -0x4000_0000_0000_0000_0000_0000_0000_0000 < r <= 0x4000_0000_0000_0000_0000_0000_0000_0000,
{
    quotient(wide_product(v, k), UNIT as i128)
}

/// The elapsed time `delta_t` as the simulation reads it: a negative one
/// counts as none.
pub fn elapsed_time(delta_t: i64) -> (r: i64)
    ensures
        r == elapsed(delta_t as int),
{
    if delta_t < 0 {
        0
    } else {
        delta_t
    }
}

/// Runs `timer` up by `delta_t`, as far as `limit`.
pub fn charge(timer: i64, delta_t: i64, limit: i64) -> (r: i64)
    ensures
        r == charged(timer as int, delta_t as int, limit as int),
{
    let sum: i128 = timer as i128 + elapsed_time(delta_t) as i128;
    if sum > limit as i128 {
        if timer > limit { timer } else { limit }
    } else {
        sum as i64
    }
}

/// Runs `timer` down by `delta_t`, as far as zero.
pub fn drain(timer: i64, delta_t: i64) -> (r: i64)
    ensures
        r == drained(timer as int, delta_t as int),
{
    let rest: i128 = timer as i128 - elapsed_time(delta_t) as i128;
    if rest < 0 {
        if timer < 0 { timer } else { 0 }
    } else {
        rest as i64
    }
}

/// Adds `delta_t` to the age `timer`, as far as the largest `i64`.
pub fn age(timer: i64, delta_t: i64) -> (r: i64)
    ensures
        r == aged(timer as int, delta_t as int),
{
    saturate(timer as i128 + elapsed_time(delta_t) as i128)
}

/// `r` is the square root of `n`, rounded down.
pub open spec fn is_floor_sqrt(n: nat, r: nat) -> bool {
    r * r <= n < (r + 1) * (r + 1)
}

/// The square root of `n`, rounded down.
pub open spec fn isqrt(n: nat) -> nat {
    choose|r: nat| is_floor_sqrt(n, r)
}

/// Every natural number has a rounded-down square root, and `isqrt` is it.
pub proof fn lemma_isqrt_exists(n: nat)
    ensures
        is_floor_sqrt(n, isqrt(n)),
    decreases n,
{
    if n == 0 {
        assert(is_floor_sqrt(0, 0)) by (nonlinear_arith);
    } else {
        lemma_isqrt_exists((n - 1) as nat);
        let r = isqrt((n - 1) as nat);
        if (r + 1) * (r + 1) <= n {
            assert((r + 2) * (r + 2) > (r + 1) * (r + 1)) by (nonlinear_arith);
            assert(is_floor_sqrt(n, r + 1));
        } else {
            assert(is_floor_sqrt(n, r));
        }
    }
}

/// `isqrt(n)` is the only rounded-down square root of `n`.
pub proof fn lemma_isqrt_unique(n: nat, r: nat)
    requires
        is_floor_sqrt(n, r),
    ensures
        r == isqrt(n),
{
    let q = isqrt(n);
    if r < q {
        assert((r + 1) * (r + 1) <= q * q) by (nonlinear_arith)
            requires
                r + 1 <= q,
        ;
    } else if q < r {
        assert((q + 1) * (q + 1) <= r * r) by (nonlinear_arith)
            requires
                q + 1 <= r,
        ;
    }
}

/// The root lies below a bound exactly when the number lies below the
/// bound's square.
pub proof fn lemma_isqrt_below(n: nat, bound: nat)
    ensures
        isqrt(n) < bound <==> n < bound * bound,
{
    lemma_isqrt_exists(n);
    let r = isqrt(n);
    if r < bound {
        assert((r + 1) * (r + 1) <= bound * bound) by (nonlinear_arith)
            requires
                r + 1 <= bound,
        ;
    } else {
        assert(bound * bound <= r * r) by (nonlinear_arith)
            requires
                bound <= r,
        ;
    }
}

/// The square root of `n`, rounded down.
pub fn integer_sqrt(n: u128) -> (r: u64)
    ensures
        r == isqrt(n as nat),
{
    let mut low: u128 = 0;
    let mut high: u128 = 0x1_0000_0000_0000_0000;
    while high - low > 1
        invariant
            low < high <= 0x1_0000_0000_0000_0000,
            low * low <= n < high * high,
        decreases high - low,
    {
        let middle: u128 = low + (high - low) / 2;
        assert(middle * middle <= 0xffff_ffff_ffff_ffff * 0xffff_ffff_ffff_ffff) by (nonlinear_arith)
            requires
                0 <= middle <= 0xffff_ffff_ffff_ffff,
        ;
        if middle * middle <= n {
            low = middle;
        } else {
            high = middle;
        }
    }
    proof {
        lemma_isqrt_unique(n as nat, low as nat);
    }
    low as u64
}

} // verus!
