//! Sine and cosine on integers: angles in microradians, results in
//! thousandths.
//!
//! Within a half turn the sine is Bhaskara's rational approximation
//! `16 x (pi - x) / (5 pi^2 - 4 x (pi - x))`, rounded to the nearest
//! thousandth. Within a turn of zero it is off by less than three
//! thousandths, and it is exact at zero and at the quarter turns next to
//! it. The period is two half turns of 3141593 microradians, a little more
//! than the true one, so that far from zero the error grows by some seven
//! tenths of a microradian with every turn.
//!
//! Sine and cosine of one angle are never zero together, but as a vector
//! they are only about a thousand long. Where a length matters, the vector
//! is brought to it by `Vector::with_length`, which is exact to within two
//! thousandths.
use vstd::prelude::*;
use vstd::arithmetic::div_mod::lemma_fundamental_div_mod;
use vstd::arithmetic::div_mod::lemma_fundamental_div_mod_converse;

verus! {

/// Half a turn (pi), in microradians.
pub const HALF_TURN: i64 = 3_141_593;

/// A full turn, in microradians: the period of `sin_spec` and `cos_spec`.
pub const FULL_TURN: i64 = 6_283_186;

/// A quarter turn, in microradians.
pub const QUARTER_TURN: i64 = 1_570_796;

/// Sine of an angle `x` between zero and a half turn, in thousandths.
pub open spec fn half_wave(x: int) -> int {
    let p = x * (HALF_TURN - x);
    let d = 5 * HALF_TURN * HALF_TURN - 4 * p;
    (32000 * p + d) / (2 * d)
}

/// Sine of `angle`, in thousandths.
pub open spec fn sin_spec(angle: int) -> int {
    let a = angle % (FULL_TURN as int);
    if a <= HALF_TURN {
        half_wave(a)
    } else {
        -half_wave(a - HALF_TURN)
    }
}

/// Cosine of `angle`, in thousandths: the sine a quarter turn further on.
pub open spec fn cos_spec(angle: int) -> int {
    sin_spec(angle + QUARTER_TURN)
}

/// Within its half turn the wave stays between 0 and 1000.
pub proof fn lemma_half_wave_bounds(x: int)
    requires
        0 <= x <= HALF_TURN,
    ensures
        0 <= half_wave(x) <= 1000,
        0 <= x * (HALF_TURN - x) <= 2_467_401_644_413,
{
    let h: int = HALF_TURN as int;
    let p = x * (h - x);
    let d = 5 * h * h - 4 * p;
    assert(0 <= p && 4 * p <= h * h) by (nonlinear_arith)
        requires
            0 <= x <= h,
            p == x * (h - x),
    ;
    let n = 32000 * p + d;
    lemma_fundamental_div_mod(n, 2 * d);
    let q = n / (2 * d);
    assert(0 <= q <= 1000) by (nonlinear_arith)
        requires
            n == (2 * d) * q + n % (2 * d),
            0 <= n % (2 * d) < 2 * d,
            0 <= n < 1001 * (2 * d),
            d > 0,
    ;
}

/// Sine and cosine stay between -1000 and 1000.
pub proof fn lemma_sin_cos_bounds(angle: int)
    ensures
        -1000 <= sin_spec(angle) <= 1000,
        -1000 <= cos_spec(angle) <= 1000,
{
    lemma_sin_bounds(angle);
    lemma_sin_bounds(angle + QUARTER_TURN);
}

proof fn lemma_sin_bounds(angle: int)
    ensures
        -1000 <= sin_spec(angle) <= 1000,
{
    let a = angle % (FULL_TURN as int);
    if a <= HALF_TURN {
        lemma_half_wave_bounds(a);
    } else {
        lemma_half_wave_bounds(a - HALF_TURN);
    }
}

/// At rest the angle zero points along the first axis: sine 0, cosine 1000.
pub proof fn lemma_sin_cos_at_zero()
    ensures
        sin_spec(0) == 0,
        cos_spec(0) == 1000,
        sin_spec(-(QUARTER_TURN as int)) == -1000,
        cos_spec(-(QUARTER_TURN as int)) == 0,
{
    // the sine of zero is the wave at zero
    assert(half_wave(0) == 0) by {
        let d: int = 5 * HALF_TURN * HALF_TURN;
        lemma_fundamental_div_mod_converse(d, 2 * d, 0, d);
    }
    // the cosine of zero is the wave at a quarter turn; the sine a quarter
    // turn back is the wave one microradian further on, with its sign turned
    lemma_peak(QUARTER_TURN as int);
    lemma_peak(QUARTER_TURN + 1);
}

proof fn lemma_peak(x: int)
    requires
        x == 1_570_796 || x == 1_570_797,
    ensures
        half_wave(x) == 1000,
{
    let h: int = HALF_TURN as int;
    let p = x * (h - x);
    let d = 5 * h * h - 4 * p;
    let n = 32000 * p + d;
    lemma_fundamental_div_mod_converse(n, 2 * d, 1000, n - 2000 * d);
}

/// The wave at `x`, for `x` within a half turn.
fn half_wave_at(x: i64) -> (r: i64)
    requires
        0 <= x <= HALF_TURN,
    ensures
        r == half_wave(x as int),
        0 <= r <= 1000,
{
    proof {
        lemma_half_wave_bounds(x as int);
    }
    let p: i64 = x * (HALF_TURN - x);
    let d: i64 = 5 * HALF_TURN * HALF_TURN - 4 * p;
    (32000 * p + d) / (2 * d)
}

/// Sine of an angle given in a wider type than the public functions take.
pub(crate) fn sin_wide(angle: i128) -> (r: i64)
    requires
        angle > i128::MIN,
    ensures
        r == sin_spec(angle as int),
        -1000 <= r <= 1000,
{
    let full: i128 = FULL_TURN as i128;
    let rest: i128 = angle % full;
    let a: i128 = if rest < 0 { rest + full } else { rest };
    if a <= HALF_TURN as i128 {
        half_wave_at(a as i64)
    } else {
        -half_wave_at((a - HALF_TURN as i128) as i64)
    }
}

/// Sine of `angle` (microradians), in thousandths.
pub fn sin(angle: i64) -> (r: i64)
    ensures
        r == sin_spec(angle as int),
        -1000 <= r <= 1000,
{
    sin_wide(angle as i128)
}

/// Cosine of `angle` (microradians), in thousandths.
pub fn cos(angle: i64) -> (r: i64)
    ensures
        r == cos_spec(angle as int),
        -1000 <= r <= 1000,
{
    sin_wide(angle as i128 + QUARTER_TURN as i128)
}

/// Away from the ends of its half turn the wave is at least 1.
proof fn lemma_half_wave_positive(x: int)
    requires
        1000 <= x <= HALF_TURN - 1000,
    ensures
        half_wave(x) >= 1,
{
    let h: int = HALF_TURN as int;
    let p = x * (h - x);
    let d = 5 * h * h - 4 * p;
    assert(p >= 1000 * h - 1_000_000 && 4 * p <= h * h) by (nonlinear_arith)
        requires
            1000 <= x <= h - 1000,
            p == x * (h - x),
    ;
    let n = 32000 * p + d;
    assert(n >= 2 * d && d > 0);
    lemma_fundamental_div_mod(n, 2 * d);
    vstd::arithmetic::div_mod::lemma_mod_bound(n, 2 * d);
    assert(n / (2 * d) >= 1) by (nonlinear_arith)
        requires
            n == (2 * d) * (n / (2 * d)) + n % (2 * d),
            0 <= n % (2 * d) < 2 * d,
            n >= 2 * d,
            d > 0,
    ;
}

/// Sine and cosine are never zero together: where one is near a zero, the
/// other is a quarter turn on.
pub proof fn lemma_sin_cos_apart(angle: int)
    ensures
        sin_spec(angle) != 0 || cos_spec(angle) != 0,
{
    let f: int = FULL_TURN as int;
    let h: int = HALF_TURN as int;
    let a = angle % f;
    let b = (angle + QUARTER_TURN) % f;
    lemma_fundamental_div_mod(angle, f);
    lemma_fundamental_div_mod(angle + QUARTER_TURN, f);
    vstd::arithmetic::div_mod::lemma_mod_bound(angle, f);
    vstd::arithmetic::div_mod::lemma_mod_bound(angle + QUARTER_TURN, f);
    assert(b == a + QUARTER_TURN || b == a + QUARTER_TURN - f);
    let x1 = if a <= h { a } else { a - h };
    let x2 = if b <= h { b } else { b - h };
    if 1000 <= x1 <= h - 1000 {
        lemma_half_wave_positive(x1);
    } else {
        assert(1000 <= x2 <= h - 1000);
        lemma_half_wave_positive(x2);
    }
}

/// The wave is no lower where `x (HALF_TURN - x)` is no less: it rises
/// toward the middle of its half turn.
proof fn lemma_half_wave_rises(x: int, y: int)
    requires
        0 <= x <= HALF_TURN,
        0 <= y <= HALF_TURN,
        x * (HALF_TURN - x) <= y * (HALF_TURN - y),
    ensures
        half_wave(x) <= half_wave(y),
{
    let h: int = HALF_TURN as int;
    let p = x * (h - x);
    let q = y * (h - y);
    lemma_half_wave_bounds(x);
    lemma_half_wave_bounds(y);
    let dp = 5 * h * h - 4 * p;
    let dq = 5 * h * h - 4 * q;
    let np = 32000 * p + dp;
    let nq = 32000 * q + dq;
    assert(0 <= np <= nq && 0 < dq <= dp);
    vstd::arithmetic::div_mod::lemma_div_is_ordered(np, nq, 2 * dp);
    vstd::arithmetic::div_mod::lemma_div_is_ordered_by_denominator(nq, 2 * dq, 2 * dp);
}

/// Up to an eighth of a turn to either side of zero, the sine is no larger
/// in size than the cosine.
pub proof fn lemma_sin_below_cos(angle: int)
    requires
        -785_398 <= angle <= 785_398,
    ensures
        -cos_spec(angle) <= sin_spec(angle) <= cos_spec(angle),
{
    let f: int = FULL_TURN as int;
    let h: int = HALF_TURN as int;
    let q: int = QUARTER_TURN as int;
    lemma_fundamental_div_mod_converse(angle + q, f, 0, angle + q);
    if angle >= 0 {
        lemma_fundamental_div_mod_converse(angle, f, 0, angle);
        assert(angle * (h - angle) <= (angle + q) * (h - (angle + q))) by (nonlinear_arith)
            requires
                0 <= angle <= 785_398,
                h == 3_141_593,
                q == 1_570_796,
        ;
        lemma_half_wave_rises(angle, angle + q);
        lemma_half_wave_bounds(angle);
    } else {
        lemma_fundamental_div_mod_converse(angle, f, -1, f + angle);
        let x = h + angle;
        assert(x * (h - x) <= (angle + q) * (h - (angle + q))) by (nonlinear_arith)
            requires
                -785_398 <= angle < 0,
                x == h + angle,
                h == 3_141_593,
                q == 1_570_796,
        ;
        lemma_half_wave_rises(x, angle + q);
        lemma_half_wave_bounds(x);
    }
}

} // verus!
