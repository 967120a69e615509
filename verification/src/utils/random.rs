//! The simulation's supply of random numbers.
//!
//! The simulation draws no random numbers itself: whoever drives it hands it
//! a `RandomSource` filled with draws, each a `u32` that stands for the
//! fraction `draw / 2^32` of the half-open interval from 0 to 1. The draws
//! are used in the order given; once they are used up, every further draw
//! is 0.
use vstd::prelude::*;
use crate::utils::fixed::{div_toward_zero, quotient, wide_product};

verus! {

/// The number of values a draw can take: 2^32.
pub const DRAW_RANGE: i64 = 0x1_0000_0000;

/// The `k`-th of the draws `s`, or 0 where there is none.
pub open spec fn draw_at(s: Seq<u32>, k: int) -> u32 {
    if 0 <= k < s.len() {
        s[k]
    } else {
        0
    }
}

/// The draws `s` once `k` of them are used.
pub open spec fn draws_after(s: Seq<u32>, k: int) -> Seq<u32> {
    if 0 <= k <= s.len() {
        s.skip(k)
    } else if k < 0 {
        s
    } else {
        Seq::empty()
    }
}

/// Between `before` and `after`, at most `at_most` draws were used.
pub open spec fn spent(before: Seq<u32>, after: Seq<u32>, at_most: int) -> bool {
    exists|k: int| 0 <= k <= at_most && after == #[trigger] draws_after(before, k)
}

/// The fraction `draw / 2^32` of `max`, rounded toward zero.
pub open spec fn fraction_of(draw: u32, max: int) -> int {
    div_toward_zero(draw * max, DRAW_RANGE as int)
}

/// Using `a` draws and then `b` is using `a + b`.
pub proof fn lemma_draws_after_twice(s: Seq<u32>, a: int, b: int)
    requires
        0 <= a,
        0 <= b,
    ensures
        draws_after(draws_after(s, a), b) == draws_after(s, a + b),
        forall|k: int| 0 <= k ==> #[trigger] draw_at(draws_after(s, a), k) == draw_at(s, a + k),
{
}

/// What is used in two steps is used in all: the bounds add up.
pub proof fn lemma_spent_twice(a: Seq<u32>, b: Seq<u32>, c: Seq<u32>, m: int, n: int)
    requires
        spent(a, b, m),
        spent(b, c, n),
    ensures
        spent(a, c, m + n),
{
    let j = choose|j: int| 0 <= j <= m && b == draws_after(a, j);
    let k = choose|k: int| 0 <= k <= n && c == draws_after(b, k);
    lemma_draws_after_twice(a, j, k);
}

/// A source that holds as many draws as are used at most does not run dry:
/// what is left of it is what was not used.
pub proof fn lemma_spent_of_enough(before: Seq<u32>, after: Seq<u32>, at_most: int)
    requires
        spent(before, after, at_most),
        before.len() >= at_most,
    ensures
        exists|k: int| 0 <= k <= at_most && after == #[trigger] before.skip(k),
        after.len() >= before.len() - at_most,
{
}

/// A fraction of a bound that is not negative lies below the bound.
pub proof fn lemma_fraction_bounds(draw: u32, max: int)
    ensures
        max > 0 ==> 0 <= fraction_of(draw, max) < max,
        max == 0 ==> fraction_of(draw, max) == 0,
        max < 0 ==> max < fraction_of(draw, max) <= 0,
{
    let range: int = DRAW_RANGE as int;
    if max >= 0 {
        let n: int = draw * max;
        assert(0 <= n && n <= (range - 1) * max) by (nonlinear_arith)
            requires
                n == draw * max,
                0 <= draw <= range - 1,
                max >= 0,
        ;
    } else {
        let n: int = -(draw * max);
        assert(0 <= n && n <= (range - 1) * (-max)) by (nonlinear_arith)
            requires
                n == -(draw * max),
                0 <= draw <= range - 1,
                max < 0,
        ;
    }
}

/// The fraction `draw / 2^32` of `max`, rounded toward zero.
pub fn scale_draw(draw: u32, max: i64) -> (r: i64)
    ensures
        r == fraction_of(draw, max as int),
        max > 0 ==> 0 <= r < max,
        max == 0 ==> r == 0,
        max < 0 ==> max < r <= 0,
{
    proof {
        lemma_fraction_bounds(draw, max as int);
    }
    quotient(wide_product(draw as i64, max), DRAW_RANGE as i128) as i64
}

/// Draws that were made elsewhere, to be used up one by one.
pub struct RandomSource {
    draws: Vec<u32>,
    used: usize,
}

impl View for RandomSource {
    type V = Seq<u32>;

    /// The draws that are left, the next one first.
    closed spec fn view(&self) -> Seq<u32> {
        draws_after(self.draws@, self.used as int)
    }
}

impl RandomSource {
    /// A source that hands out `draws` from the first to the last.
    pub fn new(draws: Vec<u32>) -> (source: Self)
        ensures
            source@ == draws@,
    {
        let source = RandomSource { draws, used: 0 };
        source
    }

    /// Drops the draws that are left and takes `draws` in their place.
    pub fn refill(&mut self, draws: Vec<u32>)
        ensures
            final(self)@ == draws@,
    {
        self.draws = draws;
        self.used = 0;
    }

    /// The number of draws that are left.
    pub fn remaining(&self) -> (n: usize)
        ensures
            n == self@.len(),
    {
        if self.used <= self.draws.len() {
            self.draws.len() - self.used
        } else {
            0
        }
    }

    /// Takes the next draw; 0 where none is left.
    pub fn next(&mut self) -> (draw: u32)
        ensures
            draw == draw_at(old(self)@, 0),
            final(self)@ == draws_after(old(self)@, 1),
    {
        if self.used < self.draws.len() {
            let draw = self.draws[self.used];
            self.used = self.used + 1;
            draw
        } else {
            0
        }
    }
}

/// The next draw of `source`: the numerator of a fraction over 2^32.
pub fn random_number(source: &mut RandomSource) -> (draw: u32)
    ensures
        draw == draw_at(old(source)@, 0),
        final(source)@ == draws_after(old(source)@, 1),
{
    source.next()
}

/// A number from 0 up to, not including, `max`, picked by the next draw of
/// `source`.
pub fn random_number_max(source: &mut RandomSource, max: i64) -> (r: i64)
    ensures
        r == fraction_of(draw_at(old(source)@, 0), max as int),
        final(source)@ == draws_after(old(source)@, 1),
        max > 0 ==> 0 <= r < max,
{
    let draw = source.next();
    scale_draw(draw, max)
}

} // verus!
