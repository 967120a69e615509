//! Two-dimensional vectors with fixed-point components.
//!
//! Every operation is total: a component that would leave the range of
//! `i64` is held at the end of the range.
//!
//! A vector is brought to a length by `with_length`, which measures short
//! vectors with a finer root, so that the result has the length asked for
//! to within two thousandths whatever the length of the vector was.
use vstd::prelude::*;
use crate::utils::fixed::{
    clamp_i64, div_toward_zero, integer_sqrt, isqrt, lemma_isqrt_below, lemma_isqrt_exists,
    quotient, saturate, scale, scaled, wide_product, UNIT,
};
use crate::utils::trig::{
    cos, cos_spec, lemma_sin_cos_apart, lemma_sin_cos_bounds, sin, sin_spec,
};

verus! {

/// A point or a displacement in the plane, in thousandths of a unit.
#[derive(Debug, Clone, Copy, PartialEq, Eq, Structural)]
pub struct Vector {
    pub x: i64,
    pub y: i64,
}

/// The factor by which the length of a short vector is scaled up before its
/// root is taken.
pub const FINE: i64 = 0x10_0000;

/// The squared length from which on a vector is measured with the plain
/// root: that of 2^40 thousandths.
pub const LONG: u128 = 0x1_0000_0000_0000_0000_0000;

/// The lengths that `with_length` is exact for to within two thousandths
/// are those below this one.
pub const LENGTH_LIMIT: i64 = 0x8_0000;

/// The square of `v`.
pub open spec fn square(v: int) -> nat {
    (v * v) as nat
}

/// The square of an `i64`, exactly.
pub fn squared(v: i64) -> (r: u128)
    ensures
        r == square(v as int),
        r <= 0x4000_0000_0000_0000_0000_0000_0000_0000,
{
    let m: u128 = if v < 0 { (-(v as i128)) as u128 } else { v as u128 };
    assert(m * m == v * v && 0 <= m * m <= 0x4000_0000_0000_0000_0000_0000_0000_0000)
        by (nonlinear_arith)
        requires
            m == v || m == -v,
            0 <= m <= 0x8000_0000_0000_0000,
    ;
    m * m
}

impl Vector {
    /// The sum, each component held within `i64`.
    pub open spec fn add_spec(self, other: Vector) -> Vector {
        Vector {
            x: clamp_i64(self.x + other.x) as i64,
            y: clamp_i64(self.y + other.y) as i64,
        }
    }

    /// The difference, each component held within `i64`.
    pub open spec fn sub_spec(self, other: Vector) -> Vector {
        Vector {
            x: clamp_i64(self.x - other.x) as i64,
            y: clamp_i64(self.y - other.y) as i64,
        }
    }

    /// The vector times the fixed-point factor `scalar`, each component
    /// rounded toward zero and held within `i64`.
    pub open spec fn scale_spec(self, scalar: int) -> Vector {
        Vector {
            x: clamp_i64(scaled(self.x as int, scalar)) as i64,
            y: clamp_i64(scaled(self.y as int, scalar)) as i64,
        }
    }

    /// The fixed-point dot product, rounded toward zero and held within `i64`.
    pub open spec fn dot_spec(self, other: Vector) -> int {
        clamp_i64(div_toward_zero(self.x * other.x + self.y * other.y, UNIT as int))
    }

    /// The length, rounded down.
    pub open spec fn length_spec(self) -> nat {
        isqrt(square(self.x as int) + square(self.y as int))
    }

    /// The square of the distance between two points.
    pub open spec fn distance_squared(self, other: Vector) -> nat {
        square(self.x - other.x) + square(self.y - other.y)
    }

    /// The distance between two points, rounded down and held within `u64`.
    pub open spec fn distance_spec(self, other: Vector) -> nat {
        let d = isqrt(self.distance_squared(other));
        if d > u64::MAX {
            u64::MAX as nat
        } else {
            d
        }
    }

    /// The square of the length.
    pub open spec fn length_squared(self) -> nat {
        square(self.x as int) + square(self.y as int)
    }

    /// The factor by which the length is scaled up before its root is
    /// taken: `FINE` for a vector shorter than 2^40 thousandths, 1 for a
    /// longer one.
    pub open spec fn fine_scale(self) -> int {
        if self.length_squared() < LONG {
            FINE as int
        } else {
            1
        }
    }

    /// The length times `fine_scale`, rounded down.
    pub open spec fn fine_length(self) -> nat {
        isqrt(self.length_squared() * square(self.fine_scale()))
    }

    /// The vector in the same direction that is `length` long, each
    /// component rounded toward zero and held within `i64`; the zero vector
    /// for the zero vector. A negative `length` turns the vector round.
    pub open spec fn with_length_spec(self, length: int) -> Vector {
        if self.x == 0 && self.y == 0 {
            Vector { x: 0, y: 0 }
        } else {
            Vector {
                x: clamp_i64(
                    div_toward_zero(self.x * length * self.fine_scale(), self.fine_length() as int),
                ) as i64,
                y: clamp_i64(
                    div_toward_zero(self.y * length * self.fine_scale(), self.fine_length() as int),
                ) as i64,
            }
        }
    }

    /// The vector of length one unit (1000) in the same direction; the zero
    /// vector for the zero vector.
    pub open spec fn normalize_spec(self) -> Vector {
        self.with_length_spec(UNIT as int)
    }

    /// A vector that points at `angle` (microradians) from the first axis
    /// toward the second. It is about one unit long, and never zero; where
    /// the length matters it is to be set by `with_length`.
    pub open spec fn bearing_spec(angle: int) -> Vector {
        Vector { x: cos_spec(angle) as i64, y: sin_spec(angle) as i64 }
    }

    /// The vector of one unit at `angle` (microradians) from the first axis.
    pub open spec fn unit_spec(angle: int) -> Vector {
        Self::bearing_spec(angle).normalize_spec()
    }

    /// The vector turned by `angle` (microradians), each component rounded
    /// toward zero and held within `i64`.
    pub open spec fn rotate_spec(self, angle: int) -> Vector {
        let unit = Self::unit_spec(angle);
        Vector {
            x: clamp_i64(div_toward_zero(self.x * unit.x - self.y * unit.y, UNIT as int)) as i64,
            y: clamp_i64(div_toward_zero(self.x * unit.y + self.y * unit.x, UNIT as int)) as i64,
        }
    }

    /// The vector with the components `x` and `y`.
    pub fn new(x: i64, y: i64) -> (v: Self)
        ensures
            v == (Vector { x, y }),
    {
        Self { x, y }
    }

    /// The zero vector.
    pub fn zero() -> (v: Self)
        ensures
            v == (Vector { x: 0, y: 0 }),
    {
        Self { x: 0, y: 0 }
    }

    /// The length, rounded down.
    pub fn length(&self) -> (len: u64)
        ensures
            len == self.length_spec(),
    {
        integer_sqrt(squared(self.x) + squared(self.y))
    }

    /// The vector in the same direction that is `length` long; the zero
    /// vector for the zero vector. A length from 9 up to, not including,
    /// `LENGTH_LIMIT` is met to within two thousandths: the result is
    /// shorter by less than two and longer by less than one.
    pub fn with_length(&self, length: i64) -> (v: Self)
        ensures
            v == self.with_length_spec(length as int),
            (self.x != 0 || self.y != 0) && 9 <= length < LENGTH_LIMIT ==> square(length - 2)
                < v.length_squared() < square(length + 1),
            length == 0 ==> v == (Vector { x: 0, y: 0 }),
    {
        if self.x == 0 && self.y == 0 {
            return Self::zero();
        }
        let s: u128 = squared(self.x) + squared(self.y);
        let short = s < LONG;
        proof {
            lemma_fine_length(*self);
            lemma_with_length(*self, length as int);
            assert(square(FINE as int) == 0x100_0000_0000 && square(1) == 1) by (nonlinear_arith);
            if short {
                lemma_short_components(*self);
            }
        }
        let root: u64 = if short {
            integer_sqrt(s * 0x100_0000_0000)
        } else {
            integer_sqrt(s)
        };
        let long_x: i128 = wide_product(self.x, length);
        let long_y: i128 = wide_product(self.y, length);
        assert(short ==> -0x80_0000_0000_0000_0000_0000_0000 <= long_x
            <= 0x80_0000_0000_0000_0000_0000_0000 && -0x80_0000_0000_0000_0000_0000_0000 <= long_y
            <= 0x80_0000_0000_0000_0000_0000_0000) by (nonlinear_arith)
            requires
                long_x == self.x * length,
                long_y == self.y * length,
                -0x8000_0000_0000_0000 <= length <= 0x8000_0000_0000_0000,
                short ==> -0x100_0000_0000 < self.x < 0x100_0000_0000 && -0x100_0000_0000 < self.y
                    < 0x100_0000_0000,
        ;
        assert(self.length_squared() * square(self.fine_scale()) == if short {
            s * 0x100_0000_0000
        } else {
            s as int
        }) by (nonlinear_arith)
            requires
                s == self.length_squared(),
                short ==> square(self.fine_scale()) == 0x100_0000_0000,
                !short ==> square(self.fine_scale()) == 1,
        ;
        assert(short ==> -0x800_0000_0000_0000_0000_0000_0000_0000 <= long_x * 0x10_0000
            <= 0x800_0000_0000_0000_0000_0000_0000_0000 && -0x800_0000_0000_0000_0000_0000_0000_0000
            <= long_y * 0x10_0000 <= 0x800_0000_0000_0000_0000_0000_0000_0000) by (nonlinear_arith)
            requires
                short ==> -0x80_0000_0000_0000_0000_0000_0000 <= long_x
                    <= 0x80_0000_0000_0000_0000_0000_0000 && -0x80_0000_0000_0000_0000_0000_0000
                    <= long_y <= 0x80_0000_0000_0000_0000_0000_0000,
        ;
        let x: i128 = if short {
            quotient(long_x * 0x10_0000, root as i128)
        } else {
            quotient(long_x, root as i128)
        };
        let y: i128 = if short {
            quotient(long_y * 0x10_0000, root as i128)
        } else {
            quotient(long_y, root as i128)
        };
        Self::new(saturate(x), saturate(y))
    }

    /// The vector of length one unit (1000) in the same direction; the zero
    /// vector for the zero vector, and for no other. The length of the
    /// result is one unit to within two thousandths.
    pub fn normalize(&self) -> (v: Self)
        ensures
            v == self.normalize_spec(),
            -UNIT <= v.x <= UNIT,
            -UNIT <= v.y <= UNIT,
            (v.x == 0 && v.y == 0) <==> (self.x == 0 && self.y == 0),
            (self.x != 0 || self.y != 0) ==> square(UNIT - 2) < v.length_squared() < square(UNIT + 1),
    {
        proof {
            if self.x != 0 || self.y != 0 {
                lemma_with_length(*self, UNIT as int);
            }
        }
        self.with_length(UNIT)
    }

    /// A vector that points at `angle` (microradians) from the first axis
    /// toward the second.
    pub fn bearing(angle: i64) -> (v: Self)
        ensures
            v == Self::bearing_spec(angle as int),
            -UNIT <= v.x <= UNIT,
            -UNIT <= v.y <= UNIT,
            v.x != 0 || v.y != 0,
    {
        proof {
            lemma_sin_cos_apart(angle as int);
        }
        Self { x: cos(angle), y: sin(angle) }
    }

    /// The vector of one unit at `angle` (microradians) from the first axis.
    pub fn unit(angle: i64) -> (v: Self)
        ensures
            v == Self::unit_spec(angle as int),
            -UNIT <= v.x <= UNIT,
            -UNIT <= v.y <= UNIT,
            square(UNIT - 2) < v.length_squared() < square(UNIT + 1),
    {
        Self::bearing(angle).normalize()
    }

    /// The fixed-point dot product.
    pub fn dot(&self, other: &Self) -> (d: i64)
        ensures
            d == self.dot_spec(*other),
    {
        let a: i128 = wide_product(self.x, other.x);
        let b: i128 = wide_product(self.y, other.y);
        if a == 0x4000_0000_0000_0000_0000_0000_0000_0000
            && b == 0x4000_0000_0000_0000_0000_0000_0000_0000 {
            i64::MAX
        } else {
            saturate(quotient(a + b, UNIT as i128))
        }
    }

    /// The vector times `scalar`, a factor in thousandths.
    pub fn scale(&self, scalar: i64) -> (v: Self)
        ensures
            v == self.scale_spec(scalar as int),
    {
        Self::new(saturate(scale(self.x, scalar)), saturate(scale(self.y, scalar)))
    }

    /// The sum of the two vectors.
    pub fn add(&self, other: &Self) -> (v: Self)
        ensures
            v == self.add_spec(*other),
    {
        Self::new(
            saturate(self.x as i128 + other.x as i128),
            saturate(self.y as i128 + other.y as i128),
        )
    }

    /// The difference of the two vectors.
    pub fn sub(&self, other: &Self) -> (v: Self)
        ensures
            v == self.sub_spec(*other),
    {
        Self::new(
            saturate(self.x as i128 - other.x as i128),
            saturate(self.y as i128 - other.y as i128),
        )
    }

    /// The distance between the two points, rounded down.
    pub fn distance(&self, other: &Self) -> (d: u64)
        ensures
            d == self.distance_spec(*other),
    {
        let dx: u128 = gap(self.x, other.x);
        let dy: u128 = gap(self.y, other.y);
        assert(dx * dx <= 0xffff_ffff_ffff_ffff * 0xffff_ffff_ffff_ffff
            && dy * dy <= 0xffff_ffff_ffff_ffff * 0xffff_ffff_ffff_ffff) by (nonlinear_arith)
            requires
                0 <= dx <= 0xffff_ffff_ffff_ffff,
                0 <= dy <= 0xffff_ffff_ffff_ffff,
        ;
        assert(dx * dx == square(self.x - other.x) && dy * dy == square(self.y - other.y))
            by (nonlinear_arith)
            requires
                dx == self.x - other.x || dx == -(self.x - other.x),
                dy == self.y - other.y || dy == -(self.y - other.y),
        ;
        proof {
            lemma_isqrt_below(self.distance_squared(*other), 0x1_0000_0000_0000_0000);
        }
        match (dx * dx).checked_add(dy * dy) {
            Some(sum) => integer_sqrt(sum),
            None => u64::MAX,
        }
    }

    /// The vector turned by `angle` microradians, from the first axis
    /// toward the second.
    pub fn rotate(&self, angle: i64) -> (v: Self)
        ensures
            v == self.rotate_spec(angle as int),
    {
        let unit = Self::unit(angle);
        let cos_theta = unit.x;
        let sin_theta = unit.y;
        let xc = wide_product(self.x, cos_theta);
        let ys = wide_product(self.y, sin_theta);
        let xs = wide_product(self.x, sin_theta);
        let yc = wide_product(self.y, cos_theta);
        proof {
            lemma_thousandfold(self.x as int, cos_theta as int);
            lemma_thousandfold(self.y as int, sin_theta as int);
            lemma_thousandfold(self.x as int, sin_theta as int);
            lemma_thousandfold(self.y as int, cos_theta as int);
        }
        Self {
            x: saturate(quotient(xc - ys, UNIT as i128)),
            y: saturate(quotient(xs + yc, UNIT as i128)),
        }
    }
}

/// The absolute difference of two `i64` values.
fn gap(a: i64, b: i64) -> (r: u128)
    ensures
        r == a - b || r == -(a - b),
        0 <= r <= 0xffff_ffff_ffff_ffff,
{
    let d: i128 = a as i128 - b as i128;
    if d < 0 {
        (-d) as u128
    } else {
        d as u128
    }
}

/// A product with a factor of at most a thousand stays well inside `i128`.
proof fn lemma_thousandfold(v: int, k: int)
    requires
        -0x8000_0000_0000_0000 <= v <= 0x8000_0000_0000_0000,
        -1000 <= k <= 1000,
    ensures
        -1000 * 0x8000_0000_0000_0000 <= v * k <= 1000 * 0x8000_0000_0000_0000,
{
    assert(-1000 * 0x8000_0000_0000_0000 <= v * k <= 1000 * 0x8000_0000_0000_0000)
        by (nonlinear_arith)
        requires
            -0x8000_0000_0000_0000 <= v <= 0x8000_0000_0000_0000,
            -1000 <= k <= 1000,
    ;
}

/// `v` without its sign.
pub open spec fn magnitude(v: int) -> int {
    if v < 0 {
        -v
    } else {
        v
    }
}

/// A quotient of numbers that are not negative, times the divisor, is the
/// dividend or less, by less than the divisor.
proof fn lemma_floor_bracket(n: int, d: int)
    requires
        n >= 0,
        d > 0,
    ensures
        0 <= n / d,
        (n / d) * d <= n < (n / d + 1) * d,
{
    vstd::arithmetic::div_mod::lemma_fundamental_div_mod(n, d);
    vstd::arithmetic::div_mod::lemma_mod_bound(n, d);
    vstd::arithmetic::div_mod::lemma_div_pos_is_pos(n, d);
    assert((n / d) * d == d * (n / d)) by (nonlinear_arith);
    assert((n / d + 1) * d == d * (n / d) + d) by (nonlinear_arith);
}

/// Of two numbers that are not negative, the one with the smaller square is
/// the smaller.
pub proof fn lemma_square_order(p: int, q: int)
    requires
        0 <= p,
        0 <= q,
        p * p < q * q,
    ensures
        p < q,
{
    if p >= q {
        assert(p * p >= q * q) by (nonlinear_arith)
            requires
                p >= q,
                q >= 0,
        ;
    }
}

proof fn lemma_square_le(p: int, q: int)
    requires
        0 <= p <= q,
    ensures
        p * p <= q * q,
{
    assert(p * p <= q * q) by (nonlinear_arith)
        requires
            0 <= p <= q,
    ;
}

proof fn lemma_square_lt(p: int, q: int)
    requires
        0 <= p < q,
    ensures
        p * p < q * q,
{
    assert(p * p < q * q) by (nonlinear_arith)
        requires
            0 <= p < q,
    ;
}

/// The square of a product is the product of the squares.
proof fn lemma_product_square(u: int, v: int)
    ensures
        (u * v) * (u * v) == (u * u) * (v * v),
{
    assert((u * v) * (u * v) == (u * u) * (v * v)) by (nonlinear_arith);
}

/// (x l k)^2 + (y l k)^2 = (x^2 + y^2) k^2 l^2
proof fn lemma_scaled_squares(xa: int, ya: int, l: int, k: int)
    ensures
        (xa * l * k) * (xa * l * k) + (ya * l * k) * (ya * l * k) == ((xa * xa + ya * ya) * (k * k)) * (l
            * l),
{
    let t = l * k;
    let tt = t * t;
    assert(xa * l * k == xa * t && ya * l * k == ya * t) by (nonlinear_arith)
        requires
            t == l * k,
    ;
    lemma_product_square(xa, t);
    lemma_product_square(ya, t);
    lemma_product_square(l, k);
    let kk = k * k;
    let ll = l * l;
    assert(tt == ll * kk);
    let sx = xa * xa;
    let sy = ya * ya;
    assert(sx * tt + sy * tt == (sx + sy) * tt) by (nonlinear_arith);
    assert((sx + sy) * (ll * kk) == ((sx + sy) * kk) * ll) by (nonlinear_arith);
}

/// What dividing by a root does to a vector. Let `r` be the root, rounded
/// down, of the squared length of `(x, y)` times `k * k`, and let it be at
/// least `FINE`. Then each component times `l * k`, divided by `r`, is at
/// most `l` in size; and for `l` from 9 up to, not including,
/// `LENGTH_LIMIT`, the two quotients make a vector that is shorter than `l`
/// by less than 2 and longer by less than 1.
proof fn lemma_resize_bounds(x: int, y: int, l: int, k: int, r: int)
    requires
        x != 0 || y != 0,
        k >= 1,
        r >= FINE,
        r * r <= (x * x + y * y) * (k * k) < (r + 1) * (r + 1),
    ensures
        magnitude(div_toward_zero(x * l * k, r)) <= magnitude(l),
        magnitude(div_toward_zero(y * l * k, r)) <= magnitude(l),
        9 <= l < LENGTH_LIMIT ==> {
            let a = div_toward_zero(x * l * k, r);
            let b = div_toward_zero(y * l * k, r);
            (l - 2) * (l - 2) < a * a + b * b < (l + 1) * (l + 1)
        },
{
    let s = x * x + y * y;
    let xa = magnitude(x);
    let ya = magnitude(y);
    let la = magnitude(l);
    let nx = xa * la * k;
    let ny = ya * la * k;
    assert(nx >= 0 && ny >= 0) by (nonlinear_arith)
        requires
            nx == xa * la * k,
            ny == ya * la * k,
            xa >= 0,
            ya >= 0,
            la >= 0,
            k >= 1,
    ;
    assert(magnitude(x * l * k) == nx && magnitude(y * l * k) == ny) by (nonlinear_arith)
        requires
            nx == xa * la * k,
            ny == ya * la * k,
            xa == magnitude(x),
            ya == magnitude(y),
            la == magnitude(l),
            k >= 1,
    ;
    lemma_floor_bracket(nx, r);
    lemma_floor_bracket(ny, r);
    let a = nx / r;
    let b = ny / r;
    assert(magnitude(div_toward_zero(x * l * k, r)) == a);
    assert(magnitude(div_toward_zero(y * l * k, r)) == b);
    // no component times the scale is longer than the root
    assert(xa * k <= r && ya * k <= r) by {
        assert((xa * k) * (xa * k) <= s * (k * k) && (ya * k) * (ya * k) <= s * (k * k))
            by (nonlinear_arith)
            requires
                s == x * x + y * y,
                xa == magnitude(x),
                ya == magnitude(y),
        ;
        assert(xa * k >= 0 && ya * k >= 0) by (nonlinear_arith)
            requires
                xa >= 0,
                ya >= 0,
                k >= 1,
        ;
        lemma_square_order(xa * k, r + 1);
        lemma_square_order(ya * k, r + 1);
    }
    assert(a <= la && b <= la) by (nonlinear_arith)
        requires
            a * r <= nx,
            b * r <= ny,
            nx == xa * la * k,
            ny == ya * la * k,
            xa * k <= r,
            ya * k <= r,
            la >= 0,
            r > 0,
            a >= 0,
            b >= 0,
    ;
    if 9 <= l < LENGTH_LIMIT {
        let m = a * a + b * b;
        assert(xa * xa + ya * ya == s && s >= 1) by (nonlinear_arith)
            requires
                s == x * x + y * y,
                xa == magnitude(x),
                ya == magnitude(y),
                x != 0 || y != 0,
        ;
        lemma_scaled_squares(xa, ya, l, k);
        let whole = (s * (k * k)) * (l * l);
        assert(nx * nx + ny * ny == whole);
        // above: (a r)^2 + (b r)^2 <= s k^2 l^2 < (r + 1)^2 l^2
        assert(a * r >= 0 && b * r >= 0) by (nonlinear_arith)
            requires
                a >= 0,
                b >= 0,
                r > 0,
        ;
        lemma_square_le(a * r, nx);
        lemma_square_le(b * r, ny);
        assert(m * (r * r) == (a * r) * (a * r) + (b * r) * (b * r)) by (nonlinear_arith)
            requires
                m == a * a + b * b,
        ;
        assert(m * (r * r) <= whole);
        assert(whole < ((r + 1) * (r + 1)) * (l * l)) by (nonlinear_arith)
            requires
                whole == (s * (k * k)) * (l * l),
                s * (k * k) < (r + 1) * (r + 1),
                l >= 9,
        ;
        if m >= (l + 1) * (l + 1) {
            assert(((l + 1) * r) * ((l + 1) * r) < ((r + 1) * l) * ((r + 1) * l)) by (nonlinear_arith)
                requires
                    m >= (l + 1) * (l + 1),
                    m * (r * r) < ((r + 1) * (r + 1)) * (l * l),
                    r > 0,
            ;
            assert((l + 1) * r >= 0 && (r + 1) * l >= 0) by (nonlinear_arith)
                requires
                    l >= 9,
                    r > 0,
            ;
            lemma_square_order((l + 1) * r, (r + 1) * l);
            assert(false) by (nonlinear_arith)
                requires
                    (l + 1) * r < (r + 1) * l,
                    r >= 0x10_0000,
                    l < 0x8_0000,
            ;
        }
        // below: ((a + 1) r)^2 + ((b + 1) r)^2 > s k^2 l^2 >= r^2 l^2
        lemma_square_lt(nx, (a + 1) * r);
        lemma_square_lt(ny, (b + 1) * r);
        let up = (a + 1) * (a + 1) + (b + 1) * (b + 1);
        assert(up * (r * r) == ((a + 1) * r) * ((a + 1) * r) + ((b + 1) * r) * ((b + 1) * r))
            by (nonlinear_arith)
            requires
                up == (a + 1) * (a + 1) + (b + 1) * (b + 1),
        ;
        assert(up * (r * r) > whole);
        assert(whole >= (r * r) * (l * l)) by (nonlinear_arith)
            requires
                whole == (s * (k * k)) * (l * l),
                s * (k * k) >= r * r,
        ;
        assert(up > l * l) by (nonlinear_arith)
            requires
                up * (r * r) > (r * r) * (l * l),
                r > 0,
        ;
        // a + b is less than one and a half times l + 1
        assert(2 * (a + b) < 3 * (l + 1)) by {
            assert((2 * (a + b)) * (2 * (a + b)) < (3 * (l + 1)) * (3 * (l + 1))) by (nonlinear_arith)
                requires
                    a * a + b * b < (l + 1) * (l + 1),
                    l >= 9,
            ;
            lemma_square_order(2 * (a + b), 3 * (l + 1));
        }
        assert((l - 2) * (l - 2) < m) by (nonlinear_arith)
            requires
                m == a * a + b * b,
                up == (a + 1) * (a + 1) + (b + 1) * (b + 1),
                up > l * l,
                2 * (a + b) < 3 * (l + 1),
                l >= 9,
        ;
        let ra = div_toward_zero(x * l * k, r);
        let rb = div_toward_zero(y * l * k, r);
        assert(ra * ra == a * a && rb * rb == b * b) by (nonlinear_arith)
            requires
                magnitude(ra) == a,
                magnitude(rb) == b,
        ;
    }
}

/// The root that a vector other than zero is measured with is that of its
/// squared length times the square of its scale, and is at least `FINE`.
pub proof fn lemma_fine_length(v: Vector)
    requires
        v.x != 0 || v.y != 0,
    ensures
        v.fine_length() >= FINE,
        v.fine_length() * v.fine_length() <= (v.x * v.x + v.y * v.y) * (v.fine_scale() * v.fine_scale())
            < (v.fine_length() + 1) * (v.fine_length() + 1),
{
    let s = v.length_squared();
    let k = v.fine_scale();
    let n = s * square(k);
    lemma_isqrt_exists(n);
    let r = isqrt(n) as int;
    assert(s == v.x * v.x + v.y * v.y && s >= 1) by (nonlinear_arith)
        requires
            s == square(v.x as int) + square(v.y as int),
            v.x != 0 || v.y != 0,
    ;
    assert(square(k) == k * k);
    assert(n >= 0x100_0000_0000) by (nonlinear_arith)
        requires
            n == s * (k * k),
            s >= 1,
            (k == 0x10_0000) || (k == 1 && s >= 0x1_0000_0000_0000_0000_0000),
    ;
    if r < FINE {
        lemma_square_le(r + 1, FINE as int);
    }
}

/// The components of a vector that is measured with the finer root are
/// below 2^40 in size.
proof fn lemma_short_components(v: Vector)
    requires
        v.length_squared() < LONG,
    ensures
        -0x100_0000_0000 < v.x < 0x100_0000_0000,
        -0x100_0000_0000 < v.y < 0x100_0000_0000,
{
    let x = magnitude(v.x as int);
    let y = magnitude(v.y as int);
    assert(x * x < 0x100_0000_0000 * 0x100_0000_0000 && y * y < 0x100_0000_0000 * 0x100_0000_0000)
        by (nonlinear_arith)
        requires
            v.x * v.x + v.y * v.y < 0x1_0000_0000_0000_0000_0000,
            x == magnitude(v.x as int),
            y == magnitude(v.y as int),
    ;
    lemma_square_order(x, 0x100_0000_0000);
    lemma_square_order(y, 0x100_0000_0000);
}

/// A vector other than zero that is brought to the length `length` has no
/// component longer than `length`. If `length` is from 9 up to, not
/// including, `LENGTH_LIMIT`, the result is shorter than `length` by less
/// than two thousandths and longer by less than one, however short or long
/// the vector was.
pub proof fn lemma_with_length(v: Vector, length: int)
    requires
        v.x != 0 || v.y != 0,
    ensures
        magnitude(v.with_length_spec(length).x as int) <= magnitude(length),
        magnitude(v.with_length_spec(length).y as int) <= magnitude(length),
        9 <= length < LENGTH_LIMIT ==> square(length - 2) < v.with_length_spec(length).length_squared()
            < square(length + 1),
        9 <= length < LENGTH_LIMIT ==> (v.with_length_spec(length).x != 0 || v.with_length_spec(
            length,
        ).y != 0),
{
    lemma_fine_length(v);
    let k = v.fine_scale();
    let r = v.fine_length() as int;
    lemma_resize_bounds(v.x as int, v.y as int, length, k, r);
    let a = div_toward_zero(v.x * length * k, r);
    let b = div_toward_zero(v.y * length * k, r);
    let w = v.with_length_spec(length);
    assert(magnitude(clamp_i64(a)) <= magnitude(a) && magnitude(clamp_i64(b)) <= magnitude(b));
    if 9 <= length < LENGTH_LIMIT {
        assert(w.x == a && w.y == b);
        assert(square(length - 2) == (length - 2) * (length - 2) && square(length + 1) == (length + 1)
            * (length + 1) && w.length_squared() == a * a + b * b) by (nonlinear_arith)
            requires
                length >= 9,
                w.length_squared() == square(a) + square(b),
        ;
        assert((length - 2) * (length - 2) >= 49) by (nonlinear_arith)
            requires
                length >= 9,
        ;
        if w.x == 0 && w.y == 0 {
            assert(a * a + b * b == 0) by (nonlinear_arith)
                requires
                    a == 0,
                    b == 0,
            ;
        }
    }
}

/// Turning one vector by another multiplies their lengths: for the vector
/// `(a c - b d, a d + b c)` made of `(a, b)` and `(c, d)`, the squared
/// length is the product of the squared lengths.
pub proof fn lemma_product_lengths(a: int, b: int, c: int, d: int)
    ensures
        (a * c - b * d) * (a * c - b * d) + (a * d + b * c) * (a * d + b * c) == (a * a + b * b) * (c * c
            + d * d),
{
    let ac = a * c;
    let bd = b * d;
    let ad = a * d;
    let bc = b * c;
    let x = ac - bd;
    let y = ad + bc;
    assert(x * x + y * y == ac * ac + bd * bd + ad * ad + bc * bc - 2 * (ac * bd) + 2 * (ad * bc))
        by (nonlinear_arith)
        requires
            x == ac - bd,
            y == ad + bc,
    ;
    assert(ac * bd == ad * bc) by (nonlinear_arith)
        requires
            ac == a * c,
            bd == b * d,
            ad == a * d,
            bc == b * c,
    ;
    lemma_product_square(a, c);
    lemma_product_square(b, d);
    lemma_product_square(a, d);
    lemma_product_square(b, c);
    let aa = a * a;
    let bb = b * b;
    let cc = c * c;
    let dd = d * d;
    assert((aa + bb) * (cc + dd) == aa * cc + bb * dd + aa * dd + bb * cc) by (nonlinear_arith);
}

/// A vector that is turned keeps its length to within two thousandths of
/// it and the rounding of its components: the turned vector is less than
/// 1.001 times as long, and with each component one thousandth longer it is
/// more than 0.998 times as long. This holds of every vector whose
/// components are below 2^60 in size, and so are not held back at the end
/// of the range.
pub proof fn lemma_rotate_size(v: Vector, angle: int)
    requires
        v.x != 0 || v.y != 0,
        -0x1000_0000_0000_0000 <= v.x <= 0x1000_0000_0000_0000,
        -0x1000_0000_0000_0000 <= v.y <= 0x1000_0000_0000_0000,
    ensures
        1_000_000 * v.rotate_spec(angle).length_squared() < 1_002_001 * v.length_squared(),
        1_000_000 * (square(magnitude(v.rotate_spec(angle).x as int) + 1) + square(
            magnitude(v.rotate_spec(angle).y as int) + 1,
        )) > 996_004 * v.length_squared(),
{
    let unit = Vector::unit_spec(angle);
    lemma_sin_cos_apart(angle);
    lemma_sin_cos_bounds(angle);
    lemma_with_length(Vector::bearing_spec(angle), UNIT as int);
    let c = unit.x as int;
    let d = unit.y as int;
    let x = v.x * c - v.y * d;
    let y = v.x * d + v.y * c;
    let s = v.x * v.x + v.y * v.y;
    let n = c * c + d * d;
    lemma_product_lengths(v.x as int, v.y as int, c, d);
    assert(x * x + y * y == s * n);
    assert(996_004 < n < 1_002_001 && unit.length_squared() == n) by (nonlinear_arith)
        requires
            square(UNIT - 2) < unit.length_squared() < square(UNIT + 1),
            unit.length_squared() == square(c) + square(d),
            n == c * c + d * d,
    ;
    assert(s >= 1 && v.length_squared() == s) by (nonlinear_arith)
        requires
            v.length_squared() == square(v.x as int) + square(v.y as int),
            s == v.x * v.x + v.y * v.y,
            v.x != 0 || v.y != 0,
    ;
    assert(-0x2000_0000_0000_0000 * 1000 <= x <= 0x2000_0000_0000_0000 * 1000 && -0x2000_0000_0000_0000
        * 1000 <= y <= 0x2000_0000_0000_0000 * 1000) by (nonlinear_arith)
        requires
            x == v.x * c - v.y * d,
            y == v.x * d + v.y * c,
            -0x1000_0000_0000_0000 <= v.x <= 0x1000_0000_0000_0000,
            -0x1000_0000_0000_0000 <= v.y <= 0x1000_0000_0000_0000,
            -1000 <= c <= 1000,
            -1000 <= d <= 1000,
    ;
    let xa = magnitude(x);
    let ya = magnitude(y);
    lemma_floor_bracket(xa, 1000);
    lemma_floor_bracket(ya, 1000);
    let a = xa / 1000;
    let b = ya / 1000;
    let w = v.rotate_spec(angle);
    assert(magnitude(w.x as int) == a && magnitude(w.y as int) == b);
    assert(xa * xa + ya * ya == s * n) by (nonlinear_arith)
        requires
            x * x + y * y == s * n,
            xa == magnitude(x),
            ya == magnitude(y),
    ;
    lemma_square_le(a * 1000, xa);
    lemma_square_le(b * 1000, ya);
    lemma_square_lt(xa, (a + 1) * 1000);
    lemma_square_lt(ya, (b + 1) * 1000);
    assert(1_000_000 * w.length_squared() == (a * 1000) * (a * 1000) + (b * 1000) * (b * 1000))
        by (nonlinear_arith)
        requires
            w.length_squared() == square(w.x as int) + square(w.y as int),
            magnitude(w.x as int) == a,
            magnitude(w.y as int) == b,
    ;
    assert(1_000_000 * (square(a + 1) + square(b + 1)) == ((a + 1) * 1000) * ((a + 1) * 1000) + ((b
        + 1) * 1000) * ((b + 1) * 1000)) by (nonlinear_arith)
        requires
            a >= 0,
            b >= 0,
    ;
    assert(s * n < 1_002_001 * s && s * n > 996_004 * s) by (nonlinear_arith)
        requires
            s >= 1,
            996_004 < n < 1_002_001,
    ;
}

} // verus!
