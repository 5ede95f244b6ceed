use fixed::{types::extra::U7, FixedI32};
use vstd::arithmetic::div_mod::lemma_fundamental_div_mod;
use vstd::prelude::*;

verus! {

/// The raw value of one whole unit.
pub const ONE_BITS: i32 = 128;

/// Whether a mathematical value is representable as the raw bits of a `Fi32`.
pub open spec fn fits(v: int) -> bool {
    i32::MIN <= v <= i32::MAX
}

/// Raw bits of the product of two fixed-point values, rounded down.
pub open spec fn mul_spec(a: int, b: int) -> int {
    (a * b) / 128
}

/// Raw bits of the quotient of two fixed-point values, rounded toward zero.
pub open spec fn div_spec(a: int, b: int) -> int {
    let q = abs(128 * a) / abs(b);
    if (a < 0) != (b < 0) && a != 0 {
        -q
    } else {
        q
    }
}

pub open spec fn abs(a: int) -> int {
    if a < 0 {
        -a
    } else {
        a
    }
}

/// `r` is the fixed-point square root of `v`, rounded down:
/// r / 128 <= sqrt(v / 128) < (r + 1) / 128.
pub open spec fn is_root(v: int, r: int) -> bool {
    0 <= r && r * r <= 128 * v < (r + 1) * (r + 1)
}

/// The fixed-point square root of `v`.
pub open spec fn root_of(v: int) -> int {
    choose|r: int| #[trigger] is_root(v, r)
}

pub proof fn lemma_root_unique(v: int, r1: int, r2: int)
    requires
        is_root(v, r1),
        is_root(v, r2),
    ensures
        r1 == r2,
{
    if r1 < r2 {
        assert((r1 + 1) * (r1 + 1) <= r2 * r2) by (nonlinear_arith)
            requires
                0 <= r1 + 1 <= r2,
        ;
    } else if r2 < r1 {
        assert((r2 + 1) * (r2 + 1) <= r1 * r1) by (nonlinear_arith)
            requires
                0 <= r2 + 1 <= r1,
        ;
    }
}

/// A root, once one is known, is the one `root_of` names.
pub proof fn lemma_root_of(v: int, r: int)
    requires
        is_root(v, r),
    ensures
        root_of(v) == r,
{
    assert(exists|x: int| #[trigger] is_root(v, x));
    lemma_root_unique(v, r, root_of(v));
}

/// Relies on `FixedI32::<U7>`'s `Mul`: the wide product shifted right by the
/// fractional bits (rounded down); it panics exactly when that does not fit.
#[verifier::external_body]
fn fixed_mul(a: i32, b: i32) -> (r: i32)
    requires
        fits(mul_spec(a as int, b as int)),
    ensures
        r as int == mul_spec(a as int, b as int),
{
    (FixedI32::<U7>::from_bits(a) * FixedI32::<U7>::from_bits(b)).to_bits()
}

/// Relies on `FixedI32::<U7>`'s `Div`: the dividend widened and shifted left by
/// the fractional bits, divided with truncation toward zero; it panics on a zero
/// divisor or when the quotient does not fit.
#[verifier::external_body]
fn fixed_div(a: i32, b: i32) -> (r: i32)
    requires
        b != 0,
        fits(div_spec(a as int, b as int)),
    ensures
        r as int == div_spec(a as int, b as int),
{
    (FixedI32::<U7>::from_bits(a) / FixedI32::<U7>::from_bits(b)).to_bits()
}

/// Relies on `FixedI32::<U7>::sqrt`: result <= sqrt(self) < result + DELTA;
/// it panics on a negative argument.
#[verifier::external_body]
fn fixed_sqrt(a: i32) -> (r: i32)
    requires
        a >= 0,
    ensures
        is_root(a as int, r as int),
{
    FixedI32::<U7>::from_bits(a).sqrt().to_bits()
}

/// Tells whether a value computed in 64 bits is representable as the raw bits
/// of a `Fi32`.
pub fn fits_wide(v: i64) -> (r: bool)
    ensures
        r == fits(v as int),
{
    i32::MIN as i64 <= v && v <= i32::MAX as i64
}

/// Raw bits of `d * d` computed in fixed point, for `d` in range.
pub fn sq_wide(d: i64) -> (r: u64)
    requires
        fits(d as int),
    ensures
        r as int == mul_spec(d as int, d as int),
        r <= 0x80_0000_0000_0000,
{
    let u: u64 = if d < 0 {
        (-d) as u64
    } else {
        d as u64
    };
    assert(u * u <= 0x4000_0000_0000_0000) by (nonlinear_arith)
        requires
            u <= 0x8000_0000,
    ;
    assert(u as int * u as int == d as int * d as int) by (nonlinear_arith)
        requires
            u as int == d as int || u as int == -(d as int),
    ;
    (u * u) / 128
}

/// A signed fixed-point number with 7 fractional bits: the value is `bits / 128`.
#[derive(Clone, Copy, Debug, PartialEq, Eq, Structural, Hash)]
pub struct Fi32 {
    pub bits: i32,
}

impl View for Fi32 {
    type V = int;

    /// The raw bits as a mathematical integer.
    open spec fn view(&self) -> int {
        self.bits as int
    }
}

impl Fi32 {
    pub fn from_bits(bits: i32) -> (r: Fi32)
        ensures
            r@ == bits as int,
    {
        Fi32 { bits }
    }

    pub fn to_bits(self) -> (r: i32)
        ensures
            r as int == self@,
    {
        self.bits
    }

    /// The whole number `n`.
    pub fn from_int(n: i32) -> (r: Fi32)
        requires
            fits(n * 128),
        ensures
            r@ == n * 128,
    {
        Fi32 { bits: n * ONE_BITS }
    }

    pub fn zero() -> (r: Fi32)
        ensures
            r@ == 0,
    {
        Fi32 { bits: 0 }
    }

    pub fn is_zero(self) -> (r: bool)
        ensures
            r == (self@ == 0),
    {
        self.bits == 0
    }

    pub fn is_positive(self) -> (r: bool)
        ensures
            r == (self@ > 0),
    {
        self.bits > 0
    }

    pub fn is_negative(self) -> (r: bool)
        ensures
            r == (self@ < 0),
    {
        self.bits < 0
    }

    pub fn lt(self, o: Fi32) -> (r: bool)
        ensures
            r == (self@ < o@),
    {
        self.bits < o.bits
    }

    pub fn add(self, o: Fi32) -> (r: Fi32)
        requires
            fits(self@ + o@),
        ensures
            r@ == self@ + o@,
    {
        Fi32 { bits: self.bits + o.bits }
    }

    pub fn sub(self, o: Fi32) -> (r: Fi32)
        requires
            fits(self@ - o@),
        ensures
            r@ == self@ - o@,
    {
        Fi32 { bits: self.bits - o.bits }
    }

    pub fn neg(self) -> (r: Fi32)
        requires
            self@ != i32::MIN,
        ensures
            r@ == -self@,
    {
        Fi32 { bits: -self.bits }
    }

    pub fn mul(self, o: Fi32) -> (r: Fi32)
        requires
            fits(mul_spec(self@, o@)),
        ensures
            r@ == mul_spec(self@, o@),
    {
        Fi32 { bits: fixed_mul(self.bits, o.bits) }
    }

    pub fn div(self, o: Fi32) -> (r: Fi32)
        requires
            o@ != 0,
            fits(div_spec(self@, o@)),
        ensures
            r@ == div_spec(self@, o@),
    {
        Fi32 { bits: fixed_div(self.bits, o.bits) }
    }

    pub fn sqrt(self) -> (r: Fi32)
        requires
            self@ >= 0,
        ensures
            r@ == root_of(self@),
            is_root(self@, r@),
    {
        let r = fixed_sqrt(self.bits);
        proof {
            lemma_root_of(self@, r as int);
        }
        Fi32 { bits: r }
    }

    pub fn min(self, o: Fi32) -> (r: Fi32)
        ensures
            r@ == if self@ <= o@ {
                self@
            } else {
                o@
            },
    {
        if self.bits <= o.bits {
            self
        } else {
            o
        }
    }

    /// `self` restricted to `[lo, hi]`.
    pub fn clamp(self, lo: Fi32, hi: Fi32) -> (r: Fi32)
        requires
            lo@ <= hi@,
        ensures
            r@ == clamp_spec(self@, lo@, hi@),
    {
        if self.bits < lo.bits {
            lo
        } else if self.bits > hi.bits {
            hi
        } else {
            self
        }
    }
}

pub open spec fn clamp_spec(v: int, lo: int, hi: int) -> int {
    if v < lo {
        lo
    } else if v > hi {
        hi
    } else {
        v
    }
}

/// Raw bits of `x*x + y*y` computed in fixed point.
pub open spec fn sq_len(x: int, y: int) -> int {
    mul_spec(x, x) + mul_spec(y, y)
}

/// Raw bits of the dot product of `(ax, ay)` and `(bx, by)` computed in fixed point.
pub open spec fn dot_spec(ax: int, ay: int, bx: int, by: int) -> int {
    mul_spec(ax, bx) + mul_spec(ay, by)
}

/// One component of the fixed-point normalization of `(x, y)`: the component
/// divided by the rounded length, or zero where that length is zero.
pub open spec fn unit_part(c: int, x: int, y: int) -> int {
    let l = root_of(sq_len(x, y));
    if l == 0 {
        0
    } else {
        div_spec(c, l)
    }
}

/// Largest magnitude, in raw bits, of a component of a normalized vector.
pub const UNIT_BOUND: i32 = 256;

pub proof fn lemma_sq_floor(x: int)
    ensures
        128 * mul_spec(x, x) >= x * x - 127,
        mul_spec(x, x) >= 0,
        mul_spec(x, x) == mul_spec(-x, -x),
{
    assert(x * x >= 0) by (nonlinear_arith);
    assert((-x) * (-x) == x * x) by (nonlinear_arith);
    lemma_fundamental_div_mod(x * x, 128);
}

/// A component divided by a rounded length that is at least half of it.
proof fn lemma_div_small(c: int, l: int)
    requires
        l > 0,
        abs(c) <= 2 * l,
    ensures
        abs(div_spec(c, l)) <= UNIT_BOUND,
{
    let q = abs(128 * c) / l;
    lemma_fundamental_div_mod(abs(128 * c), l);
    assert(q <= 256) by (nonlinear_arith)
        requires
            l > 0,
            abs(128 * c) == l * q + abs(128 * c) % l,
            0 <= abs(128 * c) % l,
            abs(128 * c) <= 256 * l,
    ;
    assert(q >= 0) by (nonlinear_arith)
        requires
            l > 0,
            abs(128 * c) == l * q + abs(128 * c) % l,
            abs(128 * c) % l < l,
            abs(128 * c) >= 0,
    ;
}

/// Each component of a normalized vector has magnitude at most `UNIT_BOUND`.
pub proof fn lemma_unit_bound(c: int, x: int, y: int)
    requires
        c == x || c == y,
    ensures
        abs(unit_part(c, x, y)) <= UNIT_BOUND,
{
    let v = sq_len(x, y);
    let l = root_of(v);
    if l != 0 {
        lemma_sq_floor(x);
        lemma_sq_floor(y);
        assert(128 * v >= c * c - 127);
        assert(v >= 0);
        assert(exists|r: int| #[trigger] is_root(v, r)) by {
            lemma_root_exists(v);
        }
        assert(is_root(v, l));
        assert(abs(c) <= 2 * l) by (nonlinear_arith)
            requires
                l > 0,
                l * l <= 128 * v,
                128 * v < (l + 1) * (l + 1),
                128 * v >= c * c - 127,
        ;
        lemma_div_small(c, l);
    }
}

/// Every non-negative value has a fixed-point square root.
pub proof fn lemma_root_exists(v: int)
    requires
        v >= 0,
    ensures
        exists|r: int| #[trigger] is_root(v, r),
{
    let r = lemma_int_root(128 * v);
    assert(is_root(v, r));
}

/// Every non-negative integer `n` has an integer root `r`: r*r <= n < (r+1)*(r+1).
proof fn lemma_int_root(n: int) -> (r: int)
    requires
        n >= 0,
    ensures
        0 <= r && r * r <= n < (r + 1) * (r + 1),
    decreases n,
{
    if n == 0 {
        0
    } else {
        let r = lemma_int_root(n - 1);
        if (r + 1) * (r + 1) <= n {
            assert(n < (r + 2) * (r + 2)) by (nonlinear_arith)
                requires
                    n - 1 < (r + 1) * (r + 1),
                    r >= 0,
            ;
            r + 1
        } else {
            r
        }
    }
}

/// Normalizing the opposite vector gives the opposite unit vector.
pub proof fn lemma_unit_part_neg(x: int, y: int)
    ensures
        unit_part(-x, -x, -y) == -unit_part(x, x, y),
        unit_part(-y, -x, -y) == -unit_part(y, x, y),
{
    lemma_sq_floor(x);
    lemma_sq_floor(y);
    assert(sq_len(-x, -y) == sq_len(x, y));
    assert(abs(128 * -x) == abs(128 * x));
    assert(abs(128 * -y) == abs(128 * y));
}

/// A 2D vector of fixed-point numbers.
#[derive(Clone, Copy, Debug, PartialEq, Eq, Structural, Hash)]
pub struct PointFi32 {
    pub x: Fi32,
    pub y: Fi32,
}

impl PointFi32 {
    pub fn new(x: Fi32, y: Fi32) -> (r: PointFi32)
        ensures
            r == (PointFi32 { x, y }),
    {
        PointFi32 { x, y }
    }

    pub fn zero() -> (r: PointFi32)
        ensures
            r.x@ == 0 && r.y@ == 0,
    {
        PointFi32 { x: Fi32::zero(), y: Fi32::zero() }
    }

    /// The point moved by `(dx, dy)`.
    pub fn offset(&self, dx: Fi32, dy: Fi32) -> (r: PointFi32)
        requires
            fits(self.x@ + dx@),
            fits(self.y@ + dy@),
        ensures
            r.x@ == self.x@ + dx@,
            r.y@ == self.y@ + dy@,
    {
        PointFi32 { x: self.x.add(dx), y: self.y.add(dy) }
    }

    pub fn dot(&self, other: PointFi32) -> (r: Fi32)
        requires
            fits(mul_spec(self.x@, other.x@)),
            fits(mul_spec(self.y@, other.y@)),
            fits(dot_spec(self.x@, self.y@, other.x@, other.y@)),
        ensures
            r@ == dot_spec(self.x@, self.y@, other.x@, other.y@),
    {
        self.x.mul(other.x).add(self.y.mul(other.y))
    }

    /// The vector divided by its length, or the zero vector where that length
    /// rounds to zero.
    pub fn normalize(self) -> (r: PointFi32)
        requires
            fits(sq_len(self.x@, self.y@)),
        ensures
            r.x@ == unit_part(self.x@, self.x@, self.y@),
            r.y@ == unit_part(self.y@, self.x@, self.y@),
            abs(r.x@) <= UNIT_BOUND,
            abs(r.y@) <= UNIT_BOUND,
    {
        proof {
            lemma_sq_floor(self.x@);
            lemma_sq_floor(self.y@);
            lemma_unit_bound(self.x@, self.x@, self.y@);
            lemma_unit_bound(self.y@, self.x@, self.y@);
        }
        let xx = self.x.mul(self.x);
        let yy = self.y.mul(self.y);
        let l = xx.add(yy).sqrt();
        if l.is_zero() {
            return PointFi32::zero();
        }
        PointFi32 { x: self.x.div(l), y: self.y.div(l) }
    }

    pub fn neg(self) -> (r: PointFi32)
        requires
            self.x@ != i32::MIN,
            self.y@ != i32::MIN,
        ensures
            r.x@ == -self.x@,
            r.y@ == -self.y@,
    {
        PointFi32 { x: self.x.neg(), y: self.y.neg() }
    }

    pub fn add(self, other: PointFi32) -> (r: PointFi32)
        requires
            fits(self.x@ + other.x@),
            fits(self.y@ + other.y@),
        ensures
            r.x@ == self.x@ + other.x@,
            r.y@ == self.y@ + other.y@,
    {
        PointFi32 { x: self.x.add(other.x), y: self.y.add(other.y) }
    }

    pub fn add_assign(&mut self, other: PointFi32)
        requires
            fits(old(self).x@ + other.x@),
            fits(old(self).y@ + other.y@),
        ensures
            final(self).x@ == old(self).x@ + other.x@,
            final(self).y@ == old(self).y@ + other.y@,
    {
        self.x = self.x.add(other.x);
        self.y = self.y.add(other.y);
    }

    pub fn sub(self, other: PointFi32) -> (r: PointFi32)
        requires
            fits(self.x@ - other.x@),
            fits(self.y@ - other.y@),
        ensures
            r.x@ == self.x@ - other.x@,
            r.y@ == self.y@ - other.y@,
    {
        PointFi32 { x: self.x.sub(other.x), y: self.y.sub(other.y) }
    }

    pub fn sub_assign(&mut self, other: PointFi32)
        requires
            fits(old(self).x@ - other.x@),
            fits(old(self).y@ - other.y@),
        ensures
            final(self).x@ == old(self).x@ - other.x@,
            final(self).y@ == old(self).y@ - other.y@,
    {
        self.x = self.x.sub(other.x);
        self.y = self.y.sub(other.y);
    }

    /// Both components multiplied by `rhs`.
    pub fn mul(self, rhs: Fi32) -> (r: PointFi32)
        requires
            fits(mul_spec(self.x@, rhs@)),
            fits(mul_spec(self.y@, rhs@)),
        ensures
            r.x@ == mul_spec(self.x@, rhs@),
            r.y@ == mul_spec(self.y@, rhs@),
    {
        PointFi32 { x: self.x.mul(rhs), y: self.y.mul(rhs) }
    }

    pub fn mul_assign(&mut self, rhs: Fi32)
        requires
            fits(mul_spec(old(self).x@, rhs@)),
            fits(mul_spec(old(self).y@, rhs@)),
        ensures
            final(self).x@ == mul_spec(old(self).x@, rhs@),
            final(self).y@ == mul_spec(old(self).y@, rhs@),
    {
        self.x = self.x.mul(rhs);
        self.y = self.y.mul(rhs);
    }
}

} // verus!
