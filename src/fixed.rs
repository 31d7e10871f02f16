use vstd::prelude::*;

verus! {

/// Number of fractional bits of the fixed-point representation.
pub const FRAC_BITS: u32 = 8;

/// The raw value of one unit (`1 << FRAC_BITS`).
pub const ONE_RAW: i32 = 256;

/// Two's-complement wrap of an integer into the `i32` range.
pub open spec fn wrap(x: int) -> i32 {
    vstd::wrapping::i32_specs::signed_crop(x)
}

/// Wrapping leaves a value already in the `i32` range unchanged.
pub proof fn lemma_wrap_small(x: int)
    requires
        i32::MIN <= x <= i32::MAX,
    ensures
        wrap(x) == x,
{
    if x >= 0 {
        assert(x % 0x1_0000_0000 == x);
    } else {
        assert(x % 0x1_0000_0000 == x + 0x1_0000_0000);
    }
}

/// Raw result of the fixed-point product: the exact product shifted right by the
/// fractional bits (rounding towards negative infinity), wrapped into `i32`.
pub open spec fn mul_raw(a: i32, b: i32) -> i32 {
    wrap((a as int * b as int) / 256)
}

/// Raw result of dividing by a positive fixed-point number: the dividend is
/// shifted left by the fractional bits (wrapping) and divided, truncating
/// towards zero.
pub open spec fn div_raw(a: i32, b: i32) -> int
    recommends
        b > 0,
{
    let n = wrap(a as int * 256) as int;
    if n >= 0 {
        n / (b as int)
    } else {
        -((-n) / (b as int))
    }
}

/// Floor of the square root of a non-negative integer.
pub open spec fn is_isqrt(c: int, x: int) -> bool {
    0 <= c && c * c <= x < (c + 1) * (c + 1)
}

/// The integer square root of a non-negative integer.
pub open spec fn isqrt(x: int) -> int {
    choose|c: int| is_isqrt(c, x)
}

/// A signed fixed-point number with 8 fractional bits: the number `raw / 256`.
#[derive(Clone, Copy, Debug, PartialEq, Eq, Structural)]
pub struct Fixed {
    pub raw: i32,
}

/// A two-dimensional vector of fixed-point numbers.
#[derive(Clone, Copy, Debug, PartialEq, Eq, Structural)]
pub struct Vec2 {
    pub x: Fixed,
    pub y: Fixed,
}

/// The fixed-point number with raw value `raw`.
pub open spec fn fx(raw: i32) -> Fixed {
    Fixed { raw }
}

/// The vector with raw components `x` and `y`.
pub open spec fn v2(x: i32, y: i32) -> Vec2 {
    Vec2 { x: Fixed { raw: x }, y: Fixed { raw: y } }
}

/// Sum, wrapping.
pub open spec fn add_spec(a: Fixed, b: Fixed) -> Fixed {
    Fixed { raw: wrap(a.raw + b.raw) }
}

/// Difference, wrapping.
pub open spec fn sub_spec(a: Fixed, b: Fixed) -> Fixed {
    Fixed { raw: wrap(a.raw - b.raw) }
}

/// Negation, wrapping.
pub open spec fn neg_spec(a: Fixed) -> Fixed {
    Fixed { raw: wrap(-a.raw) }
}

/// Product, with 8 fractional bits kept.
pub open spec fn mul_spec(a: Fixed, b: Fixed) -> Fixed {
    Fixed { raw: mul_raw(a.raw, b.raw) }
}

/// Quotient by a positive number.
pub open spec fn div_spec(a: Fixed, b: Fixed) -> Fixed
    recommends
        b.raw > 0,
{
    Fixed { raw: div_raw(a.raw, b.raw) as i32 }
}

/// Square root: the integer square root of the raw value, times 16.
pub open spec fn sqrt_spec(a: Fixed) -> Fixed {
    Fixed { raw: (16 * isqrt(a.raw as int)) as i32 }
}

/// `a` clamped into `lo..=hi`.
pub open spec fn clamp_spec(a: Fixed, lo: Fixed, hi: Fixed) -> Fixed {
    if a.raw < lo.raw {
        lo
    } else if a.raw > hi.raw {
        hi
    } else {
        a
    }
}

/// Absolute value, wrapping.
pub open spec fn abs_spec(a: Fixed) -> Fixed {
    if a.raw < 0 {
        neg_spec(a)
    } else {
        a
    }
}

/// The integer `n` in fixed point, wrapping.
pub open spec fn from_int_spec(n: int) -> Fixed {
    Fixed { raw: wrap(n * 256) }
}

/// Component-wise sum.
pub open spec fn vadd(a: Vec2, b: Vec2) -> Vec2 {
    Vec2 { x: add_spec(a.x, b.x), y: add_spec(a.y, b.y) }
}

/// Component-wise difference.
pub open spec fn vsub(a: Vec2, b: Vec2) -> Vec2 {
    Vec2 { x: sub_spec(a.x, b.x), y: sub_spec(a.y, b.y) }
}

/// Component-wise negation.
pub open spec fn vneg(a: Vec2) -> Vec2 {
    Vec2 { x: neg_spec(a.x), y: neg_spec(a.y) }
}

/// Both components multiplied by `k`.
pub open spec fn vscale(a: Vec2, k: Fixed) -> Vec2 {
    Vec2 { x: mul_spec(a.x, k), y: mul_spec(a.y, k) }
}

/// Both components divided by a positive `k`.
pub open spec fn vdiv(a: Vec2, k: Fixed) -> Vec2
    recommends
        k.raw > 0,
{
    Vec2 { x: div_spec(a.x, k), y: div_spec(a.y, k) }
}

/// Dot product.
pub open spec fn dot_spec(a: Vec2, b: Vec2) -> Fixed {
    add_spec(mul_spec(a.x, b.x), mul_spec(a.y, b.y))
}

/// Squared magnitude.
pub open spec fn mag2_spec(a: Vec2) -> Fixed {
    dot_spec(a, a)
}

/// Relies on `agb_fixnum::Num::<i32, 8>` multiplication, which splits both
/// operands into integral and fractional parts and combines them with wrapping
/// operations: the exact product shifted right by 8 bits, wrapped.
#[verifier::external_body]
fn num_mul(a: i32, b: i32) -> (r: i32)
    ensures
        r == mul_raw(a, b),
{
    (agb_fixnum::Num::<i32, 8>::from_raw(a) * agb_fixnum::Num::<i32, 8>::from_raw(b)).to_raw()
}

/// Relies on `agb_fixnum::Num::<i32, 8>` division: `(a << 8) / b` on the raw
/// values, where `/` is `i32` division (truncating towards zero).
#[verifier::external_body]
fn num_div(a: i32, b: i32) -> (r: i32)
    requires
        b > 0,
    ensures
        r as int == div_raw(a, b),
{
    (agb_fixnum::Num::<i32, 8>::from_raw(a) / agb_fixnum::Num::<i32, 8>::from_raw(b)).to_raw()
}

/// Relies on `agb_fixnum::Num::<i32, 8>::sqrt`, which computes the integer square
/// root of the raw value digit by digit and shifts it left by 4 bits; it panics
/// on a negative number.
#[verifier::external_body]
fn num_sqrt(a: i32) -> (r: i32)
    requires
        a >= 0,
    ensures
        r as int == 16 * isqrt(a as int),
        is_isqrt(r as int / 16, a as int),
{
    agb_fixnum::Num::<i32, 8>::from_raw(a).sqrt().to_raw()
}

/// Relies on `agb_fixnum::Num::<i32, 8>::round`: `(self + 0.5).floor()`, that is
/// the raw value plus 128, shifted right by 8 bits.
#[verifier::external_body]
fn num_round(a: i32) -> (r: i32)
    requires
        a <= i32::MAX - 128,
    ensures
        r as int == (a as int + 128) / 256,
{
    agb_fixnum::Num::<i32, 8>::from_raw(a).round()
}

impl Fixed {
    /// The fixed-point number holding the integer `n` (shifted left, wrapping).
    pub fn new(n: i32) -> (r: Fixed)
        ensures
            r == from_int_spec(n as int),
    {
        Fixed { raw: n.wrapping_mul(ONE_RAW) }
    }

    pub fn from_raw(raw: i32) -> (r: Fixed)
        ensures
            r.raw == raw,
    {
        Fixed { raw }
    }

    pub fn add(self, o: Fixed) -> (r: Fixed)
        ensures
            r == add_spec(self, o),
    {
        Fixed { raw: self.raw.wrapping_add(o.raw) }
    }

    pub fn sub(self, o: Fixed) -> (r: Fixed)
        ensures
            r == sub_spec(self, o),
    {
        Fixed { raw: self.raw.wrapping_sub(o.raw) }
    }

    pub fn neg(self) -> (r: Fixed)
        ensures
            r == neg_spec(self),
    {
        Fixed { raw: 0i32.wrapping_sub(self.raw) }
    }

    pub fn mul(self, o: Fixed) -> (r: Fixed)
        ensures
            r == mul_spec(self, o),
    {
        Fixed { raw: num_mul(self.raw, o.raw) }
    }

    /// Division by a positive number.
    pub fn div(self, o: Fixed) -> (r: Fixed)
        requires
            o.raw > 0,
        ensures
            r == div_spec(self, o),
    {
        Fixed { raw: num_div(self.raw, o.raw) }
    }

    /// Square root of a non-negative number: the integer square root of the raw
    /// value, times 16.
    pub fn sqrt(self) -> (r: Fixed)
        requires
            self.raw >= 0,
        ensures
            r == sqrt_spec(self),
            is_isqrt(r.raw as int / 16, self.raw as int),
    {
        Fixed { raw: num_sqrt(self.raw) }
    }

    /// Nearest integer, halves rounded up.
    pub fn round(self) -> (r: i32)
        requires
            self.raw <= i32::MAX - 128,
        ensures
            r as int == (self.raw as int + 128) / 256,
    {
        num_round(self.raw)
    }

    pub fn clamp(self, lo: Fixed, hi: Fixed) -> (r: Fixed)
        requires
            lo.raw <= hi.raw,
        ensures
            r == clamp_spec(self, lo, hi),
    {
        if self.raw < lo.raw {
            lo
        } else if self.raw > hi.raw {
            hi
        } else {
            self
        }
    }

    pub fn abs(self) -> (r: Fixed)
        ensures
            r == abs_spec(self),
    {
        if self.raw < 0 {
            self.neg()
        } else {
            self
        }
    }
}

impl Vec2 {
    pub fn new(x: Fixed, y: Fixed) -> (r: Vec2)
        ensures
            r.x == x,
            r.y == y,
    {
        Vec2 { x, y }
    }

    pub fn add(self, o: Vec2) -> (r: Vec2)
        ensures
            r == vadd(self, o),
    {
        Vec2 { x: self.x.add(o.x), y: self.y.add(o.y) }
    }

    pub fn sub(self, o: Vec2) -> (r: Vec2)
        ensures
            r == vsub(self, o),
    {
        Vec2 { x: self.x.sub(o.x), y: self.y.sub(o.y) }
    }

    pub fn neg(self) -> (r: Vec2)
        ensures
            r == vneg(self),
    {
        Vec2 { x: self.x.neg(), y: self.y.neg() }
    }

    pub fn scale(self, k: Fixed) -> (r: Vec2)
        ensures
            r == vscale(self, k),
    {
        Vec2 { x: self.x.mul(k), y: self.y.mul(k) }
    }

    pub fn div(self, k: Fixed) -> (r: Vec2)
        requires
            k.raw > 0,
        ensures
            r == vdiv(self, k),
    {
        Vec2 { x: self.x.div(k), y: self.y.div(k) }
    }

    pub fn dot(self, o: Vec2) -> (r: Fixed)
        ensures
            r == dot_spec(self, o),
    {
        self.x.mul(o.x).add(self.y.mul(o.y))
    }

    pub fn magnitude_squared(self) -> (r: Fixed)
        ensures
            r == mag2_spec(self),
    {
        self.dot(self)
    }
}

} // verus!
