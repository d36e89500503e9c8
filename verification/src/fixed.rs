//! Signed fixed-point numbers with sixteen fractional bits.
//!
//! Every continuous quantity of the engine (positions, angles, velocities,
//! impulses) is held as a `Fixed`. Arithmetic saturates at the ends of the
//! 64-bit range and rounds to the nearest representable value, halves away
//! from zero, so that negating the operands negates the result.

use vstd::prelude::*;

verus! {

/// The raw value of the number one.
pub const ONE_RAW: i64 = 65536;

/// `x` limited to the range of `i64`.
pub open spec fn clamp64(x: int) -> int {
    if x > i64::MAX {
        i64::MAX as int
    } else if x < i64::MIN {
        i64::MIN as int
    } else {
        x
    }
}

/// `x` limited to the range of `i32`.
pub open spec fn clamp32(x: int) -> int {
    if x > i32::MAX {
        i32::MAX as int
    } else if x < i32::MIN {
        i32::MIN as int
    } else {
        x
    }
}

/// `n / d` rounded to the nearest integer, halves away from zero, for a
/// positive `d`.
pub open spec fn round_div(n: int, d: int) -> int
    recommends
        d > 0,
{
    if n >= 0 {
        (n + d / 2) / d
    } else {
        -((-n + d / 2) / d)
    }
}

/// `n / d` rounded as by `round_div`, for a `d` of either sign.
pub open spec fn round_div_signed(n: int, d: int) -> int
    recommends
        d != 0,
{
    if d > 0 {
        round_div(n, d)
    } else {
        round_div(-n, -d)
    }
}

/// Rounding is odd: the quotient of `-n` is the negated quotient of `n`.
pub proof fn lemma_round_div_odd(n: int, d: int)
    requires
        d > 0,
    ensures
        round_div(-n, d) == -round_div(n, d),
{
    if n == 0 {
        assert(round_div(0, d) == 0) by (nonlinear_arith)
            requires
                d > 0,
                round_div(0, d) == (d / 2) / d,
        ;
    }
}

/// A multiple of the divisor is divided exactly.
pub proof fn lemma_round_div_exact(k: int, d: int)
    requires
        d > 0,
    ensures
        round_div(k * d, d) == k,
{
    if k >= 0 {
        assert(k * d >= 0 && (k * d + d / 2) / d == k) by (nonlinear_arith)
            requires
                d > 0,
                k >= 0,
        ;
    } else {
        assert(k * d < 0 && (-(k * d) + d / 2) / d == -k) by (nonlinear_arith)
            requires
                d > 0,
                k < 0,
        ;
    }
}

/// `n / d` for `d > 0`, rounded to nearest with halves away from zero.
pub fn round_div_wide(n: i128, d: i128) -> (q: i128)
    requires
        d > 0,
        -0x4000_0000_0000_0000_0000_0000_0000_0000 <= n <= 0x4000_0000_0000_0000_0000_0000_0000_0000,
        d <= 0x4000_0000_0000_0000_0000_0000_0000_0000,
    ensures
        q == round_div(n as int, d as int),
{
    let half: i128 = d / 2;
    if n >= 0 {
        (n + half) / d
    } else {
        let m: i128 = -n;
        let q: i128 = (m + half) / d;
        assert(0 <= q) by (nonlinear_arith)
            requires
                q == (m + half) / (d as int),
                m + half >= 0,
                d > 0,
        ;
        -q
    }
}

/// A wide value limited to the range of `i64`.
pub fn saturate(x: i128) -> (r: i64)
    ensures
        r == clamp64(x as int),
{
    if x > i64::MAX as i128 {
        i64::MAX
    } else if x < i64::MIN as i128 {
        i64::MIN
    } else {
        x as i64
    }
}

/// A fixed-point number: `raw / 65536`.
#[derive(Clone, Copy, Debug, PartialEq, Eq, Structural)]
pub struct Fixed {
    pub raw: i64,
}

impl Fixed {
    /// The raw value as a mathematical integer: the number times 65536.
    pub open spec fn view(self) -> int {
        self.raw as int
    }

    /// The number with raw value `clamp64(raw)`.
    pub open spec fn of_raw(raw: int) -> Fixed {
        Fixed { raw: clamp64(raw) as i64 }
    }

    pub open spec fn spec_zero() -> Fixed {
        Fixed { raw: 0 }
    }

    pub open spec fn spec_one() -> Fixed {
        Fixed { raw: ONE_RAW }
    }

    pub open spec fn spec_from_int(value: int) -> Fixed {
        Fixed::of_raw(value * 65536)
    }

    pub open spec fn spec_plus(self, rhs: Fixed) -> Fixed {
        Fixed::of_raw(self.raw + rhs.raw)
    }

    pub open spec fn spec_minus(self, rhs: Fixed) -> Fixed {
        Fixed::of_raw(self.raw - rhs.raw)
    }

    pub open spec fn spec_neg(self) -> Fixed {
        Fixed::of_raw(-self.raw)
    }

    pub open spec fn spec_times(self, rhs: Fixed) -> Fixed {
        Fixed::of_raw(round_div(self.raw * rhs.raw, 65536))
    }

    /// The quotient by a non-zero number.
    pub open spec fn spec_over(self, rhs: Fixed) -> Fixed
        recommends
            rhs.raw != 0,
    {
        Fixed::of_raw(round_div_signed(self.raw * 65536, rhs.raw as int))
    }

    /// The quotient by a positive whole number.
    pub open spec fn spec_over_count(self, count: int) -> Fixed
        recommends
            count > 0,
    {
        Fixed::of_raw(round_div(self.raw as int, count))
    }

    /// The product with a whole number.
    pub open spec fn spec_times_int(self, factor: int) -> Fixed {
        Fixed::of_raw(self.raw * factor)
    }

    /// The nearest whole number, halves away from zero, limited to `i32`.
    pub open spec fn spec_round(self) -> int {
        clamp32(round_div(self.raw as int, 65536))
    }

    pub open spec fn spec_max(self, rhs: Fixed) -> Fixed {
        if self.raw >= rhs.raw {
            self
        } else {
            rhs
        }
    }

    pub fn from_raw(raw: i64) -> (r: Fixed)
        ensures
            r.raw == raw,
    {
        Fixed { raw }
    }

    pub fn zero() -> (r: Fixed)
        ensures
            r == Fixed::spec_zero(),
    {
        Fixed { raw: 0 }
    }

    pub fn one() -> (r: Fixed)
        ensures
            r == Fixed::spec_one(),
    {
        Fixed { raw: ONE_RAW }
    }

    /// The whole number `value`, which is always in range.
    pub fn from_int(value: i32) -> (r: Fixed)
        ensures
            r == Fixed::spec_from_int(value as int),
            r.raw == value * 65536,
    {
        Fixed { raw: (value as i64) * 65536 }
    }

    pub fn plus(self, rhs: Fixed) -> (r: Fixed)
        ensures
            r == self.spec_plus(rhs),
    {
        Fixed { raw: saturate(self.raw as i128 + rhs.raw as i128) }
    }

    pub fn minus(self, rhs: Fixed) -> (r: Fixed)
        ensures
            r == self.spec_minus(rhs),
    {
        Fixed { raw: saturate(self.raw as i128 - rhs.raw as i128) }
    }

    pub fn neg(self) -> (r: Fixed)
        ensures
            r == self.spec_neg(),
    {
        Fixed { raw: saturate(-(self.raw as i128)) }
    }

    pub fn times(self, rhs: Fixed) -> (r: Fixed)
        ensures
            r == self.spec_times(rhs),
    {
        let a: i128 = self.raw as i128;
        let b: i128 = rhs.raw as i128;
        assert(-0x4000_0000_0000_0000_0000_0000_0000_0000 <= a * b
            <= 0x4000_0000_0000_0000_0000_0000_0000_0000) by (nonlinear_arith)
            requires
                -0x8000_0000_0000_0000 <= a <= 0x7fff_ffff_ffff_ffff,
                -0x8000_0000_0000_0000 <= b <= 0x7fff_ffff_ffff_ffff,
        ;
        Fixed { raw: saturate(round_div_wide(a * b, 65536)) }
    }

    /// The product with a whole number.
    pub fn times_int(self, factor: i32) -> (r: Fixed)
        ensures
            r == self.spec_times_int(factor as int),
    {
        let a: i128 = self.raw as i128;
        let b: i128 = factor as i128;
        assert(-0x4000_0000_0000_0000_0000_0000_0000_0000 <= a * b
            <= 0x4000_0000_0000_0000_0000_0000_0000_0000) by (nonlinear_arith)
            requires
                -0x8000_0000_0000_0000 <= a <= 0x7fff_ffff_ffff_ffff,
                -0x8000_0000 <= b <= 0x7fff_ffff,
        ;
        Fixed { raw: saturate(a * b) }
    }

    /// The quotient, or `None` exactly when the divisor is zero.
    pub fn checked_over(self, rhs: Fixed) -> (r: Option<Fixed>)
        ensures
            rhs.raw == 0 <==> r.is_none(),
            rhs.raw != 0 ==> r == Some(self.spec_over(rhs)),
    {
        if rhs.raw == 0 {
            return None;
        }
        let n: i128 = (self.raw as i128) * 65536;
        let d: i128 = rhs.raw as i128;
        let q: i128 = if d > 0 {
            round_div_wide(n, d)
        } else {
            round_div_wide(-n, -d)
        };
        Some(Fixed { raw: saturate(q) })
    }

    /// The quotient by a whole number, or `None` exactly when it is zero.
    pub fn checked_over_count(self, count: u64) -> (r: Option<Fixed>)
        ensures
            count == 0 <==> r.is_none(),
            count != 0 ==> r == Some(self.spec_over_count(count as int)),
    {
        if count == 0 {
            return None;
        }
        let q: i128 = round_div_wide(self.raw as i128, count as i128);
        Some(Fixed { raw: saturate(q) })
    }

    /// The nearest whole number, halves away from zero, limited to `i32`.
    pub fn round(self) -> (r: i32)
        ensures
            r == self.spec_round(),
    {
        let q: i128 = round_div_wide(self.raw as i128, 65536);
        if q > i32::MAX as i128 {
            i32::MAX
        } else if q < i32::MIN as i128 {
            i32::MIN
        } else {
            q as i32
        }
    }

    /// The larger of two numbers.
    pub fn max(self, rhs: Fixed) -> (r: Fixed)
        ensures
            r == self.spec_max(rhs),
    {
        if self.raw >= rhs.raw {
            self
        } else {
            rhs
        }
    }
}

/// A whole number survives the round trip through `Fixed`.
pub proof fn lemma_round_from_int(value: int)
    requires
        i32::MIN <= value <= i32::MAX,
    ensures
        Fixed::spec_from_int(value).spec_round() == value,
{
    lemma_round_div_exact(value, 65536);
}

/// Adding zero changes nothing, and multiplying by one changes nothing.
pub proof fn lemma_identities(a: Fixed)
    ensures
        a.spec_plus(Fixed::spec_zero()) == a,
        a.spec_times(Fixed::spec_one()) == a,
        a.spec_times(Fixed::spec_zero()) == Fixed::spec_zero(),
        Fixed::spec_zero().spec_times(a) == Fixed::spec_zero(),
{
    lemma_round_div_exact(a.raw as int, 65536);
    assert(a.raw * ONE_RAW == a.raw * 65536);
    assert(a.raw * 0 == 0);
    assert(0 * a.raw == 0);
    lemma_round_div_exact(0, 65536);
}

} // verus!
