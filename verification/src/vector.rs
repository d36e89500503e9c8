//! Vectors on the cell lattice and in fixed-point space.

use vstd::prelude::*;
use crate::fixed::{round_div, round_div_wide, saturate, Fixed};

verus! {

/// A pair of lattice coordinates: a cell, or the offset between two cells.
#[derive(Clone, Copy, Debug, PartialEq, Eq, Structural)]
pub struct IVec2 {
    pub x: i32,
    pub y: i32,
}

impl IVec2 {
    /// The pair as mathematical integers.
    pub open spec fn view(self) -> (int, int) {
        (self.x as int, self.y as int)
    }

    pub fn new(x: i32, y: i32) -> (v: IVec2)
        ensures
            v.x == x,
            v.y == y,
    {
        IVec2 { x, y }
    }

    /// The vector with both components equal to `value`.
    pub fn splat(value: i32) -> (v: IVec2)
        ensures
            v.x == value,
            v.y == value,
    {
        IVec2 { x: value, y: value }
    }

    /// The squared Euclidean length.
    pub open spec fn spec_norm_squared(self) -> int {
        self.x * self.x + self.y * self.y
    }

    pub fn norm_squared(self) -> (n: u64)
        ensures
            n == self.spec_norm_squared(),
    {
        let x: i64 = self.x as i64;
        let y: i64 = self.y as i64;
        assert(0 <= x * x <= 0x4000_0000_0000_0000) by (nonlinear_arith)
            requires
                -0x8000_0000 <= x <= 0x7fff_ffff,
        ;
        assert(0 <= y * y <= 0x4000_0000_0000_0000) by (nonlinear_arith)
            requires
                -0x8000_0000 <= y <= 0x7fff_ffff,
        ;
        let xx: u64 = (x * x) as u64;
        let yy: u64 = (y * y) as u64;
        xx + yy
    }
}

/// Whether `r` is the largest number with `r * r <= n`.
pub open spec fn is_isqrt(n: int, r: int) -> bool {
    r >= 0 && r * r <= n < (r + 1) * (r + 1)
}

/// The largest `r` with `r * r <= n`, for a non-negative `n`.
pub open spec fn isqrt(n: int) -> int {
    choose|r: int| is_isqrt(n, r)
}

/// At most one number is the integer square root of `n`.
pub proof fn lemma_isqrt_unique(n: int, r1: int, r2: int)
    requires
        r1 >= 0,
        r1 * r1 <= n < (r1 + 1) * (r1 + 1),
        r2 >= 0,
        r2 * r2 <= n < (r2 + 1) * (r2 + 1),
    ensures
        r1 == r2,
{
    assert(r1 == r2) by (nonlinear_arith)
        requires
            r1 >= 0,
            r1 * r1 <= n < (r1 + 1) * (r1 + 1),
            r2 >= 0,
            r2 * r2 <= n < (r2 + 1) * (r2 + 1),
    ;
}

/// The integer square root of `n`, by bisection.
pub fn integer_sqrt(n: u128) -> (r: u128)
    ensures
        r == isqrt(n as int),
        r * r <= n < (r + 1) * (r + 1),
        r < 0x1_0000_0000_0000_0000,
{
    let mut lo: u128 = 0;
    let mut hi: u128 = 0x1_0000_0000_0000_0000;
    assert(n < hi * hi) by (nonlinear_arith)
        requires
            hi == 0x1_0000_0000_0000_0000,
            n <= 0xffff_ffff_ffff_ffff_ffff_ffff_ffff_ffff,
    ;
    while hi - lo > 1
        invariant
            lo < hi <= 0x1_0000_0000_0000_0000,
            lo * lo <= n < hi * hi,
        decreases hi - lo,
    {
        let mid: u128 = lo + (hi - lo) / 2;
        assert(mid * mid <= 0xffff_ffff_ffff_ffff_ffff_ffff_ffff_ffff) by (nonlinear_arith)
            requires
                0 <= mid < 0x1_0000_0000_0000_0000,
        ;
        if mid * mid <= n {
            lo = mid;
        } else {
            hi = mid;
        }
    }
    proof {
        let r: int = isqrt(n as int);
        assert(hi == lo + 1);
        assert(is_isqrt(n as int, lo as int));
        lemma_isqrt_unique(n as int, lo as int, r);
    }
    lo
}

/// A vector with fixed-point components.
#[derive(Clone, Copy, Debug, PartialEq, Eq, Structural)]
pub struct FVec2 {
    pub x: Fixed,
    pub y: Fixed,
}

impl FVec2 {
    pub open spec fn spec_zero() -> FVec2 {
        FVec2 { x: Fixed::spec_zero(), y: Fixed::spec_zero() }
    }

    pub open spec fn spec_from_cell(cell: IVec2) -> FVec2 {
        FVec2 { x: Fixed::spec_from_int(cell.x as int), y: Fixed::spec_from_int(cell.y as int) }
    }

    pub open spec fn spec_plus(self, rhs: FVec2) -> FVec2 {
        FVec2 { x: self.x.spec_plus(rhs.x), y: self.y.spec_plus(rhs.y) }
    }

    pub open spec fn spec_minus(self, rhs: FVec2) -> FVec2 {
        FVec2 { x: self.x.spec_minus(rhs.x), y: self.y.spec_minus(rhs.y) }
    }

    pub open spec fn spec_neg(self) -> FVec2 {
        FVec2 { x: self.x.spec_neg(), y: self.y.spec_neg() }
    }

    pub open spec fn spec_scale(self, factor: Fixed) -> FVec2 {
        FVec2 { x: self.x.spec_times(factor), y: self.y.spec_times(factor) }
    }

    /// Both components divided by a positive whole number.
    pub open spec fn spec_over_count(self, count: int) -> FVec2
        recommends
            count > 0,
    {
        FVec2 { x: self.x.spec_over_count(count), y: self.y.spec_over_count(count) }
    }

    pub open spec fn spec_dot(self, rhs: FVec2) -> Fixed {
        self.x.spec_times(rhs.x).spec_plus(self.y.spec_times(rhs.y))
    }

    /// The raw Euclidean length: the root of the sum of the raw squares.
    pub open spec fn spec_raw_norm(self) -> int {
        isqrt(self.x.raw * self.x.raw + self.y.raw * self.y.raw)
    }

    pub open spec fn spec_norm(self) -> Fixed {
        Fixed::of_raw(self.spec_raw_norm())
    }

    /// The vector scaled to unit length; the zero vector stays zero.
    pub open spec fn spec_normalize(self) -> FVec2 {
        let n = self.spec_raw_norm();
        if n == 0 {
            FVec2::spec_zero()
        } else {
            FVec2 {
                x: Fixed::of_raw(round_div(self.x.raw * 65536, n)),
                y: Fixed::of_raw(round_div(self.y.raw * 65536, n)),
            }
        }
    }

    /// The vector turned by the angle whose cosine and sine are given.
    pub open spec fn spec_rotate(self, cos: Fixed, sin: Fixed) -> FVec2 {
        FVec2 {
            x: self.x.spec_times(cos).spec_minus(self.y.spec_times(sin)),
            y: self.x.spec_times(sin).spec_plus(self.y.spec_times(cos)),
        }
    }

    /// The nearest lattice point.
    pub open spec fn spec_round(self) -> IVec2 {
        IVec2 { x: self.x.spec_round() as i32, y: self.y.spec_round() as i32 }
    }

    pub fn new(x: Fixed, y: Fixed) -> (v: FVec2)
        ensures
            v.x == x,
            v.y == y,
    {
        FVec2 { x, y }
    }

    pub fn zero() -> (v: FVec2)
        ensures
            v == FVec2::spec_zero(),
    {
        FVec2 { x: Fixed::zero(), y: Fixed::zero() }
    }

    pub fn from_cell(cell: IVec2) -> (v: FVec2)
        ensures
            v == FVec2::spec_from_cell(cell),
    {
        FVec2 { x: Fixed::from_int(cell.x), y: Fixed::from_int(cell.y) }
    }

    pub fn plus(self, rhs: FVec2) -> (v: FVec2)
        ensures
            v == self.spec_plus(rhs),
    {
        FVec2 { x: self.x.plus(rhs.x), y: self.y.plus(rhs.y) }
    }

    pub fn minus(self, rhs: FVec2) -> (v: FVec2)
        ensures
            v == self.spec_minus(rhs),
    {
        FVec2 { x: self.x.minus(rhs.x), y: self.y.minus(rhs.y) }
    }

    pub fn neg(self) -> (v: FVec2)
        ensures
            v == self.spec_neg(),
    {
        FVec2 { x: self.x.neg(), y: self.y.neg() }
    }

    pub fn scale(self, factor: Fixed) -> (v: FVec2)
        ensures
            v == self.spec_scale(factor),
    {
        FVec2 { x: self.x.times(factor), y: self.y.times(factor) }
    }

    /// Both components divided by `count`, or `None` exactly when it is zero.
    pub fn checked_over_count(self, count: u64) -> (v: Option<FVec2>)
        ensures
            count == 0 <==> v.is_none(),
            count != 0 ==> v == Some(self.spec_over_count(count as int)),
    {
        match (self.x.checked_over_count(count), self.y.checked_over_count(count)) {
            (Some(x), Some(y)) => Some(FVec2 { x, y }),
            _ => None,
        }
    }

    pub fn dot(self, rhs: FVec2) -> (d: Fixed)
        ensures
            d == self.spec_dot(rhs),
    {
        self.x.times(rhs.x).plus(self.y.times(rhs.y))
    }

    /// The raw sum of squares, which fits in 128 bits.
    fn raw_square_sum(self) -> (s: u128)
        ensures
            s == self.x.raw * self.x.raw + self.y.raw * self.y.raw,
    {
        let x: i128 = self.x.raw as i128;
        let y: i128 = self.y.raw as i128;
        assert(0 <= x * x <= 0x4000_0000_0000_0000_0000_0000_0000_0000) by (nonlinear_arith)
            requires
                -0x8000_0000_0000_0000 <= x <= 0x7fff_ffff_ffff_ffff,
        ;
        assert(0 <= y * y <= 0x4000_0000_0000_0000_0000_0000_0000_0000) by (nonlinear_arith)
            requires
                -0x8000_0000_0000_0000 <= y <= 0x7fff_ffff_ffff_ffff,
        ;
        let xx: u128 = (x * x) as u128;
        let yy: u128 = (y * y) as u128;
        xx + yy
    }

    /// The Euclidean length.
    pub fn norm(self) -> (n: Fixed)
        ensures
            n == self.spec_norm(),
    {
        let r: u128 = integer_sqrt(self.raw_square_sum());
        if r > i64::MAX as u128 {
            Fixed { raw: i64::MAX }
        } else {
            Fixed { raw: r as i64 }
        }
    }

    /// The vector scaled to unit length; the zero vector stays zero.
    pub fn normalize(self) -> (v: FVec2)
        ensures
            v == self.spec_normalize(),
    {
        let r: u128 = integer_sqrt(self.raw_square_sum());
        if r == 0 {
            return FVec2::zero();
        }
        let d: i128 = r as i128;
        let x: i128 = round_div_wide((self.x.raw as i128) * 65536, d);
        let y: i128 = round_div_wide((self.y.raw as i128) * 65536, d);
        FVec2 { x: Fixed { raw: saturate(x) }, y: Fixed { raw: saturate(y) } }
    }

    /// The vector turned by the angle whose cosine and sine are given.
    pub fn rotate(self, cos: Fixed, sin: Fixed) -> (v: FVec2)
        ensures
            v == self.spec_rotate(cos, sin),
    {
        FVec2 {
            x: self.x.times(cos).minus(self.y.times(sin)),
            y: self.x.times(sin).plus(self.y.times(cos)),
        }
    }

    /// The nearest lattice point.
    pub fn round(self) -> (c: IVec2)
        ensures
            c == self.spec_round(),
    {
        IVec2 { x: self.x.round(), y: self.y.round() }
    }
}

/// The planar cross product, between two vectors or between a vector and the
/// scalar that stands for a vector along the third axis.
pub trait Cross<T> {
    type Output;

    spec fn spec_cross(&self, other: T) -> Self::Output;

    fn cross(&self, other: T) -> (r: Self::Output)
        ensures
            r == self.spec_cross(other),
    ;
}

impl Cross<FVec2> for FVec2 {
    type Output = Fixed;

    open spec fn spec_cross(&self, other: FVec2) -> Fixed {
        self.x.spec_times(other.y).spec_minus(self.y.spec_times(other.x))
    }

    fn cross(&self, other: FVec2) -> (r: Fixed) {
        self.x.times(other.y).minus(self.y.times(other.x))
    }
}

impl Cross<Fixed> for FVec2 {
    type Output = FVec2;

    open spec fn spec_cross(&self, other: Fixed) -> FVec2 {
        FVec2 { x: self.y.spec_times(other), y: self.x.spec_neg().spec_times(other) }
    }

    fn cross(&self, other: Fixed) -> (r: FVec2) {
        FVec2 { x: self.y.times(other), y: self.x.neg().times(other) }
    }
}

impl Cross<FVec2> for Fixed {
    type Output = FVec2;

    open spec fn spec_cross(&self, other: FVec2) -> FVec2 {
        FVec2 { x: self.spec_neg().spec_times(other.y), y: self.spec_times(other.x) }
    }

    fn cross(&self, other: FVec2) -> (r: FVec2) {
        FVec2 { x: self.neg().times(other.y), y: self.times(other.x) }
    }
}

} // verus!
