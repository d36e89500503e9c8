//! Rotation of cell offsets: an exact quarter-turn part and a residual part
//! made of three shears, so that lattice points go to lattice points.

use vstd::prelude::*;
use crate::fixed::{round_div, round_div_wide, Fixed};
use crate::vector::IVec2;

verus! {

/// The raw value of a full turn in radians.
pub const TAU_RAW: i64 = 411775;

/// The largest magnitude of a component that the rotations accept.
pub const MAX_OFFSET: i64 = 0x100_0000_0000;

/// A displacement between cells, wide enough for intermediate results.
#[derive(Clone, Copy, Debug, PartialEq, Eq, Structural)]
pub struct Offset {
    pub x: i64,
    pub y: i64,
}

impl Offset {
    pub open spec fn view(self) -> (int, int) {
        (self.x as int, self.y as int)
    }

    /// Both components are at most `bound` in magnitude.
    pub open spec fn within(self, bound: int) -> bool {
        -bound <= self.x <= bound && -bound <= self.y <= bound
    }

    /// The offset that leads from `from` to `to`.
    pub fn between(from: IVec2, to: IVec2) -> (d: Offset)
        ensures
            d@ == (to.x - from.x, to.y - from.y),
            d.within(0xffff_ffff),
    {
        Offset { x: to.x as i64 - from.x as i64, y: to.y as i64 - from.y as i64 }
    }
}

/// The number of quarter turns nearest to the angle.
pub open spec fn spec_turns(angle: Fixed) -> int {
    round_div(angle.raw * 4, TAU_RAW as int)
}

/// The quadrant of the angle: its nearest quarter turn, counted modulo four.
pub open spec fn spec_quadrant(angle: Fixed) -> int {
    spec_turns(angle) % 4
}

/// What is left of the angle beyond its nearest quarter turn.
pub open spec fn spec_residual(angle: Fixed) -> Fixed {
    Fixed { raw: (angle.raw - round_div(spec_turns(angle) * TAU_RAW, 4)) as i64 }
}

fn turns(angle: Fixed) -> (t: i128)
    ensures
        t == spec_turns(angle),
        -0x8000_0000_0000 <= t <= 0x8000_0000_0000,
{
    round_div_wide((angle.raw as i128) * 4, 411775)
}

/// The quadrant of the angle, in `0..4`.
pub fn quadrant(angle: Fixed) -> (q: i32)
    ensures
        q == spec_quadrant(angle),
        0 <= q < 4,
{
    let t: i128 = turns(angle);
    let r: i128 = t % 4;
    if r < 0 {
        (r + 4) as i32
    } else {
        r as i32
    }
}

/// What is left of the angle beyond its nearest quarter turn: less than an
/// eighth of a turn and a rounding step in magnitude.
pub fn residual(angle: Fixed) -> (r: Fixed)
    ensures
        r == spec_residual(angle),
        -51473 <= r.raw <= 51473,
{
    let t: i128 = turns(angle);
    let whole: i128 = round_div_wide(t * 411775, 4);
    proof {
        let a: int = angle.raw as int;
        assert(t == round_div(a * 4, 411775));
        assert(t * TAU_RAW == t * 411775);
        assert(-205888 <= a * 4 - t * 411775 <= 205888);
    }
    Fixed { raw: (angle.raw as i128 - whole) as i64 }
}

/// The offset turned by `quadrant` quarter turns.
pub open spec fn spec_quadrant_rotate(v: (int, int), quadrant: int) -> (int, int) {
    let q = quadrant % 4;
    if q == 0 {
        v
    } else if q == 1 {
        (-v.1, v.0)
    } else if q == 2 {
        (-v.0, -v.1)
    } else {
        (v.1, -v.0)
    }
}

/// The offset turned by `quadrant` quarter turns, exactly.
pub fn quadrant_rotate(v: Offset, quadrant: i32) -> (r: Offset)
    requires
        v.x > i64::MIN,
        v.y > i64::MIN,
    ensures
        r@ == spec_quadrant_rotate(v@, quadrant as int),
        forall|bound: int| v.within(bound) ==> r.within(bound),
{
    let m: i32 = quadrant % 4;
    let q: i32 = if m < 0 { m + 4 } else { m };
    let turned: Offset = if q % 2 == 1 {
        Offset { x: -v.y, y: v.x }
    } else {
        v
    };
    if q >= 2 {
        Offset { x: -turned.x, y: -turned.y }
    } else {
        turned
    }
}

/// The residual part of a rotation: the tangent of half the residual angle
/// and its sine, from which the three shears are made.
#[derive(Clone, Copy, Debug, PartialEq, Eq, Structural)]
pub struct Shear {
    pub tan_half: Fixed,
    pub sin: Fixed,
}

impl Shear {
    /// Neither coefficient exceeds one in magnitude.
    pub open spec fn wf(&self) -> bool {
        &&& -65536 <= self.tan_half.raw <= 65536
        &&& -65536 <= self.sin.raw <= 65536
    }

    /// The shear of the zero angle.
    pub open spec fn spec_identity() -> Shear {
        Shear { tan_half: Fixed::spec_zero(), sin: Fixed::spec_zero() }
    }

    /// A shear with the given coefficients, or `None` exactly when one of
    /// them exceeds one in magnitude.
    pub fn new(tan_half: Fixed, sin: Fixed) -> (s: Option<Shear>)
        ensures
            s.is_some() <==> (Shear { tan_half, sin }).wf(),
            s.is_some() ==> s.unwrap() == (Shear { tan_half, sin }),
    {
        if tan_half.raw < -65536 || tan_half.raw > 65536 || sin.raw < -65536 || sin.raw > 65536 {
            None
        } else {
            Some(Shear { tan_half, sin })
        }
    }

    pub fn identity() -> (s: Shear)
        ensures
            s == Shear::spec_identity(),
            s.wf(),
    {
        Shear { tan_half: Fixed::zero(), sin: Fixed::zero() }
    }

    /// Whether neither coefficient exceeds one in magnitude.
    pub fn is_valid(&self) -> (b: bool)
        ensures
            b == self.wf(),
    {
        -65536 <= self.tan_half.raw && self.tan_half.raw <= 65536 && -65536 <= self.sin.raw
            && self.sin.raw <= 65536
    }
}

/// `value` times the raw coefficient, rounded to a whole number.
pub open spec fn spec_sheared(value: int, coefficient: int) -> int {
    round_div(value * coefficient, 65536)
}

/// The offset after a shear along x by `-tan_half`, a shear along y by `sin`
/// and the first shear again.
pub open spec fn spec_skew_rotate(v: (int, int), shear: Shear) -> (int, int) {
    let a = -shear.tan_half.raw;
    let b = shear.sin.raw as int;
    let x1 = v.0 + spec_sheared(v.1, a);
    let y1 = v.1 + spec_sheared(x1, b);
    let x2 = x1 + spec_sheared(y1, a);
    (x2, y1)
}

/// A sheared value is no larger than the value, for a coefficient of at most
/// one.
pub proof fn lemma_sheared_bound(value: int, coefficient: int)
    requires
        -65536 <= coefficient <= 65536,
    ensures
        value >= 0 ==> -value <= spec_sheared(value, coefficient) <= value,
        value <= 0 ==> value <= spec_sheared(value, coefficient) <= -value,
{
    let n: int = value * coefficient;
    if value >= 0 {
        assert(-value * 65536 <= n <= value * 65536) by (nonlinear_arith)
            requires
                n == value * coefficient,
                value >= 0,
                -65536 <= coefficient <= 65536,
        ;
    } else {
        assert(value * 65536 <= n <= -value * 65536) by (nonlinear_arith)
            requires
                n == value * coefficient,
                value <= 0,
                -65536 <= coefficient <= 65536,
        ;
    }
}

fn sheared(value: i64, coefficient: i64) -> (r: i64)
    requires
        -65536 <= coefficient <= 65536,
        -0x1000_0000_0000 <= value <= 0x1000_0000_0000,
    ensures
        r == spec_sheared(value as int, coefficient as int),
        value >= 0 ==> -value <= r <= value,
        value <= 0 ==> value <= r <= -value,
{
    proof {
        lemma_sheared_bound(value as int, coefficient as int);
    }
    let v: i128 = value as i128;
    let c: i128 = coefficient as i128;
    assert(-0x1_0000_0000_0000_0000 <= v * c <= 0x1_0000_0000_0000_0000) by (nonlinear_arith)
        requires
            -65536 <= c <= 65536,
            -0x1000_0000_0000 <= v <= 0x1000_0000_0000,
    ;
    round_div_wide(v * c, 65536) as i64
}

/// The offset turned by the residual angle of `shear`, by three shears.
pub fn skew_rotate(v: Offset, shear: &Shear) -> (r: Offset)
    requires
        shear.wf(),
        v.within(MAX_OFFSET as int),
    ensures
        r@ == spec_skew_rotate(v@, *shear),
        forall|bound: int| bound >= 0 && v.within(bound) ==> r.within(5 * bound),
{
    let a: i64 = -shear.tan_half.raw;
    let b: i64 = shear.sin.raw;
    let x1: i64 = v.x + sheared(v.y, a);
    let y1: i64 = v.y + sheared(x1, b);
    let x2: i64 = x1 + sheared(y1, a);
    Offset { x: x2, y: y1 }
}

/// How a body's cells move in one step: where its centre is and will be, in
/// which quadrants it is and will be turned, and the shears that undo its
/// present residual turn and make its predicted one.
#[derive(Clone, Copy, Debug, PartialEq, Eq, Structural)]
pub struct Pose {
    /// The cell nearest to the body's position.
    pub origin: IVec2,
    /// The cell nearest to the body's predicted position.
    pub target: IVec2,
    /// The quadrant of the body's angle.
    pub quadrant: i32,
    /// The quadrant of the body's predicted angle.
    pub target_quadrant: i32,
    /// The shear of the residual of the negated angle.
    pub unwind: Shear,
    /// The shear of the residual of the predicted angle.
    pub wind: Shear,
}

impl Pose {
    pub open spec fn wf(&self) -> bool {
        self.unwind.wf() && self.wind.wf()
    }

    /// The cell offset in the body's own frame.
    pub open spec fn spec_local(&self, cell: IVec2) -> (int, int) {
        spec_skew_rotate(
            spec_quadrant_rotate((cell.x - self.origin.x, cell.y - self.origin.y), -self.quadrant),
            self.unwind,
        )
    }

    /// The point to which the body's predicted transform takes the cell.
    pub open spec fn spec_project(&self, cell: IVec2) -> (int, int) {
        let turned = spec_quadrant_rotate(
            spec_skew_rotate(self.spec_local(cell), self.wind),
            self.target_quadrant as int,
        );
        (self.target.x + turned.0, self.target.y + turned.1)
    }

    /// The point to which the body's predicted transform takes the cell: its
    /// offset from the present centre, turned back into the body's frame,
    /// turned forward by the predicted angle and laid off from the predicted
    /// centre.
    pub fn project(&self, cell: IVec2) -> (p: Offset)
        requires
            self.wf(),
        ensures
            p@ == self.spec_project(cell),
            p.within(0x20_0000_0000),
    {
        let diff: Offset = Offset::between(self.origin, cell);
        let back: i32 = if self.quadrant == i32::MIN { 0 } else { -self.quadrant };
        assert(spec_quadrant_rotate(diff@, back as int) == spec_quadrant_rotate(
            diff@,
            -self.quadrant,
        )) by {
            if self.quadrant == i32::MIN {
                assert((-(i32::MIN as int)) % 4 == 0);
            }
        }
        let unturned: Offset = quadrant_rotate(diff, back);
        assert(unturned.within(0xffff_ffff));
        let local: Offset = skew_rotate(unturned, &self.unwind);
        assert(local.within(5 * 0xffff_ffffint));
        let skewed: Offset = skew_rotate(local, &self.wind);
        assert(skewed.within(5 * (5 * 0xffff_ffffint)));
        let turned: Offset = quadrant_rotate(skewed, self.target_quadrant);
        assert(turned.within(5 * (5 * 0xffff_ffffint)));
        Offset { x: self.target.x as i64 + turned.x, y: self.target.y as i64 + turned.y }
    }
}

/// Four quarter turns, or none, leave an offset as it is, and turning back
/// undoes turning.
pub proof fn lemma_quadrant_rotate_inverse(v: (int, int), quadrant: int)
    ensures
        spec_quadrant_rotate(v, 0) == v,
        spec_quadrant_rotate(v, quadrant + 4) == spec_quadrant_rotate(v, quadrant),
        spec_quadrant_rotate(spec_quadrant_rotate(v, quadrant), -quadrant) == v,
{
    assert((quadrant + 4) % 4 == quadrant % 4);
    assert((-quadrant) % 4 == (4 - quadrant % 4) % 4);
}

/// The shear of the zero angle leaves every offset as it is.
pub proof fn lemma_skew_rotate_identity(v: (int, int))
    ensures
        spec_skew_rotate(v, Shear::spec_identity()) == v,
{
    assert(v.1 * 0 == 0);
    assert(v.0 * 0 == 0);
}

/// With angle zero before and after, the quadrant and skew decomposition
/// returns every offset unchanged: a cell keeps its offset from the centre.
pub proof fn lemma_rotation_by_zero(pose: Pose, cell: IVec2)
    requires
        pose.quadrant % 4 == 0,
        pose.target_quadrant % 4 == 0,
        pose.unwind == Shear::spec_identity(),
        pose.wind == Shear::spec_identity(),
    ensures
        pose.spec_local(cell) == (cell.x - pose.origin.x, cell.y - pose.origin.y),
        pose.spec_project(cell) == (
            pose.target.x + (cell.x - pose.origin.x),
            pose.target.y + (cell.y - pose.origin.y),
        ),
{
    let diff: (int, int) = (cell.x - pose.origin.x, cell.y - pose.origin.y);
    assert((-(pose.quadrant as int)) % 4 == 0);
    lemma_skew_rotate_identity(diff);
}

/// The angle zero lies in quadrant zero and has no residual.
pub proof fn lemma_zero_angle()
    ensures
        spec_quadrant(Fixed::spec_zero()) == 0,
        spec_residual(Fixed::spec_zero()) == Fixed::spec_zero(),
{
}

} // verus!
