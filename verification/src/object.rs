//! The bodies: their continuous state, the prediction of where each will be
//! after the step, and the impulses gathered for it.

use vstd::prelude::*;
use crate::fixed::Fixed;
use crate::rotation::{quadrant, residual, spec_quadrant, spec_residual, Pose, Shear};
use crate::vector::FVec2;

verus! {

/// The owner of a cell that no body owns.
pub const NULL_OBJECT: u32 = u32::MAX;

/// The identifier of a body: its slot in the store.
#[derive(Debug, Copy, Clone, PartialEq, Eq, PartialOrd, Ord, Structural)]
pub struct ObjectHost(pub u32);

impl ObjectHost {
    /// The slot of the body.
    pub fn index(self) -> (i: usize)
        ensures
            i == self.0,
    {
        self.0 as usize
    }
}

/// One body.
#[derive(Debug, Copy, Clone, PartialEq, Eq, Structural)]
pub struct ObjectState {
    /// The number of cells that the body was made of.
    pub mass: u32,
    /// The second moment of those cells about the body's centre.
    pub moment: u64,
    pub position: FVec2,
    pub angle: Fixed,
    pub velocity: FVec2,
    pub angvel: Fixed,
    /// Where the body will be after this step. Overwritten in every step.
    pub predicted_position: FVec2,
    /// How the body will be turned after this step. Overwritten in every step.
    pub predicted_angle: Fixed,
    /// The impulse gathered since it was last applied.
    pub impulse: FVec2,
    /// The angular impulse gathered since it was last applied.
    pub angular_impulse: Fixed,
    /// In how many collisions of this step the body takes part.
    pub num_constraints: u32,
}

/// What the host has to evaluate for a body between prediction and movement:
/// three angles in radians.
#[derive(Debug, Copy, Clone, PartialEq, Eq, Structural)]
pub struct HeadingAngles {
    /// The residual of the negated angle.
    pub unwind: Fixed,
    /// The residual of the predicted angle.
    pub wind: Fixed,
    /// The predicted angle less the angle.
    pub turn: Fixed,
}

/// The trigonometry of a body's step, evaluated by the host on the angles of
/// `HeadingAngles`.
#[derive(Debug, Copy, Clone, PartialEq, Eq, Structural)]
pub struct Heading {
    /// Tangent of half of, and sine of, the residual of the negated angle.
    pub unwind: Shear,
    /// Tangent of half of, and sine of, the residual of the predicted angle.
    pub wind: Shear,
    /// The cosine of the turn.
    pub turn_cos: Fixed,
    /// The sine of the turn.
    pub turn_sin: Fixed,
}

impl Heading {
    pub open spec fn wf(&self) -> bool {
        self.unwind.wf() && self.wind.wf()
    }

    /// The heading of a body that is not turned and does not turn.
    pub open spec fn spec_rest() -> Heading {
        Heading {
            unwind: Shear::spec_identity(),
            wind: Shear::spec_identity(),
            turn_cos: Fixed::spec_one(),
            turn_sin: Fixed::spec_zero(),
        }
    }

    pub fn rest() -> (h: Heading)
        ensures
            h == Heading::spec_rest(),
            h.wf(),
    {
        Heading {
            unwind: Shear::identity(),
            wind: Shear::identity(),
            turn_cos: Fixed::one(),
            turn_sin: Fixed::zero(),
        }
    }

    /// Whether both shears have coefficients of at most one in magnitude.
    pub fn is_valid(&self) -> (b: bool)
        ensures
            b == self.wf(),
    {
        self.unwind.is_valid() && self.wind.is_valid()
    }
}

impl ObjectState {
    /// A body without mass or without moment takes no part in the dynamics.
    pub open spec fn spec_inert(self) -> bool {
        self.mass == 0 || self.moment == 0
    }

    /// A body at rest at `position`, with nothing predicted or gathered.
    pub open spec fn spec_at_rest(mass: u32, moment: u64, position: FVec2) -> ObjectState {
        ObjectState {
            mass,
            moment,
            position,
            angle: Fixed::spec_zero(),
            velocity: FVec2::spec_zero(),
            angvel: Fixed::spec_zero(),
            predicted_position: position,
            predicted_angle: Fixed::spec_zero(),
            impulse: FVec2::spec_zero(),
            angular_impulse: Fixed::spec_zero(),
            num_constraints: 0,
        }
    }

    /// The body with the gathered impulses, scaled by `scale` and divided by
    /// mass and moment, added to its velocities, and nothing gathered. An
    /// inert body only loses what it gathered.
    pub open spec fn spec_applied(self, scale: Fixed) -> ObjectState {
        if self.spec_inert() {
            ObjectState { impulse: FVec2::spec_zero(), angular_impulse: Fixed::spec_zero(), ..self }
        } else {
            ObjectState {
                velocity: self.velocity.spec_plus(
                    self.impulse.spec_over_count(self.mass as int).spec_scale(scale),
                ),
                angvel: self.angvel.spec_plus(
                    self.angular_impulse.spec_over_count(self.moment as int).spec_times(scale),
                ),
                impulse: FVec2::spec_zero(),
                angular_impulse: Fixed::spec_zero(),
                ..self
            }
        }
    }

    /// The body with its prediction made from its velocities. An inert body
    /// is predicted to stay.
    pub open spec fn spec_predicted(self) -> ObjectState {
        if self.spec_inert() {
            ObjectState {
                predicted_position: self.position,
                predicted_angle: self.angle,
                ..self
            }
        } else {
            ObjectState {
                predicted_position: self.position.spec_plus(self.velocity),
                predicted_angle: self.angle.spec_plus(self.angvel),
                ..self
            }
        }
    }

    /// The body after integration: the gathered impulses, divided by mass
    /// and moment, go into the velocities, the accumulators are emptied, and
    /// the prediction is the present state advanced by the velocities. An
    /// inert body keeps its velocities and is predicted to stay.
    pub open spec fn spec_integrated(self) -> ObjectState {
        if self.spec_inert() {
            ObjectState {
                predicted_position: self.position,
                predicted_angle: self.angle,
                impulse: FVec2::spec_zero(),
                angular_impulse: Fixed::spec_zero(),
                ..self
            }
        } else {
            let velocity = self.velocity.spec_plus(self.impulse.spec_over_count(self.mass as int));
            let angvel = self.angvel.spec_plus(
                self.angular_impulse.spec_over_count(self.moment as int),
            );
            ObjectState {
                velocity,
                angvel,
                predicted_position: self.position.spec_plus(velocity),
                predicted_angle: self.angle.spec_plus(angvel),
                impulse: FVec2::spec_zero(),
                angular_impulse: Fixed::spec_zero(),
                ..self
            }
        }
    }

    /// The body after the step: it is where it was predicted to be, and
    /// takes part in no collision yet.
    pub open spec fn spec_finalized(self) -> ObjectState {
        ObjectState {
            position: self.predicted_position,
            angle: self.predicted_angle,
            num_constraints: 0,
            ..self
        }
    }

    /// The body with an impulse added to what it gathered.
    pub open spec fn spec_pushed(self, linear: FVec2, angular: Fixed) -> ObjectState {
        ObjectState {
            impulse: self.impulse.spec_plus(linear),
            angular_impulse: self.angular_impulse.spec_plus(angular),
            ..self
        }
    }

    /// The angles that the host evaluates for this body's step.
    pub open spec fn spec_heading_angles(self) -> HeadingAngles {
        HeadingAngles {
            unwind: spec_residual(self.angle.spec_neg()),
            wind: spec_residual(self.predicted_angle),
            turn: self.predicted_angle.spec_minus(self.angle),
        }
    }

    /// How the body's cells move in this step.
    pub open spec fn spec_pose(self, heading: Heading) -> Pose {
        Pose {
            origin: self.position.spec_round(),
            target: self.predicted_position.spec_round(),
            quadrant: spec_quadrant(self.angle) as i32,
            target_quadrant: spec_quadrant(self.predicted_angle) as i32,
            unwind: heading.unwind,
            wind: heading.wind,
        }
    }

    pub fn at_rest(mass: u32, moment: u64, position: FVec2) -> (o: ObjectState)
        ensures
            o == ObjectState::spec_at_rest(mass, moment, position),
    {
        ObjectState {
            mass,
            moment,
            position,
            angle: Fixed::zero(),
            velocity: FVec2::zero(),
            angvel: Fixed::zero(),
            predicted_position: position,
            predicted_angle: Fixed::zero(),
            impulse: FVec2::zero(),
            angular_impulse: Fixed::zero(),
            num_constraints: 0,
        }
    }

    pub fn inert(&self) -> (b: bool)
        ensures
            b == self.spec_inert(),
    {
        self.mass == 0 || self.moment == 0
    }

    /// The body with what it gathered applied to its velocities.
    pub fn applied(self, scale: Fixed) -> (o: ObjectState)
        ensures
            o == self.spec_applied(scale),
    {
        let mut o: ObjectState = self;
        o.impulse = FVec2::zero();
        o.angular_impulse = Fixed::zero();
        match (
            self.impulse.checked_over_count(self.mass as u64),
            self.angular_impulse.checked_over_count(self.moment),
        ) {
            (Some(linear), Some(angular)) => {
                o.velocity = self.velocity.plus(linear.scale(scale));
                o.angvel = self.angvel.plus(angular.times(scale));
            },
            _ => {},
        }
        o
    }

    /// The body with its prediction made from its velocities.
    pub fn predicted(self) -> (o: ObjectState)
        ensures
            o == self.spec_predicted(),
    {
        let mut o: ObjectState = self;
        if self.inert() {
            o.predicted_position = self.position;
            o.predicted_angle = self.angle;
        } else {
            o.predicted_position = self.position.plus(self.velocity);
            o.predicted_angle = self.angle.plus(self.angvel);
        }
        o
    }

    /// The body after integration.
    pub fn integrated(self) -> (o: ObjectState)
        ensures
            o == self.spec_integrated(),
    {
        let mut o: ObjectState = self;
        o.impulse = FVec2::zero();
        o.angular_impulse = Fixed::zero();
        match (
            self.impulse.checked_over_count(self.mass as u64),
            self.angular_impulse.checked_over_count(self.moment),
        ) {
            (Some(linear), Some(angular)) => {
                o.velocity = self.velocity.plus(linear);
                o.angvel = self.angvel.plus(angular);
                o.predicted_position = self.position.plus(o.velocity);
                o.predicted_angle = self.angle.plus(o.angvel);
            },
            _ => {
                o.predicted_position = self.position;
                o.predicted_angle = self.angle;
            },
        }
        o
    }

    /// The body after the step.
    pub fn finalized(self) -> (o: ObjectState)
        ensures
            o == self.spec_finalized(),
    {
        let mut o: ObjectState = self;
        o.position = self.predicted_position;
        o.angle = self.predicted_angle;
        o.num_constraints = 0;
        o
    }

    /// The angles that the host evaluates for this body's step.
    pub fn heading_angles(&self) -> (a: HeadingAngles)
        ensures
            a == self.spec_heading_angles(),
    {
        HeadingAngles {
            unwind: residual(self.angle.neg()),
            wind: residual(self.predicted_angle),
            turn: self.predicted_angle.minus(self.angle),
        }
    }

    /// How the body's cells move in this step.
    pub fn pose(&self, heading: &Heading) -> (p: Pose)
        ensures
            p == self.spec_pose(*heading),
            heading.wf() ==> p.wf(),
    {
        Pose {
            origin: self.position.round(),
            target: self.predicted_position.round(),
            quadrant: quadrant(self.angle),
            target_quadrant: quadrant(self.predicted_angle),
            unwind: heading.unwind,
            wind: heading.wind,
        }
    }
}

/// The store of all bodies, each in the slot that its identifier names.
pub struct ObjectFields {
    pub objects: Vec<ObjectState>,
}

impl ObjectFields {
    pub open spec fn view(&self) -> Seq<ObjectState> {
        self.objects@
    }

    /// Every slot has an identifier other than `NULL_OBJECT`.
    pub open spec fn wf(&self) -> bool {
        self.objects@.len() < NULL_OBJECT
    }

    /// A store of the given bodies, or `None` exactly when they are too many
    /// for each to have an identifier.
    pub fn new(objects: Vec<ObjectState>) -> (store: Option<ObjectFields>)
        ensures
            store.is_some() <==> objects@.len() < NULL_OBJECT,
            store.is_some() ==> store.unwrap()@ == objects@,
    {
        if objects.len() < NULL_OBJECT as usize {
            Some(ObjectFields { objects })
        } else {
            None
        }
    }

    pub fn len(&self) -> (n: usize)
        ensures
            n == self@.len(),
    {
        self.objects.len()
    }

    /// The body in the given slot, if there is one.
    pub fn get(&self, object: ObjectHost) -> (o: Option<ObjectState>)
        ensures
            o == if object.0 < self@.len() {
                Some(self@[object.0 as int])
            } else {
                None
            },
    {
        if object.index() < self.objects.len() {
            Some(self.objects[object.index()])
        } else {
            None
        }
    }

    /// Integrates every body: gathered impulses go into the velocities, the
    /// accumulators are emptied, and each body's prediction is made.
    pub fn integrate_and_predict(&mut self)
        ensures
            final(self)@.len() == old(self)@.len(),
            forall|i: int|
                0 <= i < old(self)@.len() ==> #[trigger] final(self)@[i] == old(
                    self,
                )@[i].spec_integrated(),
    {
        let n: usize = self.objects.len();
        let mut i: usize = 0;
        while i < n
            invariant
                0 <= i <= n,
                n == self.objects@.len(),
                self.objects@.len() == old(self).objects@.len(),
                forall|j: int| 0 <= j < i ==> #[trigger] self.objects@[j] == old(
                    self,
                ).objects@[j].spec_integrated(),
                forall|j: int| i <= j < n ==> #[trigger] self.objects@[j] == old(self).objects@[j],
            decreases n - i,
        {
            let o: ObjectState = self.objects[i];
            self.objects.set(i, o.integrated());
            i += 1;
        }
    }

    /// Applies what every body gathered to its velocities, scaled by `scale`.
    pub fn apply_impulses(&mut self, scale: Fixed)
        ensures
            final(self)@.len() == old(self)@.len(),
            forall|i: int|
                0 <= i < old(self)@.len() ==> #[trigger] final(self)@[i] == old(
                    self,
                )@[i].spec_applied(scale),
    {
        let n: usize = self.objects.len();
        let mut i: usize = 0;
        while i < n
            invariant
                0 <= i <= n,
                n == self.objects@.len(),
                self.objects@.len() == old(self).objects@.len(),
                forall|j: int| 0 <= j < i ==> #[trigger] self.objects@[j] == old(
                    self,
                ).objects@[j].spec_applied(scale),
                forall|j: int| i <= j < n ==> #[trigger] self.objects@[j] == old(self).objects@[j],
            decreases n - i,
        {
            let o: ObjectState = self.objects[i];
            self.objects.set(i, o.applied(scale));
            i += 1;
        }
    }

    /// Moves every body to where it was predicted to be.
    pub fn finalize(&mut self)
        ensures
            final(self)@.len() == old(self)@.len(),
            forall|i: int|
                0 <= i < old(self)@.len() ==> #[trigger] final(self)@[i] == old(
                    self,
                )@[i].spec_finalized(),
    {
        let n: usize = self.objects.len();
        let mut i: usize = 0;
        while i < n
            invariant
                0 <= i <= n,
                n == self.objects@.len(),
                self.objects@.len() == old(self).objects@.len(),
                forall|j: int| 0 <= j < i ==> #[trigger] self.objects@[j] == old(
                    self,
                ).objects@[j].spec_finalized(),
                forall|j: int| i <= j < n ==> #[trigger] self.objects@[j] == old(self).objects@[j],
            decreases n - i,
        {
            let o: ObjectState = self.objects[i];
            self.objects.set(i, o.finalized());
            i += 1;
        }
    }

    /// Adds an impulse to what a body gathered. Returns whether there is
    /// such a body; if there is none, nothing changes.
    pub fn apply_impulse(&mut self, object: ObjectHost, linear: FVec2, angular: Fixed) -> (applied:
        bool)
        ensures
            applied == (object.0 < old(self)@.len()),
            applied ==> final(self)@ == old(self)@.update(
                object.0 as int,
                old(self)@[object.0 as int].spec_pushed(linear, angular),
            ),
            !applied ==> final(self)@ == old(self)@,
    {
        let i: usize = object.index();
        if i >= self.objects.len() {
            return false;
        }
        let mut o: ObjectState = self.objects[i];
        o.impulse = o.impulse.plus(linear);
        o.angular_impulse = o.angular_impulse.plus(angular);
        self.objects.set(i, o);
        true
    }
}

/// An inert body stays where it is, step after step, whatever it gathered.
pub proof fn lemma_inert_stays(body: ObjectState)
    requires
        body.spec_inert(),
    ensures
        body.spec_integrated().spec_finalized().position == body.position,
        body.spec_integrated().spec_finalized().angle == body.angle,
        body.spec_integrated().spec_finalized().spec_inert(),
{
}

/// Integration is the application of what was gathered, unscaled, followed
/// by prediction.
pub proof fn lemma_integrated_is_applied_then_predicted(body: ObjectState)
    ensures
        body.spec_integrated() == body.spec_applied(Fixed::spec_one()).spec_predicted(),
{
    if !body.spec_inert() {
        let linear = body.impulse.spec_over_count(body.mass as int);
        let angular = body.angular_impulse.spec_over_count(body.moment as int);
        crate::fixed::lemma_identities(linear.x);
        crate::fixed::lemma_identities(linear.y);
        crate::fixed::lemma_identities(angular);
    }
}

} // verus!
