//! The resolution of collisions: every record becomes a contact between two
//! bodies, with a normal taken from their rejection vectors, and a few
//! passes of equal and opposite impulses along the normal slow the bodies'
//! approach.

use vstd::prelude::*;
use crate::collision::Collision;
use crate::fixed::Fixed;
use crate::grid::Grid;
use crate::object::{Heading, ObjectFields, ObjectHost, ObjectState, NULL_OBJECT};
use crate::physics::{CellView, PhysicsFields};
use crate::vector::{Cross, FVec2, IVec2};

verus! {

/// A collision prepared for resolution.
#[derive(Clone, Copy, Debug, PartialEq, Eq, Structural)]
pub struct Contact {
    /// The body whose claim was lost.
    pub a: u32,
    /// The body that holds the contended cell.
    pub b: u32,
    /// The contended cell, seen from the predicted centre of `a`.
    pub a_offset: FVec2,
    /// The contended cell, seen from the predicted centre of `b`.
    pub b_offset: FVec2,
    /// The unit vector along which the impulse acts, or zero.
    pub normal: FVec2,
    /// The mass that the two bodies oppose to an impulse along the normal.
    pub normal_mass: Fixed,
}

/// The reciprocal of a body's mass; zero for an inert body, which no impulse
/// moves.
pub open spec fn spec_inverse_mass(body: ObjectState) -> Fixed {
    if body.spec_inert() {
        Fixed::spec_zero()
    } else {
        Fixed::spec_one().spec_over_count(body.mass as int)
    }
}

/// The reciprocal of a body's moment; zero for an inert body.
pub open spec fn spec_inverse_moment(body: ObjectState) -> Fixed {
    if body.spec_inert() {
        Fixed::spec_zero()
    } else {
        Fixed::spec_one().spec_over_count(body.moment as int)
    }
}

/// How much of the lever `offset` lies across the normal: its length less
/// the square of its part along the normal.
pub open spec fn spec_lever(offset: FVec2, normal: FVec2) -> Fixed {
    let along = offset.spec_dot(normal);
    offset.spec_norm().spec_minus(along.spec_times(along))
}

/// The mass that two bodies oppose to an impulse along the normal: the
/// reciprocal of the sum of their inverse masses and of their inverse
/// moments, each weighted by its lever; zero if that sum is zero.
pub open spec fn spec_normal_mass(
    a: ObjectState,
    b: ObjectState,
    a_offset: FVec2,
    b_offset: FVec2,
    normal: FVec2,
) -> Fixed {
    let inverse = spec_inverse_mass(a).spec_plus(spec_inverse_mass(b)).spec_plus(
        spec_inverse_moment(a).spec_times(spec_lever(a_offset, normal)),
    ).spec_plus(spec_inverse_moment(b).spec_times(spec_lever(b_offset, normal)));
    if inverse.raw == 0 {
        Fixed::spec_zero()
    } else {
        Fixed::spec_one().spec_over(inverse)
    }
}

/// A body's rejection vector at a cell, turned as the body turns in this
/// step.
pub open spec fn spec_turned_rejection(rejection: IVec2, heading: Heading) -> FVec2 {
    FVec2::spec_from_cell(rejection).spec_rotate(heading.turn_cos, heading.turn_sin)
}

/// The contact that a record stands for: between the owner of the source
/// cell and the predicted owner of the contended cell, with the normal along
/// the difference of their turned rejection vectors, the one at the source
/// cell and the one at the cell that the holder's content came from. A
/// record whose cells name no two bodies of the store stands for none.
pub open spec fn spec_contact(
    grid: Grid,
    objects: Seq<ObjectState>,
    headings: Seq<Heading>,
    fields: CellView,
    record: Collision,
) -> Option<Contact> {
    let source = grid.spec_index(record.source);
    let dest = grid.spec_index(record.destination);
    let a = fields.object[source];
    let b = fields.predicted_object[dest];
    if !grid.spec_contains(record.source) || !grid.spec_contains(record.destination) || a
        >= objects.len() || b >= objects.len() || a >= headings.len() || b >= headings.len() {
        None
    } else {
        let held = match grid.spec_resolve(
            record.destination.x - fields.delta[dest].x,
            record.destination.y - fields.delta[dest].y,
        ) {
            Some(from) => fields.rejection[grid.spec_index(from)],
            None => IVec2 { x: 0, y: 0 },
        };
        let normal = spec_turned_rejection(fields.rejection[source], headings[a as int]).spec_minus(
            spec_turned_rejection(held, headings[b as int]),
        ).spec_normalize();
        let at = FVec2::spec_from_cell(record.destination);
        let a_offset = at.spec_minus(
            FVec2::spec_from_cell(objects[a as int].predicted_position.spec_round()),
        );
        let b_offset = at.spec_minus(
            FVec2::spec_from_cell(objects[b as int].predicted_position.spec_round()),
        );
        Some(
            Contact {
                a,
                b,
                a_offset,
                b_offset,
                normal,
                normal_mass: spec_normal_mass(
                    objects[a as int],
                    objects[b as int],
                    a_offset,
                    b_offset,
                    normal,
                ),
            },
        )
    }
}

/// The contacts of the first `upto` records, in their order.
pub open spec fn spec_contacts(
    grid: Grid,
    objects: Seq<ObjectState>,
    headings: Seq<Heading>,
    fields: CellView,
    records: Seq<Collision>,
    upto: int,
) -> Seq<Contact>
    decreases upto,
{
    if upto <= 0 {
        Seq::empty()
    } else {
        let before = spec_contacts(grid, objects, headings, fields, records, upto - 1);
        match spec_contact(grid, objects, headings, fields, records[upto - 1]) {
            Some(contact) => before.push(contact),
            None => before,
        }
    }
}

/// A body that takes part in one more contact. The count stops at its
/// largest value.
pub open spec fn spec_constrained(body: ObjectState) -> ObjectState {
    ObjectState {
        num_constraints: if body.num_constraints < u32::MAX {
            (body.num_constraints + 1) as u32
        } else {
            u32::MAX
        },
        ..body
    }
}

/// The bodies with the first `upto` contacts counted, each for both of its
/// bodies. A contact that names a body without a slot is not counted.
pub open spec fn spec_counted(objects: Seq<ObjectState>, contacts: Seq<Contact>, upto: int) -> Seq<
    ObjectState,
>
    decreases upto,
{
    if upto <= 0 {
        objects
    } else {
        let before = spec_counted(objects, contacts, upto - 1);
        let a = contacts[upto - 1].a as int;
        let b = contacts[upto - 1].b as int;
        if a >= before.len() || b >= before.len() {
            before
        } else {
            let first = before.update(a, spec_constrained(before[a]));
            first.update(b, spec_constrained(first[b]))
        }
    }
}

/// The impulse along the normal that a contact receives in one pass, and
/// the total that it has received then. The total never falls below zero:
/// contacts push and do not pull.
pub open spec fn spec_normal_impulse(
    a: ObjectState,
    b: ObjectState,
    contact: Contact,
    total: Fixed,
) -> (Fixed, Fixed) {
    let relative = b.velocity.spec_plus(b.angvel.spec_cross(contact.b_offset)).spec_minus(
        a.velocity,
    ).spec_minus(a.angvel.spec_cross(contact.a_offset));
    let approach = relative.spec_dot(contact.normal);
    let wanted = approach.spec_times(contact.normal_mass).spec_neg();
    let next = total.spec_plus(wanted).spec_max(Fixed::spec_zero());
    (next.spec_minus(total), next)
}

/// The impulse vector of a contact: along the normal, shared among as many
/// contacts as the busier of the two bodies takes part in.
pub open spec fn spec_impulse_vector(a: ObjectState, b: ObjectState, contact: Contact, size: Fixed) -> FVec2 {
    let share = if a.num_constraints >= b.num_constraints {
        a.num_constraints
    } else {
        b.num_constraints
    };
    if share == 0 {
        FVec2::spec_zero()
    } else {
        contact.normal.spec_scale(size).spec_over_count(share as int)
    }
}

/// The bodies and the contact's total after one pass over one contact: body
/// `a` gathers the impulse negated, body `b` gathers it as it is, and each
/// gathers the angular impulse that belongs to its lever.
pub open spec fn spec_collide_one(objects: Seq<ObjectState>, contact: Contact, total: Fixed) -> (
    Seq<ObjectState>,
    Fixed,
) {
    let a = contact.a as int;
    let b = contact.b as int;
    if a >= objects.len() || b >= objects.len() {
        (objects, total)
    } else {
        let (size, next) = spec_normal_impulse(objects[a], objects[b], contact, total);
        let vector = spec_impulse_vector(objects[a], objects[b], contact, size);
        let first = objects.update(
            a,
            objects[a].spec_pushed(vector.spec_neg(), vector.spec_cross(contact.a_offset)),
        );
        let second = first.update(
            b,
            first[b].spec_pushed(vector, vector.spec_cross(contact.b_offset).spec_neg()),
        );
        (second, next)
    }
}

/// The bodies and the totals after one pass over the first `upto` contacts.
pub open spec fn spec_collide_pass(
    objects: Seq<ObjectState>,
    contacts: Seq<Contact>,
    totals: Seq<Fixed>,
    upto: int,
) -> (Seq<ObjectState>, Seq<Fixed>)
    decreases upto,
{
    if upto <= 0 {
        (objects, totals)
    } else {
        let before = spec_collide_pass(objects, contacts, totals, upto - 1);
        let one = spec_collide_one(before.0, contacts[upto - 1], before.1[upto - 1]);
        (one.0, before.1.update(upto - 1, one.1))
    }
}

/// Every body with what it gathered applied, scaled by `scale`.
pub open spec fn spec_all_applied(objects: Seq<ObjectState>, scale: Fixed) -> Seq<ObjectState> {
    Seq::new(objects.len(), |i: int| objects[i].spec_applied(scale))
}

/// The bodies and the totals after `passes` more passes, each followed by
/// the application of what was gathered; the last application is scaled by
/// `restitution`.
pub open spec fn spec_resolved(
    objects: Seq<ObjectState>,
    contacts: Seq<Contact>,
    totals: Seq<Fixed>,
    passes: int,
    restitution: Fixed,
) -> (Seq<ObjectState>, Seq<Fixed>)
    decreases passes,
{
    if passes <= 0 {
        (objects, totals)
    } else {
        let pass = spec_collide_pass(objects, contacts, totals, contacts.len() as int);
        let scale = if passes == 1 {
            restitution
        } else {
            Fixed::spec_one()
        };
        spec_resolved(spec_all_applied(pass.0, scale), contacts, pass.1, passes - 1, restitution)
    }
}

/// Whether two bodies differ at most in what the resolution of collisions
/// changes: velocities, gathered impulses and the count of contacts.
pub open spec fn spec_same_placement(a: ObjectState, b: ObjectState) -> bool {
    &&& a.mass == b.mass
    &&& a.moment == b.moment
    &&& a.position == b.position
    &&& a.angle == b.angle
    &&& a.predicted_position == b.predicted_position
    &&& a.predicted_angle == b.predicted_angle
}

/// Whether two stores hold bodies of the same placement, slot by slot.
pub open spec fn spec_all_same_placement(a: Seq<ObjectState>, b: Seq<ObjectState>) -> bool {
    &&& a.len() == b.len()
    &&& forall|i: int| 0 <= i < a.len() ==> spec_same_placement(#[trigger] a[i], b[i])
}

/// Counting contacts moves no body.
pub proof fn lemma_counted_keeps_placement(objects: Seq<ObjectState>, contacts: Seq<Contact>, upto: int)
    ensures
        spec_all_same_placement(objects, spec_counted(objects, contacts, upto)),
    decreases upto,
{
    if upto > 0 {
        lemma_counted_keeps_placement(objects, contacts, upto - 1);
        let before = spec_counted(objects, contacts, upto - 1);
        let after = spec_counted(objects, contacts, upto);
        assert forall|i: int| 0 <= i < objects.len() implies spec_same_placement(
            #[trigger] objects[i],
            after[i],
        ) by {
            assert(spec_same_placement(objects[i], before[i]));
        }
    }
}

/// A pass over the contacts moves no body, and keeps one total per contact.
pub proof fn lemma_pass_keeps_placement(
    objects: Seq<ObjectState>,
    contacts: Seq<Contact>,
    totals: Seq<Fixed>,
    upto: int,
)
    requires
        upto <= totals.len(),
    ensures
        spec_all_same_placement(objects, spec_collide_pass(objects, contacts, totals, upto).0),
        spec_collide_pass(objects, contacts, totals, upto).1.len() == totals.len(),
    decreases upto,
{
    if upto > 0 {
        lemma_pass_keeps_placement(objects, contacts, totals, upto - 1);
        let before = spec_collide_pass(objects, contacts, totals, upto - 1);
        let after = spec_collide_pass(objects, contacts, totals, upto);
        assert forall|i: int| 0 <= i < objects.len() implies spec_same_placement(
            #[trigger] objects[i],
            after.0[i],
        ) by {
            assert(spec_same_placement(objects[i], before.0[i]));
        }
    }
}

/// The resolution of collisions moves no body: it changes velocities, and
/// leaves every position and every prediction as it was.
pub proof fn lemma_resolved_keeps_placement(
    objects: Seq<ObjectState>,
    contacts: Seq<Contact>,
    totals: Seq<Fixed>,
    passes: int,
    restitution: Fixed,
)
    requires
        contacts.len() == totals.len(),
    ensures
        spec_all_same_placement(
            objects,
            spec_resolved(objects, contacts, totals, passes, restitution).0,
        ),
    decreases passes,
{
    if passes > 0 {
        let pass = spec_collide_pass(objects, contacts, totals, contacts.len() as int);
        let scale = if passes == 1 {
            restitution
        } else {
            Fixed::spec_one()
        };
        let applied = spec_all_applied(pass.0, scale);
        lemma_pass_keeps_placement(objects, contacts, totals, contacts.len() as int);
        lemma_resolved_keeps_placement(applied, contacts, pass.1, passes - 1, restitution);
        let done = spec_resolved(applied, contacts, pass.1, passes - 1, restitution).0;
        assert forall|i: int| 0 <= i < objects.len() implies spec_same_placement(
            #[trigger] objects[i],
            done[i],
        ) by {
            assert(spec_same_placement(objects[i], pass.0[i]));
            assert(spec_same_placement(pass.0[i], applied[i]));
            assert(spec_same_placement(applied[i], done[i]));
        }
    }
}

fn inverse_mass(body: &ObjectState) -> (r: Fixed)
    ensures
        r == spec_inverse_mass(*body),
{
    if body.inert() {
        return Fixed::zero();
    }
    match Fixed::one().checked_over_count(body.mass as u64) {
        Some(r) => r,
        None => Fixed::zero(),
    }
}

fn inverse_moment(body: &ObjectState) -> (r: Fixed)
    ensures
        r == spec_inverse_moment(*body),
{
    if body.inert() {
        return Fixed::zero();
    }
    match Fixed::one().checked_over_count(body.moment) {
        Some(r) => r,
        None => Fixed::zero(),
    }
}

fn lever(offset: FVec2, normal: FVec2) -> (r: Fixed)
    ensures
        r == spec_lever(offset, normal),
{
    let along: Fixed = offset.dot(normal);
    offset.norm().minus(along.times(along))
}

fn normal_mass(a: &ObjectState, b: &ObjectState, a_offset: FVec2, b_offset: FVec2, normal: FVec2) -> (r:
    Fixed)
    ensures
        r == spec_normal_mass(*a, *b, a_offset, b_offset, normal),
{
    let inverse: Fixed = inverse_mass(a).plus(inverse_mass(b)).plus(
        inverse_moment(a).times(lever(a_offset, normal)),
    ).plus(inverse_moment(b).times(lever(b_offset, normal)));
    match Fixed::one().checked_over(inverse) {
        Some(r) => r,
        None => Fixed::zero(),
    }
}

impl Contact {
    /// The contact that a record stands for, if it stands for one.
    pub fn setup(
        grid: &Grid,
        objects: &ObjectFields,
        headings: &Vec<Heading>,
        fields: &PhysicsFields,
        record: &Collision,
    ) -> (contact: Option<Contact>)
        requires
            fields.wf(*grid),
        ensures
            contact == spec_contact(*grid, objects@, headings@, fields@, *record),
            contact.is_some() ==> contact.unwrap().a < objects@.len() && contact.unwrap().b
                < objects@.len(),
    {
        if !grid.contains(record.source) || !grid.contains(record.destination) {
            return None;
        }
        let source: usize = grid.index_of(record.source);
        let dest: usize = grid.index_of(record.destination);
        let a: u32 = fields.object[source];
        let b: u32 = fields.predicted_object[dest];
        if a as usize >= objects.len() || b as usize >= objects.len() || a as usize
            >= headings.len() || b as usize >= headings.len() {
            return None;
        }
        let moved: IVec2 = fields.delta[dest];
        let held: IVec2 = match grid.resolve(
            record.destination.x as i64 - moved.x as i64,
            record.destination.y as i64 - moved.y as i64,
        ) {
            Some(from) => fields.rejection[grid.index_of(from)],
            None => IVec2 { x: 0, y: 0 },
        };
        let body_a: ObjectState = objects.objects[a as usize];
        let body_b: ObjectState = objects.objects[b as usize];
        let heading_a: Heading = headings[a as usize];
        let heading_b: Heading = headings[b as usize];
        let normal: FVec2 = FVec2::from_cell(fields.rejection[source]).rotate(
            heading_a.turn_cos,
            heading_a.turn_sin,
        ).minus(FVec2::from_cell(held).rotate(heading_b.turn_cos, heading_b.turn_sin)).normalize();
        let at: FVec2 = FVec2::from_cell(record.destination);
        let a_offset: FVec2 = at.minus(FVec2::from_cell(body_a.predicted_position.round()));
        let b_offset: FVec2 = at.minus(FVec2::from_cell(body_b.predicted_position.round()));
        Some(
            Contact {
                a,
                b,
                a_offset,
                b_offset,
                normal,
                normal_mass: normal_mass(&body_a, &body_b, a_offset, b_offset, normal),
            },
        )
    }

    /// One pass over this contact: the two bodies gather equal and opposite
    /// impulses along the normal. Returns the contact's new total.
    pub fn collide(&self, objects: &mut ObjectFields, total: Fixed) -> (next: Fixed)
        ensures
            (final(objects)@, next) == spec_collide_one(old(objects)@, *self, total),
            final(objects)@.len() == old(objects)@.len(),
    {
        if self.a as usize >= objects.len() || self.b as usize >= objects.len() {
            return total;
        }
        let body_a: ObjectState = objects.objects[self.a as usize];
        let body_b: ObjectState = objects.objects[self.b as usize];
        let relative: FVec2 = body_b.velocity.plus(body_b.angvel.cross(self.b_offset)).minus(
            body_a.velocity,
        ).minus(body_a.angvel.cross(self.a_offset));
        let approach: Fixed = relative.dot(self.normal);
        let wanted: Fixed = approach.times(self.normal_mass).neg();
        let next: Fixed = total.plus(wanted).max(Fixed::zero());
        let size: Fixed = next.minus(total);
        let share: u32 = if body_a.num_constraints >= body_b.num_constraints {
            body_a.num_constraints
        } else {
            body_b.num_constraints
        };
        let vector: FVec2 = match self.normal.scale(size).checked_over_count(share as u64) {
            Some(v) => v,
            None => FVec2::zero(),
        };
        objects.apply_impulse(ObjectHost(self.a), vector.neg(), vector.cross(self.a_offset));
        objects.apply_impulse(ObjectHost(self.b), vector, vector.cross(self.b_offset).neg());
        next
    }
}

/// The contacts of all records, in their order.
pub fn setup_contacts(
    grid: &Grid,
    objects: &ObjectFields,
    headings: &Vec<Heading>,
    fields: &PhysicsFields,
    records: &Vec<Collision>,
) -> (contacts: Vec<Contact>)
    requires
        fields.wf(*grid),
    ensures
        contacts@ == spec_contacts(
            *grid,
            objects@,
            headings@,
            fields@,
            records@,
            records@.len() as int,
        ),
        forall|k: int|
            0 <= k < contacts@.len() ==> (#[trigger] contacts@[k]).a < objects@.len()
                && contacts@[k].b < objects@.len(),
{
    let mut contacts: Vec<Contact> = Vec::new();
    let n: usize = records.len();
    let mut i: usize = 0;
    while i < n
        invariant
            0 <= i <= n,
            n == records@.len(),
            fields.wf(*grid),
            contacts@ == spec_contacts(*grid, objects@, headings@, fields@, records@, i as int),
            forall|k: int|
                0 <= k < contacts@.len() ==> (#[trigger] contacts@[k]).a < objects@.len()
                    && contacts@[k].b < objects@.len(),
        decreases n - i,
    {
        match Contact::setup(grid, objects, headings, fields, &records[i]) {
            Some(contact) => {
                contacts.push(contact);
            },
            None => {},
        }
        i += 1;
    }
    contacts
}

/// Counts for every body the contacts that it takes part in.
pub fn count_constraints(objects: &mut ObjectFields, contacts: &Vec<Contact>)
    requires
        forall|k: int|
            0 <= k < contacts@.len() ==> (#[trigger] contacts@[k]).a < old(objects)@.len()
                && contacts@[k].b < old(objects)@.len(),
    ensures
        final(objects)@ == spec_counted(old(objects)@, contacts@, contacts@.len() as int),
        final(objects)@.len() == old(objects)@.len(),
{
    let n: usize = contacts.len();
    let mut i: usize = 0;
    while i < n
        invariant
            0 <= i <= n,
            n == contacts@.len(),
            objects@.len() == old(objects)@.len(),
            forall|k: int|
                0 <= k < contacts@.len() ==> (#[trigger] contacts@[k]).a < objects@.len()
                    && contacts@[k].b < objects@.len(),
            objects@ == spec_counted(old(objects)@, contacts@, i as int),
        decreases n - i,
    {
        let a: usize = contacts[i].a as usize;
        let b: usize = contacts[i].b as usize;
        let mut body: ObjectState = objects.objects[a];
        if body.num_constraints < u32::MAX {
            body.num_constraints = body.num_constraints + 1;
        }
        objects.objects.set(a, body);
        let mut other: ObjectState = objects.objects[b];
        if other.num_constraints < u32::MAX {
            other.num_constraints = other.num_constraints + 1;
        }
        objects.objects.set(b, other);
        i += 1;
    }
}

/// One pass over all contacts, in their order.
pub fn collide_pass(objects: &mut ObjectFields, contacts: &Vec<Contact>, totals: &mut Vec<Fixed>)
    requires
        old(totals)@.len() == contacts@.len(),
    ensures
        (final(objects)@, final(totals)@) == spec_collide_pass(
            old(objects)@,
            contacts@,
            old(totals)@,
            contacts@.len() as int,
        ),
        final(objects)@.len() == old(objects)@.len(),
        final(totals)@.len() == contacts@.len(),
{
    let n: usize = contacts.len();
    let mut i: usize = 0;
    while i < n
        invariant
            0 <= i <= n,
            n == contacts@.len(),
            totals@.len() == n,
            objects@.len() == old(objects)@.len(),
            (objects@, totals@) == spec_collide_pass(
                old(objects)@,
                contacts@,
                old(totals)@,
                i as int,
            ),
        decreases n - i,
    {
        let total: Fixed = totals[i];
        let next: Fixed = contacts[i].collide(objects, total);
        totals.set(i, next);
        i += 1;
    }
}

/// Resolves the contacts: `passes` passes, each followed by the application
/// of what the bodies gathered, the last one scaled by `restitution`.
pub fn resolve(objects: &mut ObjectFields, contacts: &Vec<Contact>, passes: u32, restitution: Fixed) -> (totals:
    Vec<Fixed>)
    ensures
        (final(objects)@, totals@) == spec_resolved(
            old(objects)@,
            contacts@,
            Seq::new(contacts@.len(), |k: int| Fixed::spec_zero()),
            passes as int,
            restitution,
        ),
        final(objects)@.len() == old(objects)@.len(),
{
    let mut totals: Vec<Fixed> = Vec::new();
    let n: usize = contacts.len();
    let mut k: usize = 0;
    while k < n
        invariant
            0 <= k <= n,
            n == contacts@.len(),
            totals@ == Seq::new(k as nat, |k: int| Fixed::spec_zero()),
        decreases n - k,
    {
        totals.push(Fixed::zero());
        assert(totals@ =~= Seq::new((k + 1) as nat, |k: int| Fixed::spec_zero()));
        k += 1;
    }
    let ghost start = totals@;
    let mut left: u32 = passes;
    while left > 0
        invariant
            totals@.len() == contacts@.len(),
            objects@.len() == old(objects)@.len(),
            spec_resolved(objects@, contacts@, totals@, left as int, restitution) == spec_resolved(
                old(objects)@,
                contacts@,
                start,
                passes as int,
                restitution,
            ),
        decreases left,
    {
        collide_pass(objects, contacts, &mut totals);
        let scale: Fixed = if left == 1 {
            restitution
        } else {
            Fixed::one()
        };
        let ghost gathered = objects@;
        objects.apply_impulses(scale);
        assert(objects@ =~= spec_all_applied(gathered, scale));
        left -= 1;
    }
    totals
}

} // verus!
