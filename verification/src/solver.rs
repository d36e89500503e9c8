//! The solver: one context that holds the grid, the bodies, the cell fields
//! and the collision list, and takes them through a step.
//!
//! A step has two halves. `integrate` predicts where every body will be.
//! The host then evaluates the trigonometry of the angles that
//! `heading_angles` names, and `step` does the rest: it withdraws the claims
//! of the last step, moves the cells, reads the collision count back,
//! resolves the collisions, commits bodies and cells, and refreshes the
//! rejection field. Withdrawing claims and integrating touch different
//! state, so it does not matter which of the two comes first.

use vstd::prelude::*;
use crate::claims::{claims, contenders, lemma_single_claim, loses, winner, wins};
use crate::collision::{CapacityOverflow, CollisionFields};
use crate::contact::{count_constraints, lemma_counted_keeps_placement,
    lemma_resolved_keeps_placement, resolve, setup_contacts, spec_contacts, spec_counted,
    spec_resolved, spec_same_placement, Contact};
use crate::fixed::Fixed;
use crate::grid::Grid;
use crate::init::{flatten, lemma_initial_body_in_range, make_bodies, spec_initial_body,
    spec_mass, spec_moment, spec_owners_known, InitData, InitError};
use crate::object::{Heading, HeadingAngles, ObjectFields, ObjectState, NULL_OBJECT};
use crate::physics::{count_owned, lemma_cell_conservation, lemma_claims_all_bounded,
    lemma_destination, spec_cleared, spec_committed, spec_destinations, spec_fresh, spec_moved,
    spec_offset, spec_records, CellView, PhysicsFields};
use crate::rejection::spec_refreshed_all;
use crate::rotation::Pose;
use crate::world::World;

verus! {

/// How the solver is set up.
#[derive(Clone, Copy, Debug, PartialEq, Eq, Structural)]
pub struct SolverConfig {
    /// How many slots the store of bodies has.
    pub num_objects: u32,
    /// How many collisions a step may report.
    pub capacity: usize,
    /// How many passes resolve the collisions of a step.
    pub iterations: u32,
    /// By how much the impulses of the last pass are scaled.
    pub restitution: Fixed,
}

impl SolverConfig {
    /// Sixteen bodies, room for 1024 collisions, four passes, and a tenth
    /// more than the impulse that stops the approach.
    pub open spec fn spec_standard() -> SolverConfig {
        SolverConfig {
            num_objects: 16,
            capacity: 1024,
            iterations: 4,
            restitution: Fixed { raw: 72090 },
        }
    }

    pub fn standard() -> (config: SolverConfig)
        ensures
            config == SolverConfig::spec_standard(),
    {
        SolverConfig {
            num_objects: 16,
            capacity: 1024,
            iterations: 4,
            restitution: Fixed::from_raw(72090),
        }
    }
}

impl Default for SolverConfig {
    fn default() -> (config: SolverConfig)
        ensures
            config == SolverConfig::spec_standard(),
    {
        SolverConfig::standard()
    }
}

/// Why a step was not taken.
#[derive(Clone, Copy, Debug, PartialEq, Eq, Structural)]
pub enum StepError {
    /// There is not one heading per body, or a heading has a shear with a
    /// coefficient beyond one.
    Headings,
    /// The step reported more collisions than the list holds. Nothing was
    /// committed: bodies and cells are where they were.
    Overflow(CapacityOverflow),
}

/// What a step did.
#[derive(Clone, Copy, Debug, PartialEq, Eq, Structural)]
pub struct StepReport {
    /// How many claims were lost.
    pub collisions: usize,
    /// How many of them became contacts between two bodies.
    pub contacts: usize,
}

/// The physics core.
pub struct Solver {
    pub world: World,
    pub objects: ObjectFields,
    pub physics: PhysicsFields,
    pub collisions: CollisionFields,
    pub config: SolverConfig,
}

/// The pose of every body under its heading.
pub open spec fn spec_poses(objects: Seq<ObjectState>, headings: Seq<Heading>) -> Seq<Pose> {
    Seq::new(objects.len(), |i: int| objects[i].spec_pose(headings[i]))
}

/// Whether there is one heading per body, each with shears in range.
pub open spec fn spec_headings_fit(objects: Seq<ObjectState>, headings: Seq<Heading>) -> bool {
    &&& headings.len() == objects.len()
    &&& forall|i: int| 0 <= i < headings.len() ==> (#[trigger] headings[i]).wf()
}

/// The cell fields after the cells have moved: claims withdrawn, then made
/// anew under the bodies' poses.
pub open spec fn spec_step_cells(
    grid: Grid,
    objects: Seq<ObjectState>,
    headings: Seq<Heading>,
    cells: CellView,
) -> CellView {
    spec_moved(grid, spec_poses(objects, headings), spec_cleared(cells))
}

/// The lost claims of a step: the cell that lost, and the cell it lost.
pub open spec fn spec_step_pairs(
    grid: Grid,
    objects: Seq<ObjectState>,
    headings: Seq<Heading>,
    cells: CellView,
) -> Seq<(int, int)> {
    contenders(
        spec_destinations(grid, spec_poses(objects, headings), cells.object),
        cells.object.len() as int,
    )
}

/// The contacts of a step whose collisions all found room in the list.
pub open spec fn spec_step_contacts(
    grid: Grid,
    objects: Seq<ObjectState>,
    headings: Seq<Heading>,
    cells: CellView,
) -> Seq<Contact> {
    let pairs = spec_step_pairs(grid, objects, headings, cells);
    let records = spec_records(grid, pairs, pairs.len() as int);
    spec_contacts(
        grid,
        objects,
        headings,
        spec_step_cells(grid, objects, headings, cells),
        records,
        records.len() as int,
    )
}

/// The bodies after a step whose collisions all found room in the list:
/// contacts counted, collisions resolved, and every body moved to where it
/// was predicted to be.
pub open spec fn spec_step_bodies(
    grid: Grid,
    objects: Seq<ObjectState>,
    headings: Seq<Heading>,
    cells: CellView,
    config: SolverConfig,
) -> Seq<ObjectState> {
    let contacts = spec_step_contacts(grid, objects, headings, cells);
    let counted = spec_counted(objects, contacts, contacts.len() as int);
    let resolved = spec_resolved(
        counted,
        contacts,
        Seq::new(contacts.len(), |k: int| Fixed::spec_zero()),
        config.iterations as int,
        config.restitution,
    ).0;
    Seq::new(objects.len(), |i: int| resolved[i].spec_finalized())
}

/// A step moves every body to where it was predicted to be, and changes
/// neither its mass nor its moment.
pub proof fn lemma_step_keeps_placement(
    grid: Grid,
    objects: Seq<ObjectState>,
    headings: Seq<Heading>,
    cells: CellView,
    config: SolverConfig,
)
    ensures
        spec_step_bodies(grid, objects, headings, cells, config).len() == objects.len(),
        forall|i: int|
            0 <= i < objects.len() ==> {
                let after = #[trigger] spec_step_bodies(grid, objects, headings, cells, config)[i];
                &&& after.position == objects[i].predicted_position
                &&& after.angle == objects[i].predicted_angle
                &&& after.mass == objects[i].mass
                &&& after.moment == objects[i].moment
            },
{
    let contacts = spec_step_contacts(grid, objects, headings, cells);
    let counted = spec_counted(objects, contacts, contacts.len() as int);
    let zeros = Seq::new(contacts.len(), |k: int| Fixed::spec_zero());
    let resolved = spec_resolved(
        counted,
        contacts,
        zeros,
        config.iterations as int,
        config.restitution,
    ).0;
    lemma_counted_keeps_placement(objects, contacts, contacts.len() as int);
    lemma_resolved_keeps_placement(
        counted,
        contacts,
        zeros,
        config.iterations as int,
        config.restitution,
    );
    assert forall|i: int| 0 <= i < objects.len() implies {
        let after = #[trigger] spec_step_bodies(grid, objects, headings, cells, config)[i];
        &&& after.position == objects[i].predicted_position
        &&& after.angle == objects[i].predicted_angle
        &&& after.mass == objects[i].mass
        &&& after.moment == objects[i].moment
    } by {
        assert(spec_same_placement(objects[i], counted[i]));
        assert(spec_same_placement(counted[i], resolved[i]));
    }
}

/// A body without mass or moment is, after integration and the rest of the
/// step, where it was and turned as it was, whatever it gathered and
/// whatever happens to the others; and it is without mass or moment still.
pub proof fn lemma_inert_body_stays(
    grid: Grid,
    objects: Seq<ObjectState>,
    headings: Seq<Heading>,
    cells: CellView,
    config: SolverConfig,
    i: int,
)
    requires
        0 <= i < objects.len(),
        objects[i].spec_inert(),
    ensures
        ({
            let integrated = Seq::new(objects.len(), |k: int| objects[k].spec_integrated());
            let after = spec_step_bodies(grid, integrated, headings, cells, config)[i];
            &&& after.position == objects[i].position
            &&& after.angle == objects[i].angle
            &&& after.spec_inert()
        }),
{
    let integrated = Seq::new(objects.len(), |k: int| objects[k].spec_integrated());
    lemma_step_keeps_placement(grid, integrated, headings, cells, config);
    assert(integrated[i] == objects[i].spec_integrated());
}

/// Cell conservation. No more cells are owned after a step than before it:
/// a cell is owned after the step only if it was claimed, no more cells are
/// claimed than there are cells that claim, and only owned cells claim.
pub proof fn lemma_step_conserves_cells(
    grid: Grid,
    objects: Seq<ObjectState>,
    headings: Seq<Heading>,
    cells: CellView,
)
    requires
        cells.object.len() <= u32::MAX,
    ensures
        count_owned(
            spec_refreshed_all(
                grid,
                spec_committed(spec_step_cells(grid, objects, headings, cells)),
            ).object,
        ) <= count_owned(cells.object),
{
    let poses = spec_poses(objects, headings);
    let n = cells.object.len() as int;
    let dests = spec_destinations(grid, poses, cells.object);
    let moved = spec_step_cells(grid, objects, headings, cells);
    let committed = spec_committed(moved);
    assert(spec_cleared(cells).object == cells.object);
    lemma_claims_all_bounded(dests, n);
    assert forall|d: int|
        0 <= d < committed.object.len() && #[trigger] committed.object[d]
            != NULL_OBJECT implies claims(spec_destinations(grid, poses, cells.object), d, n)
        > 0 by {
        assert(moved.lock[d] == claims(dests, d, n) as u32);
    }
    lemma_cell_conservation(grid, poses, cells.object, committed.object);
}

/// Single claim. Of the cells whose content goes to one destination, the
/// first wins it: the destination takes that cell's owner and its offset
/// from that cell, and the cell is in no collision. Every other one loses
/// it: the destination keeps what the winner left, and the cell is in
/// exactly one collision, the one at `place`, with that destination.
pub proof fn lemma_step_single_claim(
    grid: Grid,
    objects: Seq<ObjectState>,
    headings: Seq<Heading>,
    cells: CellView,
    s: int,
) -> (place: int)
    requires
        grid.wf(),
        cells.object.len() == grid.spec_len(),
        0 <= s < cells.object.len(),
    ensures
        ({
            let dests = spec_destinations(grid, spec_poses(objects, headings), cells.object);
            let pairs = spec_step_pairs(grid, objects, headings, cells);
            let moved = spec_step_cells(grid, objects, headings, cells);
            match dests[s] {
                Some(d) => {
                    &&& 0 <= d < cells.object.len()
                    &&& wins(dests, s) != loses(dests, s)
                    &&& wins(dests, s) ==> {
                        &&& moved.predicted_object[d] == cells.object[s]
                        &&& moved.delta[d] == spec_offset(grid.spec_cell(s), grid.spec_cell(d))
                        &&& forall|k: int| 0 <= k < pairs.len() ==> (#[trigger] pairs[k]).0 != s
                    }
                    &&& loses(dests, s) ==> {
                        &&& winner(dests, d, cells.object.len() as int).is_some()
                        &&& winner(dests, d, cells.object.len() as int).unwrap() < s
                        &&& moved.predicted_object[d] == cells.object[winner(
                            dests,
                            d,
                            cells.object.len() as int,
                        ).unwrap()]
                        &&& 0 <= place < pairs.len()
                        &&& pairs[place] == (s, d)
                        &&& forall|k: int|
                            0 <= k < pairs.len() && (#[trigger] pairs[k]).0 == s ==> k == place
                    }
                },
                None => forall|k: int| 0 <= k < pairs.len() ==> (#[trigger] pairs[k]).0 != s,
            }
        }),
{
    let poses = spec_poses(objects, headings);
    let n = cells.object.len() as int;
    let dests = spec_destinations(grid, poses, cells.object);
    assert(spec_cleared(cells).object == cells.object);
    assert(spec_cleared(cells).delta == cells.delta);
    lemma_destination(grid, poses, cells.object, s);
    let place = lemma_single_claim(dests, n, s);
    match dests[s] {
        Some(d) => {
            crate::claims::lemma_winner(dests, d, n);
            crate::claims::lemma_winner(dests, d, s);
            crate::claims::lemma_claims_bound(dests, d, s, n);
            if loses(dests, s) {
                let w = winner(dests, d, n).unwrap();
                if w >= s {
                    crate::claims::lemma_claims_bound(dests, d, s, w);
                    assert(false);
                }
            }
        },
        None => {},
    }
    place
}

impl Solver {
    pub open spec fn wf(&self) -> bool {
        &&& self.world.grid.wf()
        &&& self.objects.wf()
        &&& self.physics.wf(self.world.grid)
        &&& self.collisions.wf()
    }

    /// The world that the initial data describe, with the rejection field
    /// refreshed once, or the reason why there is none: first the grid, then
    /// the number of slots, then the bitmap's shape, then its owners.
    pub fn new(world: World, init: &InitData, config: SolverConfig) -> (made: Result<
        Solver,
        InitError,
    >)
        ensures
            match made {
                Ok(solver) => {
                    &&& world.grid.wf()
                    &&& config.num_objects < NULL_OBJECT
                    &&& init.spec_fits(world.grid)
                    &&& spec_owners_known(init.spec_flat(world.grid), config.num_objects as int)
                    &&& solver.wf()
                    &&& solver.world == world
                    &&& solver.config == config
                    &&& solver.collisions@.len() == 0
                    &&& solver.collisions.next == 0
                    &&& solver.collisions.capacity == config.capacity
                    &&& solver.physics@ == spec_refreshed_all(
                        world.grid,
                        spec_fresh(init.spec_flat(world.grid)),
                    )
                    &&& solver.objects@.len() == config.num_objects
                    &&& forall|o: int|
                        0 <= o < config.num_objects ==> {
                            &&& #[trigger] solver.objects@[o] == spec_initial_body(
                                world.grid,
                                *init,
                                o as u32,
                            )
                            &&& solver.objects@[o].mass == spec_mass(
                                init.spec_flat(world.grid),
                                o as u32,
                            )
                            &&& solver.objects@[o].moment == spec_moment(
                                world.grid.width as int,
                                init.spec_flat(world.grid),
                                o as u32,
                            )
                        }
                },
                Err(e) => if !world.grid.wf() {
                    e == InitError::Grid
                } else if config.num_objects >= NULL_OBJECT {
                    e == InitError::TooManyObjects
                } else if !init.spec_fits(world.grid) {
                    e == InitError::Shape
                } else {
                    e == InitError::UnknownObject && !spec_owners_known(
                        init.spec_flat(world.grid),
                        config.num_objects as int,
                    )
                },
            },
    {
        let grid: Grid = match Grid::new(
            world.grid.start,
            world.grid.width,
            world.grid.height,
            world.grid.wrapping,
        ) {
            Some(g) => g,
            None => {
                return Err(InitError::Grid);
            },
        };
        if config.num_objects == NULL_OBJECT {
            return Err(InitError::TooManyObjects);
        }
        let object: Vec<u32> = match flatten(&grid, init, config.num_objects) {
            Ok(object) => object,
            Err(e) => {
                return Err(e);
            },
        };
        let bodies: Vec<ObjectState> = make_bodies(&grid, init, &object, config.num_objects);
        proof {
            let flat = init.spec_flat(grid);
            assert forall|o: int| 0 <= o < config.num_objects implies (#[trigger] bodies@[o]).mass
                == spec_mass(flat, o as u32) && bodies@[o].moment == spec_moment(
                grid.width as int,
                flat,
                o as u32,
            ) by {
                lemma_initial_body_in_range(grid, *init, o as u32);
            }
        }
        let objects: ObjectFields = ObjectFields { objects: bodies };
        let mut physics: PhysicsFields = match PhysicsFields::new(&grid, object) {
            Some(fields) => fields,
            None => {
                return Err(InitError::Shape);
            },
        };
        physics.refresh_rejection(&grid);
        Ok(
            Solver {
                world,
                objects,
                physics,
                collisions: CollisionFields::new(config.capacity),
                config,
            },
        )
    }

    /// Integrates every body and predicts where it will be after the step.
    pub fn integrate(&mut self)
        requires
            old(self).wf(),
        ensures
            final(self).wf(),
            final(self).world == old(self).world,
            final(self).config == old(self).config,
            final(self).physics == old(self).physics,
            final(self).collisions == old(self).collisions,
            final(self).objects@.len() == old(self).objects@.len(),
            forall|i: int|
                0 <= i < old(self).objects@.len() ==> #[trigger] final(self).objects@[i] == old(
                    self,
                ).objects@[i].spec_integrated(),
    {
        self.objects.integrate_and_predict();
    }

    /// The angles whose trigonometry the host evaluates for this step, one
    /// set per body.
    pub fn heading_angles(&self) -> (angles: Vec<HeadingAngles>)
        ensures
            angles@.len() == self.objects@.len(),
            forall|i: int|
                0 <= i < angles@.len() ==> #[trigger] angles@[i]
                    == self.objects@[i].spec_heading_angles(),
    {
        let mut angles: Vec<HeadingAngles> = Vec::new();
        let n: usize = self.objects.len();
        let mut i: usize = 0;
        while i < n
            invariant
                0 <= i <= n,
                n == self.objects@.len(),
                angles@.len() == i,
                forall|k: int|
                    0 <= k < i ==> #[trigger] angles@[k] == self.objects@[k].spec_heading_angles(),
            decreases n - i,
        {
            angles.push(self.objects.objects[i].heading_angles());
            i += 1;
        }
        angles
    }

    /// Whether there is one heading per body, each with shears in range.
    pub fn headings_fit(&self, headings: &Vec<Heading>) -> (fit: bool)
        ensures
            fit == spec_headings_fit(self.objects@, headings@),
    {
        if headings.len() != self.objects.len() {
            return false;
        }
        let n: usize = headings.len();
        let mut i: usize = 0;
        while i < n
            invariant
                0 <= i <= n,
                n == headings@.len(),
                forall|k: int| 0 <= k < i ==> (#[trigger] headings@[k]).wf(),
            decreases n - i,
        {
            if !headings[i].is_valid() {
                return false;
            }
            i += 1;
        }
        true
    }

    /// The pose of every body under its heading.
    fn poses(&self, headings: &Vec<Heading>) -> (poses: Vec<Pose>)
        requires
            spec_headings_fit(self.objects@, headings@),
        ensures
            poses@ == spec_poses(self.objects@, headings@),
            forall|i: int| 0 <= i < poses@.len() ==> (#[trigger] poses@[i]).wf(),
    {
        let mut poses: Vec<Pose> = Vec::new();
        let n: usize = self.objects.len();
        let mut i: usize = 0;
        while i < n
            invariant
                0 <= i <= n,
                n == self.objects@.len(),
                spec_headings_fit(self.objects@, headings@),
                poses@.len() == i,
                forall|k: int|
                    0 <= k < i ==> #[trigger] poses@[k] == self.objects@[k].spec_pose(headings@[k])
                        && poses@[k].wf(),
            decreases n - i,
        {
            poses.push(self.objects.objects[i].pose(&headings[i]));
            i += 1;
        }
        assert(poses@ =~= spec_poses(self.objects@, headings@));
        poses
    }

    /// Takes the world through the rest of a step.
    ///
    /// Without one heading per body in range, nothing happens. Otherwise the
    /// cells move. If more claims are lost than the collision list holds,
    /// the step ends there: the claims stay as they were made, and neither
    /// bodies nor owners nor rejection vectors change. Otherwise the
    /// collisions are resolved, every body is where it was predicted to be,
    /// every claimed cell is owned by the body whose content claimed it
    /// first and no other cell is owned, and the rejection field is
    /// refreshed. No more cells are owned after the step than before it.
    pub fn step(&mut self, headings: &Vec<Heading>) -> (done: Result<StepReport, StepError>)
        requires
            old(self).wf(),
        ensures
            final(self).wf(),
            final(self).world == old(self).world,
            final(self).config == old(self).config,
            final(self).collisions.capacity == old(self).collisions.capacity,
            final(self).objects@.len() == old(self).objects@.len(),
            match done {
                Err(StepError::Headings) => {
                    &&& !spec_headings_fit(old(self).objects@, headings@)
                    &&& final(self).objects@ == old(self).objects@
                    &&& final(self).physics@ == old(self).physics@
                    &&& final(self).collisions@ == old(self).collisions@
                    &&& final(self).collisions.next == old(self).collisions.next
                },
                Err(StepError::Overflow(e)) => {
                    let pairs = spec_step_pairs(
                        old(self).world.grid,
                        old(self).objects@,
                        headings@,
                        old(self).physics@,
                    );
                    &&& spec_headings_fit(old(self).objects@, headings@)
                    &&& pairs.len() > old(self).collisions.capacity
                    &&& e.reported == pairs.len()
                    &&& e.capacity == old(self).collisions.capacity
                    &&& final(self).objects@ == old(self).objects@
                    &&& final(self).physics@ == spec_step_cells(
                        old(self).world.grid,
                        old(self).objects@,
                        headings@,
                        old(self).physics@,
                    )
                    &&& final(self).collisions.next == pairs.len()
                    &&& final(self).collisions@ == spec_records(
                        old(self).world.grid,
                        pairs,
                        old(self).collisions.capacity as int,
                    )
                },
                Ok(report) => {
                    let pairs = spec_step_pairs(
                        old(self).world.grid,
                        old(self).objects@,
                        headings@,
                        old(self).physics@,
                    );
                    &&& spec_headings_fit(old(self).objects@, headings@)
                    &&& pairs.len() <= old(self).collisions.capacity
                    &&& report.collisions == pairs.len()
                    &&& report.contacts == spec_step_contacts(
                        old(self).world.grid,
                        old(self).objects@,
                        headings@,
                        old(self).physics@,
                    ).len()
                    &&& final(self).collisions.next == pairs.len()
                    &&& final(self).collisions@ == spec_records(
                        old(self).world.grid,
                        pairs,
                        pairs.len() as int,
                    )
                    &&& final(self).objects@ == spec_step_bodies(
                        old(self).world.grid,
                        old(self).objects@,
                        headings@,
                        old(self).physics@,
                        old(self).config,
                    )
                    &&& final(self).physics@ == spec_refreshed_all(
                        old(self).world.grid,
                        spec_committed(
                            spec_step_cells(
                                old(self).world.grid,
                                old(self).objects@,
                                headings@,
                                old(self).physics@,
                            ),
                        ),
                    )
                    &&& count_owned(final(self).physics@.object) <= count_owned(
                        old(self).physics@.object,
                    )
                    &&& forall|i: int|
                        0 <= i < old(self).objects@.len() ==> {
                            &&& (#[trigger] final(self).objects@[i]).position == old(
                                self,
                            ).objects@[i].predicted_position
                            &&& final(self).objects@[i].angle == old(
                                self,
                            ).objects@[i].predicted_angle
                            &&& final(self).objects@[i].mass == old(self).objects@[i].mass
                            &&& final(self).objects@[i].moment == old(self).objects@[i].moment
                        }
                },
            },
    {
        if !self.headings_fit(headings) {
            return Err(StepError::Headings);
        }
        let grid: Grid = self.world.grid;
        let cells: usize = grid.len();
        let poses: Vec<Pose> = self.poses(headings);
        let ghost bodies = self.objects@;
        let ghost before = self.physics@;
        let ghost dests = spec_destinations(grid, poses@, before.object);
        let ghost pairs = contenders(dests, before.object.len() as int);
        self.physics.clear(&grid);
        self.collisions.clear();
        self.physics.predict_move(&grid, &poses, &mut self.collisions);
        let ghost moved = self.physics@;
        proof {
            assert(before.object.len() == cells);
            assert(spec_cleared(before).object == before.object);
            assert(moved == spec_step_cells(grid, bodies, headings@, before));
            assert(pairs == spec_step_pairs(grid, bodies, headings@, before));
        }
        let count: usize = match self.collisions.len() {
            Ok(count) => count,
            Err(e) => {
                return Err(StepError::Overflow(e));
            },
        };
        proof {
            assert(self.collisions@ =~= spec_records(grid, pairs, pairs.len() as int));
        }
        let contacts: Vec<Contact> = setup_contacts(
            &grid,
            &self.objects,
            headings,
            &self.physics,
            &self.collisions.data,
        );
        count_constraints(&mut self.objects, &contacts);
        let ghost counted = self.objects@;
        let totals: Vec<Fixed> = resolve(
            &mut self.objects,
            &contacts,
            self.config.iterations,
            self.config.restitution,
        );
        let ghost resolved = self.objects@;
        self.objects.finalize();
        self.physics.finalize_move(&grid);
        let ghost committed = self.physics@;
        self.physics.refresh_rejection(&grid);
        proof {
            assert(self.objects@ =~= spec_step_bodies(
                grid,
                bodies,
                headings@,
                before,
                self.config,
            ));
            lemma_step_keeps_placement(grid, bodies, headings@, before, self.config);
            lemma_step_conserves_cells(grid, bodies, headings@, before);
            assert(spec_refreshed_all(grid, committed).object == committed.object);
        }
        Ok(StepReport { collisions: count, contacts: contacts.len() })
    }
}

} // verus!
