use limbo::collision::Collision;
use limbo::contact::{collide_pass, count_constraints, resolve, setup_contacts, Contact};
use limbo::fixed::Fixed;
use limbo::grid::Grid;
use limbo::init::InitData;
use limbo::object::{Heading, ObjectFields, ObjectState, NULL_OBJECT};
use limbo::render::LightParameters;
use limbo::solver::{Solver, SolverConfig};
use limbo::vector::{FVec2, IVec2};
use limbo::world::World;

fn q16(value: f64) -> Fixed {
    Fixed::from_raw((value * 65536.0).round() as i64)
}

fn pair(x: f64, y: f64) -> FVec2 {
    FVec2::new(q16(x), q16(y))
}

/// Three bodies of two cells each, all on their way to the column x = 3.
fn crossing() -> Solver {
    let grid = Grid::new(IVec2::new(0, 0), 8, 8, false).unwrap();
    let mut cells = vec![vec![NULL_OBJECT; 8]; 8];
    cells[2][4] = 0;
    cells[2][5] = 0;
    cells[4][4] = 1;
    cells[4][5] = 1;
    cells[3][2] = 2;
    cells[3][3] = 2;
    let init = InitData {
        cells,
        object_velocities: vec![pair(1.0, 0.0), pair(-1.0, 0.0), pair(0.0, 1.0)],
        object_angvels: vec![],
    };
    let config = SolverConfig { num_objects: 3, capacity: 8, ..SolverConfig::standard() };
    match Solver::new(World::on(grid).unwrap(), &init, config) {
        Ok(solver) => solver,
        Err(e) => panic!("{:?}", e),
    }
}

fn cell_index(solver: &Solver, x: i32, y: i32) -> usize {
    solver.world.grid.index_of(IVec2::new(x, y))
}

#[test]
fn one_claim_wins_and_the_others_are_listed_once() {
    let mut solver = crossing();
    solver.integrate();
    let headings = vec![Heading::rest(); 3];
    let report = solver.step(&headings).unwrap();
    assert_eq!(report.collisions, 3);
    // The cells are heard row by row: the cell from below reaches (3, 4)
    // first, and the one from the left reaches (3, 5) first.
    assert_eq!(
        solver.collisions.data,
        vec![
            Collision { source: IVec2::new(2, 4), destination: IVec2::new(3, 4) },
            Collision { source: IVec2::new(4, 4), destination: IVec2::new(3, 4) },
            Collision { source: IVec2::new(4, 5), destination: IVec2::new(3, 5) },
        ]
    );
    assert_eq!(solver.physics.lock[cell_index(&solver, 3, 4)], 3);
    assert_eq!(solver.physics.lock[cell_index(&solver, 3, 5)], 2);
    assert_eq!(solver.physics.lock[cell_index(&solver, 3, 3)], 1);
    assert_eq!(solver.physics.lock[cell_index(&solver, 2, 4)], 0);
    assert_eq!(solver.physics.predicted_object[cell_index(&solver, 3, 4)], 2);
    assert_eq!(solver.physics.predicted_object[cell_index(&solver, 3, 5)], 0);
    assert_eq!(solver.physics.predicted_object[cell_index(&solver, 2, 4)], NULL_OBJECT);
    assert_eq!(solver.physics.delta[cell_index(&solver, 3, 4)], IVec2::new(0, 1));
    assert_eq!(solver.physics.delta[cell_index(&solver, 3, 5)], IVec2::new(1, 0));
    // Every source is in the list at most once, and no winner is in it.
    for (k, record) in solver.collisions.data.iter().enumerate() {
        for other in solver.collisions.data.iter().skip(k + 1) {
            assert_ne!(record.source, other.source);
        }
        assert_ne!(record.source, IVec2::new(3, 3));
        assert_ne!(record.source, IVec2::new(3, 2));
        assert_ne!(record.source, IVec2::new(2, 5));
    }
    // Three cells are left of six.
    let owners: Vec<(i32, i32, u32)> = (0..8)
        .flat_map(|x| (0..8).map(move |y| (x, y)))
        .filter_map(|(x, y)| {
            let owner = solver.physics.object[cell_index(&solver, x, y)];
            if owner == NULL_OBJECT {
                None
            } else {
                Some((x, y, owner))
            }
        })
        .collect();
    assert_eq!(owners, vec![(3, 3, 2), (3, 4, 2), (3, 5, 0)]);
}

#[test]
fn contacts_name_the_loser_and_the_holder() {
    let mut solver = crossing();
    solver.integrate();
    let headings = vec![Heading::rest(); 3];
    let grid = solver.world.grid;
    let poses: Vec<_> = solver.objects.objects.iter().map(|body| body.pose(&Heading::rest())).collect();
    solver.physics.clear(&grid);
    solver.collisions.clear();
    solver.physics.predict_move(&grid, &poses, &mut solver.collisions);
    let contacts = setup_contacts(&grid, &solver.objects, &headings, &solver.physics, &solver.collisions.data);
    assert_eq!(contacts.len(), 3);
    assert_eq!((contacts[0].a, contacts[0].b), (0, 2));
    assert_eq!((contacts[1].a, contacts[1].b), (1, 2));
    assert_eq!((contacts[2].a, contacts[2].b), (1, 0));
    // The contended cell (3, 4), seen from where body 0 will be, (3, 4), and
    // from where body 2 will be, (3, 3).
    assert_eq!(contacts[0].a_offset, pair(0.0, 0.0));
    assert_eq!(contacts[0].b_offset, pair(0.0, 1.0));
    // Body 0 at (2, 4) is open below before it is open anywhere else, and
    // body 2 at (3, 3) is open above. The difference of (0, -1) and (0, 1)
    // points down.
    assert_eq!(contacts[0].normal, pair(0.0, -1.0));
    count_constraints(&mut solver.objects, &contacts);
    let counts: Vec<u32> = solver.objects.objects.iter().map(|body| body.num_constraints).collect();
    assert_eq!(counts, vec![2, 2, 2]);
    // A record whose cells lie outside the grid stands for no contact.
    let stray = Collision { source: IVec2::new(9, 9), destination: IVec2::new(3, 4) };
    assert_eq!(Contact::setup(&grid, &solver.objects, &headings, &solver.physics, &stray), None);
    // Nor does one whose source has no owner.
    let empty = Collision { source: IVec2::new(0, 0), destination: IVec2::new(3, 4) };
    assert_eq!(Contact::setup(&grid, &solver.objects, &headings, &solver.physics, &empty), None);
}

fn body(mass: u32, moment: u64, velocity: FVec2, constraints: u32) -> ObjectState {
    let mut body = ObjectState::at_rest(mass, moment, pair(0.0, 0.0));
    body.velocity = velocity;
    body.num_constraints = constraints;
    body
}

#[test]
fn a_contact_pushes_and_never_pulls() {
    let contact = Contact {
        a: 0,
        b: 1,
        a_offset: pair(0.0, 0.0),
        b_offset: pair(0.0, 0.0),
        normal: pair(1.0, 0.0),
        normal_mass: q16(2.0),
    };
    // Body 1 comes towards body 0 against the normal at speed 3.
    let mut store = ObjectFields::new(vec![
        body(4, 4, pair(1.0, 0.0), 2),
        body(4, 4, pair(-2.0, 0.0), 1),
    ])
    .unwrap();
    let total = contact.collide(&mut store, Fixed::zero());
    // The approach is -3, so the contact wants 3 * 2 = 6, shared by two.
    assert_eq!(total, q16(6.0));
    assert_eq!(store.objects[0].impulse, pair(-3.0, 0.0));
    assert_eq!(store.objects[1].impulse, pair(3.0, 0.0));
    assert_eq!(store.objects[0].angular_impulse, Fixed::zero());
    // Moving apart, the contact gives back at most what it gave.
    let mut parting = ObjectFields::new(vec![
        body(4, 4, pair(-1.0, 0.0), 1),
        body(4, 4, pair(1.0, 0.0), 1),
    ])
    .unwrap();
    assert_eq!(contact.collide(&mut parting, q16(1.0)), Fixed::zero());
    assert_eq!(parting.objects[0].impulse, pair(1.0, 0.0));
    assert_eq!(parting.objects[1].impulse, pair(-1.0, 0.0));
    assert_eq!(contact.collide(&mut parting, Fixed::zero()), Fixed::zero());
    assert_eq!(parting.objects[0].impulse, pair(1.0, 0.0));
    // A contact with a body that is not there does nothing.
    let lost = Contact { b: 7, ..contact };
    assert_eq!(lost.collide(&mut parting, q16(5.0)), q16(5.0));
    assert_eq!(parting.objects[1].impulse, pair(-1.0, 0.0));
}

#[test]
fn levers_turn_the_bodies() {
    let contact = Contact {
        a: 0,
        b: 1,
        a_offset: pair(0.0, 2.0),
        b_offset: pair(0.0, -1.0),
        normal: pair(1.0, 0.0),
        normal_mass: q16(1.0),
    };
    let mut store = ObjectFields::new(vec![
        body(4, 4, pair(1.0, 0.0), 1),
        body(4, 4, pair(-1.0, 0.0), 1),
    ])
    .unwrap();
    assert_eq!(contact.collide(&mut store, Fixed::zero()), q16(2.0));
    // The impulse (2, 0) crossed with the lever (0, 2) is 4; crossed with
    // (0, -1) it is -2, and body 1 gathers that negated.
    assert_eq!(store.objects[0].angular_impulse, q16(4.0));
    assert_eq!(store.objects[1].angular_impulse, q16(2.0));
    // A turning body moves at its lever: body 1 turning at 1 moves at
    // (1, 0) where the lever (0, -1) ends.
    let mut turning = ObjectFields::new(vec![
        body(4, 4, pair(0.0, 0.0), 1),
        body(4, 4, pair(0.0, 0.0), 1),
    ])
    .unwrap();
    turning.objects[1].angvel = q16(-1.0);
    assert_eq!(contact.collide(&mut turning, Fixed::zero()), q16(1.0));
}

#[test]
fn passes_apply_what_was_gathered() {
    let contact = Contact {
        a: 0,
        b: 1,
        a_offset: pair(0.0, 0.0),
        b_offset: pair(0.0, 0.0),
        normal: pair(1.0, 0.0),
        normal_mass: q16(1.0),
    };
    let bodies = vec![body(2, 2, pair(1.0, 0.0), 1), body(2, 2, pair(-1.0, 0.0), 1)];
    let mut store = ObjectFields::new(bodies.clone()).unwrap();
    let mut totals = vec![Fixed::zero()];
    collide_pass(&mut store, &vec![contact], &mut totals);
    assert_eq!(totals, vec![q16(2.0)]);
    assert_eq!(store.objects[0].velocity, pair(1.0, 0.0));
    assert_eq!(store.objects[0].impulse, pair(-2.0, 0.0));
    // One pass, applied as it is: each body of mass two changes its speed
    // by one, and both stand still.
    let mut once = ObjectFields::new(bodies.clone()).unwrap();
    assert_eq!(resolve(&mut once, &vec![contact], 1, Fixed::one()), vec![q16(2.0)]);
    assert_eq!(once.objects[0].velocity, pair(0.0, 0.0));
    assert_eq!(once.objects[1].velocity, pair(0.0, 0.0));
    assert_eq!(once.objects[0].impulse, pair(0.0, 0.0));
    // Applied one and a half times, they part at half their speed.
    let mut bounced = ObjectFields::new(bodies.clone()).unwrap();
    resolve(&mut bounced, &vec![contact], 1, q16(1.5));
    assert_eq!(bounced.objects[0].velocity, pair(-0.5, 0.0));
    assert_eq!(bounced.objects[1].velocity, pair(0.5, 0.0));
    // Two passes: the second finds nothing left to stop, and the scaling of
    // the last pass scales nothing.
    let mut twice = ObjectFields::new(bodies.clone()).unwrap();
    assert_eq!(resolve(&mut twice, &vec![contact], 2, q16(1.5)), vec![q16(2.0)]);
    assert_eq!(twice.objects[0].velocity, pair(0.0, 0.0));
    // No pass at all changes nothing.
    let mut never = ObjectFields::new(bodies.clone()).unwrap();
    assert_eq!(resolve(&mut never, &vec![contact], 0, q16(1.5)), vec![Fixed::zero()]);
    assert_eq!(never.objects, bodies);
}

#[test]
fn a_body_of_one_cell_does_not_move() {
    let grid = Grid::new(IVec2::new(0, 0), 8, 8, true).unwrap();
    let mut cells = vec![vec![NULL_OBJECT; 8]; 8];
    cells[3][3] = 0;
    let init = InitData { cells, object_velocities: vec![pair(1.0, 0.0)], object_angvels: vec![] };
    let config = SolverConfig { num_objects: 1, capacity: 2, ..SolverConfig::standard() };
    let mut solver = match Solver::new(World::on(grid).unwrap(), &init, config) {
        Ok(solver) => solver,
        Err(e) => panic!("{:?}", e),
    };
    assert_eq!((solver.objects.objects[0].mass, solver.objects.objects[0].moment), (1, 0));
    for _ in 0..5 {
        solver.integrate();
        solver.step(&vec![Heading::rest()]).unwrap();
        assert_eq!(solver.objects.objects[0].position, pair(3.0, 3.0));
        assert_eq!(solver.physics.object[cell_index(&solver, 3, 3)], 0);
    }
}

#[test]
fn owners_can_be_taken_from_every_cell() {
    let mut solver = crossing();
    let grid = solver.world.grid;
    let rejection = solver.physics.rejection.clone();
    solver.physics.clear_objects(&grid);
    assert!(solver.physics.object.iter().all(|owner| *owner == NULL_OBJECT));
    assert_eq!(solver.physics.rejection, rejection);
    // With no owner left, nothing moves and nothing is rejected.
    solver.integrate();
    assert_eq!(solver.step(&vec![Heading::rest(); 3]).unwrap().collisions, 0);
    assert!(solver.physics.rejection.iter().all(|v| *v == IVec2::new(0, 0)));
}

#[test]
fn the_lit_region_is_centred() {
    let mut parameters = LightParameters::default();
    parameters.set_center(256, 1, IVec2::new(64, 64));
    assert_eq!(parameters.offset, IVec2::new(-64, -64));
    parameters.set_center(256, 4, IVec2::new(0, 10));
    assert_eq!(parameters.offset, IVec2::new(-32, -22));
    parameters.set_center(0, 3, IVec2::new(5, 5));
    assert_eq!(parameters.offset, IVec2::new(5, 5));
}
