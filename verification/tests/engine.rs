use limbo::collision::{Collision, CollisionFields};
use limbo::fixed::Fixed;
use limbo::grid::Grid;
use limbo::init::{InitData, InitError};
use limbo::object::{Heading, ObjectFields, ObjectHost, ObjectState, NULL_OBJECT};
use limbo::rotation::{quadrant, quadrant_rotate, residual, skew_rotate, Offset, Pose, Shear};
use limbo::solver::{Solver, SolverConfig, StepError};
use limbo::vector::{FVec2, IVec2};
use limbo::world::World;

fn fixed(value: f64) -> Fixed {
    Fixed::from_raw((value * 65536.0).round() as i64)
}

fn as_f64(value: Fixed) -> f64 {
    value.raw as f64 / 65536.0
}

fn vector(x: f64, y: f64) -> FVec2 {
    FVec2::new(fixed(x), fixed(y))
}

/// A world of the given side from the origin, with the given rectangles
/// `(x, y, width, height, owner)` and velocities.
fn world_of(
    side: u32,
    wrapping: bool,
    blocks: &[(usize, usize, usize, usize, u32)],
    velocities: &[(f64, f64)],
    angvels: &[f64],
    config: SolverConfig,
) -> Solver {
    let grid = Grid::new(IVec2::new(0, 0), side, side, wrapping).unwrap();
    let mut cells = vec![vec![NULL_OBJECT; side as usize]; side as usize];
    for &(x0, y0, w, h, owner) in blocks {
        for x in x0..x0 + w {
            for y in y0..y0 + h {
                cells[x][y] = owner;
            }
        }
    }
    let init = InitData {
        cells,
        object_velocities: velocities.iter().map(|&(x, y)| vector(x, y)).collect(),
        object_angvels: angvels.iter().map(|&a| fixed(a)).collect(),
    };
    match Solver::new(World::on(grid).unwrap(), &init, config) {
        Ok(solver) => solver,
        Err(e) => panic!("no world: {:?}", e),
    }
}

fn config_of(num_objects: u32, capacity: usize) -> SolverConfig {
    SolverConfig { num_objects, capacity, ..SolverConfig::standard() }
}

fn owned(solver: &Solver) -> usize {
    solver.physics.object.iter().filter(|&&o| o != NULL_OBJECT).count()
}

fn owner_at(solver: &Solver, x: i32, y: i32) -> u32 {
    solver.physics.object[solver.world.grid.index_of(IVec2::new(x, y))]
}

fn rejection_at(solver: &Solver, x: i32, y: i32) -> IVec2 {
    solver.physics.rejection[solver.world.grid.index_of(IVec2::new(x, y))]
}

/// The headings of bodies that do not turn.
fn at_rest(solver: &Solver) -> Vec<Heading> {
    vec![Heading::rest(); solver.objects.len()]
}

/// The headings of the bodies, with the trigonometry evaluated in floating
/// point on the angles that the solver names.
fn evaluated(solver: &Solver) -> Vec<Heading> {
    solver
        .heading_angles()
        .iter()
        .map(|a| Heading {
            unwind: Shear::new(fixed((as_f64(a.unwind) / 2.0).tan()), fixed(as_f64(a.unwind).sin())).unwrap(),
            wind: Shear::new(fixed((as_f64(a.wind) / 2.0).tan()), fixed(as_f64(a.wind).sin())).unwrap(),
            turn_cos: fixed(as_f64(a.turn).cos()),
            turn_sin: fixed(as_f64(a.turn).sin()),
        })
        .collect()
}

#[test]
fn quadrants_count_the_nearest_quarter_turn() {
    let quarter = std::f64::consts::FRAC_PI_2;
    assert_eq!(quadrant(Fixed::zero()), 0);
    assert_eq!(quadrant(fixed(quarter)), 1);
    assert_eq!(quadrant(fixed(2.0 * quarter)), 2);
    assert_eq!(quadrant(fixed(3.0 * quarter)), 3);
    assert_eq!(quadrant(fixed(4.0 * quarter)), 0);
    assert_eq!(quadrant(fixed(-quarter)), 3);
    assert_eq!(quadrant(fixed(0.7)), 0);
    assert_eq!(quadrant(fixed(0.8)), 1);
    assert_eq!(quadrant(fixed(-0.8)), 3);
    assert_eq!(residual(Fixed::zero()), Fixed::zero());
    assert!(residual(fixed(quarter)).raw.abs() <= 1);
    assert!((as_f64(residual(fixed(0.8))) - (0.8 - quarter)).abs() < 1e-4);
    assert!((as_f64(residual(fixed(0.7))) - 0.7).abs() < 1e-4);
    assert!(residual(Fixed::from_raw(i64::MAX)).raw.abs() <= 51473);
    assert!(residual(Fixed::from_raw(i64::MIN)).raw.abs() <= 51473);
}

#[test]
fn quarter_turns_are_exact() {
    let v = Offset { x: 3, y: -5 };
    assert_eq!(quadrant_rotate(v, 0), v);
    assert_eq!(quadrant_rotate(v, 1), Offset { x: 5, y: 3 });
    assert_eq!(quadrant_rotate(v, 2), Offset { x: -3, y: 5 });
    assert_eq!(quadrant_rotate(v, 3), Offset { x: -5, y: -3 });
    assert_eq!(quadrant_rotate(v, 4), v);
    assert_eq!(quadrant_rotate(v, -1), Offset { x: -5, y: -3 });
    assert_eq!(quadrant_rotate(v, i32::MIN), v);
    for q in -9..9 {
        assert_eq!(quadrant_rotate(quadrant_rotate(v, q), -q), v);
    }
}

#[test]
fn rotation_by_zero_changes_no_offset() {
    let identity = Shear::identity();
    for x in -20..20 {
        for y in -20..20 {
            let v = Offset { x, y };
            assert_eq!(skew_rotate(v, &identity), v);
            assert_eq!(quadrant_rotate(skew_rotate(v, &identity), 0), v);
        }
    }
    let far = Offset { x: 0x100_0000_0000, y: -0x100_0000_0000 };
    assert_eq!(skew_rotate(far, &identity), far);
    let pose = Pose {
        origin: IVec2::new(4, -7),
        target: IVec2::new(6, -7),
        quadrant: quadrant(Fixed::zero()),
        target_quadrant: quadrant(Fixed::zero()),
        unwind: identity,
        wind: identity,
    };
    assert_eq!(pose.project(IVec2::new(5, -5)), Offset { x: 7, y: -5 });
    assert_eq!(pose.project(IVec2::new(i32::MAX, i32::MIN)), Offset {
        x: i32::MAX as i64 + 2,
        y: i32::MIN as i64,
    });
}

#[test]
fn three_shears_turn_by_the_residual_angle() {
    // An eighth of a turn: tangent of half of it and its sine.
    let angle = std::f64::consts::FRAC_PI_4;
    let shear = Shear::new(fixed((angle / 2.0).tan()), fixed(angle.sin())).unwrap();
    // x = 10 - round(0 * a) = 10; y = 0 + round(10 * 0.7071) = 7;
    // x = 10 - round(7 * 0.4142) = 10 - 3 = 7.
    assert_eq!(skew_rotate(Offset { x: 10, y: 0 }, &shear), Offset { x: 7, y: 7 });
    assert_eq!(skew_rotate(Offset { x: 0, y: 10 }, &shear), Offset { x: -7, y: 7 });
    assert_eq!(skew_rotate(Offset { x: 0, y: 0 }, &shear), Offset { x: 0, y: 0 });
    assert!(Shear::new(fixed(1.0), fixed(-1.0)).is_some());
    assert!(Shear::new(fixed(1.01), fixed(0.0)).is_none());
    assert!(Shear::new(fixed(0.0), fixed(-1.01)).is_none());
    assert!(Shear::identity().is_valid());
    assert!(!Shear { tan_half: fixed(2.0), sin: fixed(0.0) }.is_valid());
}

#[test]
fn bodies_are_made_of_their_cells() {
    let solver = world_of(16, false, &[(4, 4, 3, 3, 0), (10, 2, 1, 1, 1), (0, 8, 4, 2, 2)], &[(0.5, 0.0)], &[0.25, -0.5], config_of(4, 16));
    let bodies = &solver.objects.objects;
    assert_eq!(bodies.len(), 4);
    // Three by three: nine cells about (5, 5); six cells each are one step
    // off in x and in y.
    assert_eq!((bodies[0].mass, bodies[0].moment), (9, 12));
    assert_eq!(bodies[0].position, vector(5.0, 5.0));
    assert_eq!(bodies[0].velocity, vector(0.5, 0.0));
    assert_eq!(bodies[0].angvel, fixed(0.25));
    // One cell: it is its own centroid.
    assert_eq!((bodies[1].mass, bodies[1].moment), (1, 0));
    assert_eq!(bodies[1].position, vector(10.0, 2.0));
    assert_eq!(bodies[1].velocity, FVec2::zero());
    assert_eq!(bodies[1].angvel, fixed(-0.5));
    // Four by two: the centroid (1.5, 8.5) is rounded down to (1, 8).
    assert_eq!(bodies[2].mass, 8);
    assert_eq!(bodies[2].position, vector(1.0, 8.0));
    assert_eq!(bodies[2].moment, 2 * (1 + 0 + 1 + 4) + 4 * (0 + 1));
    assert_eq!(bodies[2].angvel, Fixed::zero());
    // No cell at all.
    assert_eq!((bodies[3].mass, bodies[3].moment), (0, 0));
    assert_eq!(bodies[3].position, vector(0.0, 0.0));
    assert!(bodies[3].inert() && bodies[1].inert() && !bodies[0].inert());
    for body in bodies.iter() {
        assert_eq!(body.angle, Fixed::zero());
        assert_eq!(body.predicted_position, body.position);
        assert_eq!(body.impulse, FVec2::zero());
        assert_eq!(body.num_constraints, 0);
    }
    assert_eq!(owned(&solver), 9 + 1 + 8);
    assert_eq!(owner_at(&solver, 6, 6), 0);
    assert_eq!(owner_at(&solver, 7, 6), NULL_OBJECT);
    assert_eq!(owner_at(&solver, 10, 2), 1);
}

#[test]
fn bodies_with_cells_have_mass_and_with_two_cells_moment() {
    let solver = world_of(8, true, &[(0, 0, 2, 1, 0), (4, 4, 1, 2, 1), (6, 6, 2, 2, 2)], &[], &[], config_of(3, 4));
    for body in solver.objects.objects.iter() {
        assert!(body.mass > 0);
        assert!(body.moment > 0);
    }
    assert_eq!(solver.objects.objects[0].moment, 1);
    assert_eq!(solver.objects.objects[1].moment, 1);
    assert_eq!(solver.objects.objects[2].moment, 4);
}

#[test]
fn worlds_are_refused_for_their_reason() {
    let grid = Grid::new(IVec2::new(0, 0), 4, 3, false).unwrap();
    let world = World::on(grid).unwrap();
    let good = InitData {
        cells: vec![vec![NULL_OBJECT; 3]; 4],
        object_velocities: vec![],
        object_angvels: vec![],
    };
    assert!(Solver::new(world, &good, config_of(2, 4)).is_ok());
    let short = InitData { cells: vec![vec![NULL_OBJECT; 3]; 3], ..clone_of(&good) };
    assert_eq!(Solver::new(world, &short, config_of(2, 4)).err(), Some(InitError::Shape));
    let mut ragged = clone_of(&good);
    ragged.cells[2].push(0);
    assert_eq!(Solver::new(world, &ragged, config_of(2, 4)).err(), Some(InitError::Shape));
    let mut unknown = clone_of(&good);
    unknown.cells[1][2] = 2;
    assert_eq!(Solver::new(world, &unknown, config_of(2, 4)).err(), Some(InitError::UnknownObject));
    assert!(Solver::new(world, &unknown, config_of(3, 4)).is_ok());
    assert_eq!(
        Solver::new(world, &good, config_of(u32::MAX, 4)).err(),
        Some(InitError::TooManyObjects)
    );
    let broken = World { grid: Grid { width: 0, ..grid } };
    assert_eq!(Solver::new(broken, &good, config_of(2, 4)).err(), Some(InitError::Grid));
}

fn clone_of(init: &InitData) -> InitData {
    InitData {
        cells: init.cells.clone(),
        object_velocities: init.object_velocities.clone(),
        object_angvels: init.object_angvels.clone(),
    }
}

#[test]
fn rejection_at_the_boundary_is_one_step_long() {
    let mut solver = world_of(16, false, &[(4, 4, 5, 5, 0), (9, 4, 2, 5, 1)], &[], &[], config_of(2, 16));
    for round in 0..4 {
        for x in 0..16 {
            for y in 0..16 {
                let owner = owner_at(&solver, x, y);
                let rejection = rejection_at(&solver, x, y);
                if owner == NULL_OBJECT {
                    assert_eq!(rejection, IVec2::new(0, 0));
                    continue;
                }
                let open = [(0, 1), (0, -1), (-1, 0), (1, 0)].iter().any(|&(dx, dy)| {
                    let (nx, ny) = (x + dx, y + dy);
                    nx < 0 || ny < 0 || nx > 15 || ny > 15 || owner_at(&solver, nx, ny) != owner
                });
                if open {
                    assert_eq!(rejection.norm_squared(), 1, "round {round} cell {x} {y}");
                }
            }
        }
        solver.integrate();
        let headings = at_rest(&solver);
        assert!(solver.step(&headings).is_ok());
    }
    // The first neighbour to propose a way out is heard: above, below, left,
    // right.
    assert_eq!(rejection_at(&solver, 4, 8), IVec2::new(0, 1));
    assert_eq!(rejection_at(&solver, 4, 4), IVec2::new(0, -1));
    assert_eq!(rejection_at(&solver, 4, 6), IVec2::new(-1, 0));
    // The seam between the two bodies is a boundary for both.
    assert_eq!(rejection_at(&solver, 8, 6), IVec2::new(1, 0));
    assert_eq!(rejection_at(&solver, 9, 6), IVec2::new(-1, 0));
    // After some rounds the centre of the five by five has found its way:
    // three steps in the first direction heard.
    assert_eq!(rejection_at(&solver, 6, 6), IVec2::new(0, 3));
    assert_eq!(rejection_at(&solver, 6, 7), IVec2::new(0, 2));
}

#[test]
fn a_square_moves_ten_cells_in_ten_steps() {
    let mut solver = world_of(32, false, &[(2, 2, 5, 5, 0)], &[(1.0, 0.0)], &[], config_of(1, 16));
    assert_eq!(solver.objects.objects[0].position, vector(4.0, 4.0));
    for step in 1..=10 {
        solver.integrate();
        assert_eq!(solver.objects.objects[0].predicted_position, vector(4.0 + step as f64, 4.0));
        let headings = at_rest(&solver);
        let report = solver.step(&headings).unwrap();
        assert_eq!(report.collisions, 0);
        assert_eq!(report.contacts, 0);
        assert_eq!(solver.collisions.data.len(), 0);
        assert_eq!(owned(&solver), 25);
    }
    assert_eq!(solver.objects.objects[0].position, vector(14.0, 4.0));
    assert_eq!(solver.objects.objects[0].velocity, vector(1.0, 0.0));
    for x in 0..32 {
        for y in 0..32 {
            let inside = (12..17).contains(&x) && (2..7).contains(&y);
            assert_eq!(owner_at(&solver, x, y) == 0, inside);
        }
    }
    // Every cell came from the cell to its left.
    assert_eq!(solver.physics.delta[solver.world.grid.index_of(IVec2::new(12, 2))], IVec2::new(1, 0));
}

#[test]
fn squares_that_meet_collide_and_slow_down() {
    let mut solver = world_of(16, false, &[(4, 4, 3, 3, 0), (7, 4, 3, 3, 1)], &[(1.0, 0.0), (-1.0, 0.0)], &[], config_of(2, 16));
    let before = owned(&solver);
    solver.integrate();
    let closing = |s: &Solver| as_f64(s.objects.objects[0].velocity.x) - as_f64(s.objects.objects[1].velocity.x);
    assert_eq!(closing(&solver), 2.0);
    let headings = at_rest(&solver);
    let report = solver.step(&headings).unwrap();
    // In each of the three rows, the two cells of the right square that
    // would enter the left one's new cells lose their claims.
    assert_eq!(report.collisions, 6);
    assert_eq!(report.contacts, 6);
    let records: Vec<Collision> = solver.collisions.data.clone();
    let mut expected = Vec::new();
    for y in 4..7 {
        expected.push(Collision { source: IVec2::new(7, y), destination: IVec2::new(6, y) });
        expected.push(Collision { source: IVec2::new(8, y), destination: IVec2::new(7, y) });
    }
    assert_eq!(records, expected);
    assert!(closing(&solver) < 2.0);
    assert!(closing(&solver) > -2.0);
    // Equal masses take equal and opposite changes.
    let left = solver.objects.objects[0].velocity;
    let right = solver.objects.objects[1].velocity;
    assert_eq!(left.x.raw, -right.x.raw);
    assert_eq!((left.y, right.y), (Fixed::zero(), Fixed::zero()));
    // Losing cells vanish: the left square keeps its nine cells, the right
    // one keeps the column that found room.
    assert!(owned(&solver) <= before);
    assert_eq!(owned(&solver), 12);
    for y in 4..7 {
        assert_eq!(owner_at(&solver, 4, y), NULL_OBJECT);
        assert_eq!(owner_at(&solver, 5, y), 0);
        assert_eq!(owner_at(&solver, 6, y), 0);
        assert_eq!(owner_at(&solver, 7, y), 0);
        assert_eq!(owner_at(&solver, 8, y), 1);
        assert_eq!(owner_at(&solver, 9, y), NULL_OBJECT);
    }
    assert_eq!(solver.objects.objects[0].position, vector(6.0, 5.0));
    assert_eq!(solver.objects.objects[1].position, vector(7.0, 5.0));
    assert_eq!(solver.objects.objects[0].num_constraints, 0);
}

#[test]
fn the_first_pass_gives_the_impulse_that_stops_the_approach() {
    let config = SolverConfig { num_objects: 2, capacity: 16, iterations: 1, restitution: Fixed::one() };
    let mut solver = world_of(16, false, &[(4, 4, 3, 3, 0), (7, 4, 3, 3, 1)], &[(1.0, 0.0), (-1.0, 0.0)], &[], config);
    solver.integrate();
    let headings = at_rest(&solver);
    solver.step(&headings).unwrap();
    // Two contacts have a normal, (-1, 0). Each opposes 1/9 + 1/9 to the
    // impulse, so it wants 2 * 4.5 = 9, shared among the six contacts of a
    // body: 1.5 each, 3 in all, a third of a cell per step for a mass of
    // nine.
    let left = as_f64(solver.objects.objects[0].velocity.x);
    let right = as_f64(solver.objects.objects[1].velocity.x);
    assert!((left - (1.0 - 1.0 / 3.0)).abs() < 1e-3, "{left}");
    assert!((right + (1.0 - 1.0 / 3.0)).abs() < 1e-3, "{right}");
}

#[test]
fn a_body_without_cells_stays_where_it_is() {
    let mut solver = world_of(16, true, &[(4, 4, 3, 3, 0)], &[(0.0, 0.0), (1.0, 2.0)], &[0.0, 0.5], config_of(2, 16));
    let ghost = ObjectHost(1);
    let at = solver.objects.get(ghost).unwrap();
    assert_eq!((at.mass, at.moment), (0, 0));
    for _ in 0..20 {
        assert!(solver.objects.apply_impulse(ghost, vector(3.0, -4.0), fixed(2.0)));
        solver.integrate();
        let headings = evaluated(&solver);
        solver.step(&headings).unwrap();
        let now = solver.objects.get(ghost).unwrap();
        assert_eq!(now.position, at.position);
        assert_eq!(now.angle, at.angle);
        assert_eq!(now.velocity, at.velocity);
        assert_eq!(now.impulse, FVec2::zero());
    }
    assert_eq!(owned(&solver), 9);
    assert!(!solver.objects.apply_impulse(ObjectHost(2), vector(1.0, 0.0), fixed(0.0)));
    assert_eq!(solver.objects.get(ObjectHost(2)), None);
}

#[test]
fn an_overflowing_list_stops_the_step() {
    let mut solver = world_of(16, false, &[(4, 4, 3, 3, 0), (7, 4, 3, 3, 1)], &[(1.0, 0.0), (-1.0, 0.0)], &[], config_of(2, 5));
    solver.integrate();
    let bodies: Vec<ObjectState> = solver.objects.objects.clone();
    let owners: Vec<u32> = solver.physics.object.clone();
    let rejection: Vec<IVec2> = solver.physics.rejection.clone();
    let headings = at_rest(&solver);
    match solver.step(&headings) {
        Err(StepError::Overflow(e)) => {
            assert_eq!(e.reported, 6);
            assert_eq!(e.capacity, 5);
        },
        other => panic!("{:?}", other),
    }
    assert_eq!(solver.objects.objects, bodies);
    assert_eq!(solver.physics.object, owners);
    assert_eq!(solver.physics.rejection, rejection);
    assert_eq!(solver.collisions.data.len(), 5);
    assert!(solver.collisions.overflowed());
    // With room for all six the same step is taken.
    let mut roomy = world_of(16, false, &[(4, 4, 3, 3, 0), (7, 4, 3, 3, 1)], &[(1.0, 0.0), (-1.0, 0.0)], &[], config_of(2, 6));
    roomy.integrate();
    assert_eq!(roomy.step(&headings).unwrap().collisions, 6);
}

#[test]
fn headings_must_fit_the_bodies() {
    let mut solver = world_of(8, true, &[(2, 2, 2, 2, 0)], &[(1.0, 0.0)], &[], config_of(2, 4));
    solver.integrate();
    let owners: Vec<u32> = solver.physics.object.clone();
    assert_eq!(solver.step(&vec![Heading::rest()]), Err(StepError::Headings));
    assert_eq!(solver.step(&vec![Heading::rest(); 3]), Err(StepError::Headings));
    let mut wild = Heading::rest();
    wild.wind.sin = fixed(1.5);
    assert_eq!(solver.step(&vec![Heading::rest(), wild]), Err(StepError::Headings));
    assert!(!solver.headings_fit(&vec![Heading::rest(), wild]));
    assert_eq!(solver.physics.object, owners);
    assert_eq!(solver.objects.objects[0].position, vector(2.0, 2.0));
    assert!(solver.headings_fit(&at_rest(&solver)));
    assert!(solver.step(&at_rest(&solver)).is_ok());
    assert_eq!(solver.objects.objects[0].position, vector(3.0, 2.0));
}

#[test]
fn cells_that_leave_a_bounded_grid_are_dropped() {
    let mut solver = world_of(8, false, &[(5, 2, 3, 2, 0)], &[(2.0, 0.0)], &[], config_of(1, 4));
    solver.integrate();
    let report = solver.step(&at_rest(&solver)).unwrap();
    assert_eq!(report.collisions, 0);
    // The column at x = 5 moves to x = 7; the other two leave the grid.
    assert_eq!(owned(&solver), 2);
    assert_eq!(owner_at(&solver, 7, 2), 0);
    assert_eq!(owner_at(&solver, 7, 3), 0);
    assert_eq!(solver.objects.objects[0].mass, 6);
}

#[test]
fn cells_that_leave_a_wrapping_grid_come_back_in() {
    let mut solver = world_of(8, true, &[(5, 2, 3, 2, 0)], &[(2.0, 0.0)], &[], config_of(1, 4));
    solver.integrate();
    let report = solver.step(&at_rest(&solver)).unwrap();
    assert_eq!(report.collisions, 0);
    assert_eq!(owned(&solver), 6);
    for y in 2..4 {
        assert_eq!(owner_at(&solver, 7, y), 0);
        assert_eq!(owner_at(&solver, 0, y), 0);
        assert_eq!(owner_at(&solver, 1, y), 0);
        assert_eq!(owner_at(&solver, 5, y), NULL_OBJECT);
    }
    // The offset is that between the two cells of the grid.
    assert_eq!(solver.physics.delta[solver.world.grid.index_of(IVec2::new(0, 2))], IVec2::new(-6, 0));
}

#[test]
fn a_bar_turns_by_a_quarter() {
    let quarter = std::f64::consts::FRAC_PI_2;
    let mut solver = world_of(16, false, &[(4, 5, 3, 1, 0)], &[], &[quarter], config_of(1, 4));
    assert_eq!(solver.objects.objects[0].position, vector(5.0, 5.0));
    solver.integrate();
    let angles = solver.heading_angles();
    assert_eq!(angles.len(), 1);
    assert_eq!(angles[0].unwind, Fixed::zero());
    assert!(angles[0].wind.raw.abs() <= 1);
    assert_eq!(angles[0].turn, fixed(quarter));
    let headings = evaluated(&solver);
    assert_eq!(solver.step(&headings).unwrap().collisions, 0);
    assert_eq!(owned(&solver), 3);
    for y in 4..7 {
        assert_eq!(owner_at(&solver, 5, y), 0);
    }
    assert_eq!(solver.objects.objects[0].angle, fixed(quarter));
    // Another quarter: the bar lies flat again, end for end.
    solver.integrate();
    let headings = evaluated(&solver);
    assert_eq!(solver.step(&headings).unwrap().collisions, 0);
    for x in 4..7 {
        assert_eq!(owner_at(&solver, x, 5), 0);
    }
    assert_eq!(owned(&solver), 3);
    // The cell at the left end came from the top of the upright bar.
    assert_eq!(solver.physics.delta[solver.world.grid.index_of(IVec2::new(4, 5))], IVec2::new(-1, -1));
}

#[test]
fn the_store_integrates_applies_and_finalizes() {
    let mut body = ObjectState::at_rest(4, 8, vector(1.0, 2.0));
    body.velocity = vector(0.5, 0.0);
    body.angvel = fixed(0.25);
    let mut store = ObjectFields::new(vec![body, ObjectState::at_rest(0, 0, vector(9.0, 9.0))]).unwrap();
    assert_eq!(store.len(), 2);
    assert!(store.apply_impulse(ObjectHost(0), vector(2.0, -4.0), fixed(4.0)));
    assert!(store.apply_impulse(ObjectHost(0), vector(2.0, 0.0), fixed(0.0)));
    assert_eq!(store.get(ObjectHost(0)).unwrap().impulse, vector(4.0, -4.0));
    store.integrate_and_predict();
    let now = store.get(ObjectHost(0)).unwrap();
    assert_eq!(now.velocity, vector(1.5, -1.0));
    assert_eq!(now.angvel, fixed(0.75));
    assert_eq!(now.predicted_position, vector(2.5, 1.0));
    assert_eq!(now.predicted_angle, fixed(0.75));
    assert_eq!(now.position, vector(1.0, 2.0));
    assert_eq!((now.impulse, now.angular_impulse), (FVec2::zero(), Fixed::zero()));
    store.finalize();
    let now = store.get(ObjectHost(0)).unwrap();
    assert_eq!((now.position, now.angle), (vector(2.5, 1.0), fixed(0.75)));
    // Applying with a scale: a tenth more than the impulse itself.
    assert!(store.apply_impulse(ObjectHost(0), vector(4.0, 0.0), fixed(8.0)));
    store.apply_impulses(fixed(1.5));
    let now = store.get(ObjectHost(0)).unwrap();
    assert_eq!(now.velocity, vector(3.0, -1.0));
    assert_eq!(now.angvel, fixed(2.25));
    assert_eq!(now.impulse, FVec2::zero());
    // The body without mass never moved.
    assert_eq!(store.get(ObjectHost(1)).unwrap().position, vector(9.0, 9.0));
}

#[test]
fn the_collision_list_counts_what_it_cannot_hold() {
    let mut list = CollisionFields::new(2);
    let record = |x: i32| Collision { source: IVec2::new(x, 0), destination: IVec2::new(x + 1, 0) };
    assert_eq!(list.len().unwrap(), 0);
    list.push(record(1));
    list.push(record(2));
    assert_eq!(list.len().unwrap(), 2);
    assert!(!list.overflowed());
    list.push(record(3));
    assert!(list.overflowed());
    let overflow = list.len().unwrap_err();
    assert_eq!((overflow.reported, overflow.capacity), (3, 2));
    assert_eq!(list.data, vec![record(1), record(2)]);
    list.clear();
    assert_eq!(list.len().unwrap(), 0);
    assert_eq!(list.capacity, 2);
    let empty = CollisionFields::new(0);
    assert_eq!(empty.len().unwrap(), 0);
}

#[test]
fn the_standard_setup_is_that_of_the_engine() {
    let config = SolverConfig::default();
    assert_eq!(config, SolverConfig::standard());
    assert_eq!((config.num_objects, config.capacity, config.iterations), (16, 1024, 4));
    assert!((as_f64(config.restitution) - 1.1).abs() < 1e-4);
}
