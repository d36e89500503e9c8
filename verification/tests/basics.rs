use limbo::direction::Direction;
use limbo::fixed::Fixed;
use limbo::grid::Grid;
use limbo::render::{LightParameters, RenderConstants, RenderPhase};
use limbo::utils::{hash, rand};
use limbo::vector::{integer_sqrt, Cross, FVec2, IVec2};
use limbo::world::{frame_plan, pause_system, PauseKeys, UpdatePhase, World, WorldState};
use limbo::zorder::{is_power_of_two, z_code, z_order};

fn fx(value: f64) -> Fixed {
    Fixed::from_raw((value * 65536.0).round() as i64)
}

#[test]
fn direction_tables_agree() {
    let all = Direction::iter_all();
    let table = Direction::vector_table();
    assert_eq!(all.len(), 9);
    for (i, d) in all.iter().enumerate() {
        assert_eq!(d.index(), i);
        assert_eq!(d.as_vector(), table[i]);
        assert_eq!(d.as_vec(), table[i]);
    }
    assert_eq!(Direction::Up.as_vector(), IVec2::new(0, 1));
    assert_eq!(Direction::DownLeft.as_vector(), IVec2::new(-1, -1));
    assert_eq!(Direction::Right.as_vector(), IVec2::new(1, 0));
    assert_eq!(
        Direction::iter_diag(),
        [Direction::DownLeft, Direction::DownRight, Direction::UpLeft, Direction::UpRight]
    );
}

#[test]
fn direction_kinds_and_reflection() {
    for d in Direction::iter_all() {
        let v = d.as_vector();
        assert_eq!(d.ortho(), (v.x == 0) != (v.y == 0));
        assert_eq!(d.diag(), v.x != 0 && v.y != 0);
        let r = d.reflect().as_vector();
        assert_eq!((r.x, r.y), (-v.x, -v.y));
        assert_eq!(d.reflect().reflect(), d);
    }
    assert!(!Direction::Null.ortho());
    assert!(!Direction::Null.diag());
    assert_eq!(Direction::UpLeft.reflect(), Direction::DownRight);
}

#[test]
fn hash_has_its_known_values() {
    assert_eq!(hash(0), 0);
    assert_eq!(hash(1), 69681622);
    assert_eq!(hash(12345), 4177849191);
    assert_eq!(hash(u32::MAX), 310335631);
}

#[test]
fn rand_hashes_the_weighted_sum() {
    assert_eq!(rand((3, 4), 5, 6), 1936523394);
    assert_eq!(rand((0, 0), 0, 0), 0);
    assert_eq!(rand((u32::MAX, u32::MAX), u32::MAX, u32::MAX), 45928645);
    assert_eq!(rand((3, 4), 5, 6), hash(3 + 4 * 256 + 6 * 7919 + 5 * 2796203));
}

#[test]
fn fixed_arithmetic_is_exact_on_halves() {
    assert_eq!(fx(1.5).plus(fx(2.25)), fx(3.75));
    assert_eq!(fx(1.5).minus(fx(2.25)), fx(-0.75));
    assert_eq!(fx(1.5).times(fx(-2.5)), fx(-3.75));
    assert_eq!(fx(7.5).checked_over(fx(2.5)), Some(fx(3.0)));
    assert_eq!(fx(7.5).checked_over(fx(-2.5)), Some(fx(-3.0)));
    assert_eq!(fx(7.5).checked_over(Fixed::zero()), None);
    assert_eq!(fx(9.0).checked_over_count(6), Some(fx(1.5)));
    assert_eq!(fx(9.0).checked_over_count(0), None);
    assert_eq!(fx(1.5).times_int(-3), fx(-4.5));
    assert_eq!(fx(1.5).neg(), fx(-1.5));
    assert_eq!(fx(1.5).max(fx(-2.0)), fx(1.5));
    assert_eq!(Fixed::from_int(-7), fx(-7.0));
    assert_eq!(Fixed::one().raw, 65536);
}

#[test]
fn fixed_rounds_halves_away_from_zero() {
    assert_eq!(fx(2.5).round(), 3);
    assert_eq!(fx(-2.5).round(), -3);
    assert_eq!(fx(2.4999).round(), 2);
    assert_eq!(fx(-0.4999).round(), 0);
    // One raw unit times one raw unit is far less than half a raw unit.
    assert_eq!(Fixed::from_raw(1).times(Fixed::from_raw(1)).raw, 0);
    // A half raw unit rounds away from zero on both sides.
    assert_eq!(Fixed::from_raw(1).times(fx(0.5)).raw, 1);
    assert_eq!(Fixed::from_raw(-1).times(fx(0.5)).raw, -1);
}

#[test]
fn fixed_saturates_at_the_ends() {
    let max = Fixed::from_raw(i64::MAX);
    let min = Fixed::from_raw(i64::MIN);
    assert_eq!(max.plus(Fixed::one()), max);
    assert_eq!(min.minus(Fixed::one()), min);
    assert_eq!(min.neg(), max);
    assert_eq!(max.times(fx(2.0)), max);
    assert_eq!(max.times(fx(-2.0)), min);
    assert_eq!(max.round(), i32::MAX);
    assert_eq!(min.round(), i32::MIN);
}

#[test]
fn integer_sqrt_is_the_floor_of_the_root() {
    assert_eq!(integer_sqrt(0), 0);
    assert_eq!(integer_sqrt(1), 1);
    assert_eq!(integer_sqrt(15), 3);
    assert_eq!(integer_sqrt(16), 4);
    assert_eq!(integer_sqrt(17), 4);
    assert_eq!(integer_sqrt(u128::MAX), u64::MAX as u128);
}

#[test]
fn vectors_measure_and_turn() {
    let v = FVec2::new(fx(3.0), fx(4.0));
    assert_eq!(v.norm(), fx(5.0));
    assert_eq!(v.normalize(), FVec2::new(fx(0.6), fx(0.8)));
    assert_eq!(FVec2::zero().normalize(), FVec2::zero());
    assert_eq!(v.dot(FVec2::new(fx(2.0), fx(-1.0))), fx(2.0));
    // A quarter turn: cosine zero, sine one.
    assert_eq!(v.rotate(Fixed::zero(), Fixed::one()), FVec2::new(fx(-4.0), fx(3.0)));
    assert_eq!(v.rotate(Fixed::one(), Fixed::zero()), v);
    assert_eq!(v.round(), IVec2::new(3, 4));
    assert_eq!(FVec2::from_cell(IVec2::new(-2, 9)), FVec2::new(fx(-2.0), fx(9.0)));
    assert_eq!(v.checked_over_count(2), Some(FVec2::new(fx(1.5), fx(2.0))));
    assert_eq!(v.checked_over_count(0), None);
    assert_eq!(IVec2::new(-3, 4).norm_squared(), 25);
    assert_eq!(IVec2::new(i32::MIN, i32::MIN).norm_squared(), 1u64 << 63);
    assert_eq!(IVec2::splat(7), IVec2::new(7, 7));
}

#[test]
fn cross_products_follow_the_right_hand() {
    let x = FVec2::new(fx(1.0), fx(0.0));
    let y = FVec2::new(fx(0.0), fx(1.0));
    assert_eq!(x.cross(y), fx(1.0));
    assert_eq!(y.cross(x), fx(-1.0));
    let v = FVec2::new(fx(2.0), fx(3.0));
    assert_eq!(v.cross(fx(2.0)), FVec2::new(fx(6.0), fx(-4.0)));
    assert_eq!(fx(2.0).cross(v), FVec2::new(fx(-6.0), fx(4.0)));
}

#[test]
fn grid_parameters_are_checked() {
    let origin = IVec2::new(0, 0);
    assert!(Grid::new(origin, 4, 4, false).is_some());
    assert!(Grid::new(origin, 0, 4, false).is_none());
    assert!(Grid::new(origin, 4, 0, true).is_none());
    assert!(Grid::new(origin, 32768, 32768, true).is_some());
    assert!(Grid::new(origin, 32769, 4, true).is_none());
    assert!(Grid::new(IVec2::new(0x4000_0000, 0), 4, 4, true).is_some());
    assert!(Grid::new(IVec2::new(0x4000_0001, 0), 4, 4, true).is_none());
    assert!(Grid::new(IVec2::new(0, -0x4000_0001), 4, 4, true).is_none());
}

#[test]
fn bounded_grid_ends_at_its_edges() {
    let grid = Grid::new(IVec2::new(-2, 3), 4, 5, false).unwrap();
    assert_eq!(grid.len(), 20);
    assert!(grid.contains(IVec2::new(-2, 3)));
    assert!(grid.contains(IVec2::new(1, 7)));
    assert!(!grid.contains(IVec2::new(2, 7)));
    assert!(!grid.contains(IVec2::new(1, 8)));
    assert!(!grid.contains(IVec2::new(-3, 3)));
    assert_eq!(grid.index_of(IVec2::new(-2, 3)), 0);
    assert_eq!(grid.index_of(IVec2::new(1, 3)), 3);
    assert_eq!(grid.index_of(IVec2::new(-1, 4)), 5);
    assert_eq!(grid.cell_at(19), IVec2::new(1, 7));
    for i in 0..20 {
        assert_eq!(grid.index_of(grid.cell_at(i)), i);
    }
    assert_eq!(grid.neighbor(IVec2::new(1, 7), Direction::Left), Some(IVec2::new(0, 7)));
    assert_eq!(grid.neighbor(IVec2::new(1, 7), Direction::Right), None);
    assert_eq!(grid.neighbor(IVec2::new(1, 7), Direction::Up), None);
    assert_eq!(grid.neighbor(IVec2::new(-2, 3), Direction::DownLeft), None);
    assert_eq!(grid.resolve(0, 5), Some(IVec2::new(0, 5)));
    assert_eq!(grid.resolve(2, 5), None);
}

#[test]
fn wrapping_grid_comes_back_in() {
    let grid = Grid::new(IVec2::new(-2, 3), 4, 5, true).unwrap();
    assert_eq!(grid.neighbor(IVec2::new(1, 7), Direction::Right), Some(IVec2::new(-2, 7)));
    assert_eq!(grid.neighbor(IVec2::new(1, 7), Direction::Up), Some(IVec2::new(1, 3)));
    assert_eq!(grid.neighbor(IVec2::new(-2, 3), Direction::DownLeft), Some(IVec2::new(1, 7)));
    assert_eq!(grid.resolve(2, 8), Some(IVec2::new(-2, 3)));
    assert_eq!(grid.resolve(-3, 2), Some(IVec2::new(1, 7)));
    assert_eq!(grid.resolve(-2 - 4 * 1000, 3 + 5 * 1000), Some(IVec2::new(-2, 3)));
    assert_eq!(grid.resolve(0, 5), Some(IVec2::new(0, 5)));
}

#[test]
fn standard_world_wraps_256_cells_from_minus_64() {
    let world = World::new();
    assert_eq!(world.grid, Grid::new(IVec2::new(-64, -64), 256, 256, true).unwrap());
    let bad = Grid { start: IVec2::new(0, 0), width: 0, height: 1, wrapping: false };
    assert!(World::on(bad).is_none());
    assert_eq!(World::on(world.grid), Some(world));
}

#[test]
fn escape_toggles_and_period_steps() {
    let none = PauseKeys { escape_just_pressed: false, period_just_pressed: false, period_pressed: false };
    let escape = PauseKeys { escape_just_pressed: true, ..none };
    let down = PauseKeys { period_just_pressed: true, period_pressed: true, ..none };
    let held = PauseKeys { period_pressed: true, ..none };
    assert_eq!(pause_system(WorldState::Running, none), None);
    assert_eq!(pause_system(WorldState::Paused, none), None);
    assert_eq!(pause_system(WorldState::Running, escape), Some(WorldState::Paused));
    assert_eq!(pause_system(WorldState::Paused, escape), Some(WorldState::Running));
    assert_eq!(pause_system(WorldState::Paused, down), Some(WorldState::Running));
    assert_eq!(pause_system(WorldState::Running, held), Some(WorldState::Paused));
    // Escape wins over period.
    let both = PauseKeys { escape_just_pressed: true, ..down };
    assert_eq!(pause_system(WorldState::Running, both), Some(WorldState::Paused));
    assert_eq!(WorldState::default(), WorldState::Running);
}

#[test]
fn frames_run_what_the_state_allows() {
    let first = frame_plan(WorldState::Running, true);
    assert!(first.init.is_some() && first.update.is_some() && first.host.is_some());
    let later = frame_plan(WorldState::Running, false);
    assert!(later.init.is_none() && later.update.is_some() && later.host.is_some());
    let paused = frame_plan(WorldState::Paused, false);
    assert!(paused.init.is_none() && paused.update.is_none() && paused.host.is_none());
    let paused_first = frame_plan(WorldState::Paused, true);
    assert!(paused_first.init.is_some() && paused_first.update.is_none());
}

#[test]
fn phases_run_in_their_order() {
    assert_eq!(
        UpdatePhase::chain(),
        [UpdatePhase::Movement, UpdatePhase::Step, UpdatePhase::CalculateObjects]
    );
    assert_eq!(UpdatePhase::Movement.next(), Some(UpdatePhase::Step));
    assert_eq!(UpdatePhase::Step.next(), Some(UpdatePhase::CalculateObjects));
    assert_eq!(UpdatePhase::CalculateObjects.next(), None);
    assert_eq!(RenderPhase::chain(), [RenderPhase::Light, RenderPhase::Postprocess]);
}

#[test]
fn pixels_show_cells_from_the_bottom_up() {
    let constants = RenderConstants::default();
    assert_eq!(constants.scaling, 12);
    // The bottom-left pixel of a screen 120 high shows cell (0, 0).
    let shown = constants.upscale((0, 119), 120, (0, 0)).unwrap();
    assert_eq!((shown.cell, shown.subcell), ((0, 0), (0, 0)));
    let shown = constants.upscale((25, 100), 120, (5, 7)).unwrap();
    assert_eq!((shown.cell, shown.subcell), ((2, 2), (6, 2)));
    assert!(constants.upscale((0, 120), 120, (0, 0)).is_none());
    assert!(constants.upscale((u32::MAX, 0), 120, (1, 0)).is_none());
    assert!(RenderConstants { scaling: 0 }.upscale((0, 0), 120, (0, 0)).is_none());
    assert_eq!(LightParameters::default().offset, IVec2::new(0, 0));
}

#[test]
fn z_codes_interleave_the_bits() {
    let grid = Grid::new(IVec2::new(0, 0), 256, 256, true).unwrap();
    assert_eq!(z_code(&grid, 5, 3), Some(27));
    assert_eq!(z_code(&grid, 255, 255), Some(65535));
    assert_eq!(z_code(&grid, 0, 0), Some(0));
    assert_eq!(z_code(&grid, 1, 0), Some(1));
    assert_eq!(z_code(&grid, 0, 1), Some(2));
    assert_eq!(z_code(&grid, 256, 0), None);
    let oblong = Grid::new(IVec2::new(0, 0), 256, 128, true).unwrap();
    assert_eq!(z_code(&oblong, 1, 1), None);
    let odd = Grid::new(IVec2::new(0, 0), 6, 6, true).unwrap();
    assert_eq!(z_code(&odd, 1, 1), None);
    assert!(is_power_of_two(1) && is_power_of_two(2) && is_power_of_two(32768));
    assert!(!is_power_of_two(0) && !is_power_of_two(6) && !is_power_of_two(u32::MAX));
}

#[test]
fn z_order_walks_the_grid_in_quadrants() {
    let grid = Grid::new(IVec2::new(10, 10), 4, 4, false).unwrap();
    // The entry of a cell is its index: column plus four times row.
    let field: Vec<u32> = (0..16).collect();
    let ordered = z_order(&grid, &field).unwrap();
    assert_eq!(ordered, vec![0, 1, 4, 5, 2, 3, 6, 7, 8, 9, 12, 13, 10, 11, 14, 15]);
    for x in 0..4u32 {
        for y in 0..4u32 {
            let code = z_code(&grid, x, y).unwrap();
            assert_eq!(ordered[code as usize], y * 4 + x);
        }
    }
    assert!(z_order(&grid, &vec![0; 15]).is_none());
    let odd = Grid::new(IVec2::new(0, 0), 3, 3, false).unwrap();
    assert!(z_order(&odd, &vec![0; 9]).is_none());
}
