//! The world that the engine runs in, whether it runs, and what runs in a
//! frame.

use vstd::prelude::*;
use crate::grid::Grid;
use crate::vector::IVec2;

verus! {

/// The schedule that advances the world by one step.
#[derive(Debug, Default, Clone, Copy, PartialEq, Eq, PartialOrd, Ord, Hash)]
pub struct WorldUpdate;

/// The work of the host that belongs to a step of the world.
#[derive(Debug, Default, Clone, Copy, PartialEq, Eq, PartialOrd, Ord, Hash)]
pub struct HostUpdate;

/// The schedule that makes the world, once.
#[derive(Debug, Default, Clone, Copy, PartialEq, Eq, PartialOrd, Ord, Hash)]
pub struct WorldInit;

/// Whether the world advances.
#[derive(Debug, Clone, Copy, PartialEq, Eq, Structural, PartialOrd, Ord, Hash)]
pub enum WorldState {
    Running,
    Paused,
}

impl Default for WorldState {
    fn default() -> (state: WorldState)
        ensures
            state == WorldState::Running,
    {
        WorldState::Running
    }
}

/// The parts of `WorldUpdate`, in the order in which they run.
#[derive(Debug, Clone, Copy, PartialEq, Eq, Structural, PartialOrd, Ord, Hash)]
pub enum UpdatePhase {
    Movement,
    Step,
    CalculateObjects,
}

impl UpdatePhase {
    /// The place of the phase in the order.
    pub open spec fn spec_rank(self) -> int {
        match self {
            UpdatePhase::Movement => 0,
            UpdatePhase::Step => 1,
            UpdatePhase::CalculateObjects => 2,
        }
    }

    /// The phases in the order in which they run.
    pub fn chain() -> (phases: [UpdatePhase; 3])
        ensures
            forall|i: int| 0 <= i < 3 ==> (#[trigger] phases[i]).spec_rank() == i,
    {
        [UpdatePhase::Movement, UpdatePhase::Step, UpdatePhase::CalculateObjects]
    }

    /// The phase that runs after this one, if any does.
    pub fn next(self) -> (phase: Option<UpdatePhase>)
        ensures
            self.spec_rank() == 2 <==> phase.is_none(),
            phase.is_some() ==> phase.unwrap().spec_rank() == self.spec_rank() + 1,
    {
        match self {
            UpdatePhase::Movement => Some(UpdatePhase::Step),
            UpdatePhase::Step => Some(UpdatePhase::CalculateObjects),
            UpdatePhase::CalculateObjects => None,
        }
    }
}

/// The keys that pause and resume the world.
#[derive(Debug, Clone, Copy, PartialEq, Eq, Structural)]
pub struct PauseKeys {
    /// Escape went down in this frame.
    pub escape_just_pressed: bool,
    /// Period went down in this frame.
    pub period_just_pressed: bool,
    /// Period is down.
    pub period_pressed: bool,
}

/// The state that the keys ask for: escape toggles between running and
/// paused; otherwise period runs the world for the frame in which it goes
/// down and pauses it while it stays down, which steps the world once per
/// press. Nothing is asked for while neither key is in play.
pub open spec fn spec_pause(state: WorldState, keys: PauseKeys) -> Option<WorldState> {
    if keys.escape_just_pressed {
        Some(
            match state {
                WorldState::Running => WorldState::Paused,
                WorldState::Paused => WorldState::Running,
            },
        )
    } else if keys.period_just_pressed {
        Some(WorldState::Running)
    } else if keys.period_pressed {
        Some(WorldState::Paused)
    } else {
        None
    }
}

/// The state that the keys ask for, if they ask for one.
pub fn pause_system(state: WorldState, keys: PauseKeys) -> (next: Option<WorldState>)
    ensures
        next == spec_pause(state, keys),
{
    if keys.escape_just_pressed {
        Some(
            match state {
                WorldState::Running => WorldState::Paused,
                WorldState::Paused => WorldState::Running,
            },
        )
    } else if keys.period_just_pressed {
        Some(WorldState::Running)
    } else if keys.period_pressed {
        Some(WorldState::Paused)
    } else {
        None
    }
}

/// What runs in a frame.
#[derive(Debug, Clone, Copy, PartialEq, Eq)]
pub struct FramePlan {
    /// The world is made in this frame.
    pub init: Option<WorldInit>,
    /// The world advances in this frame.
    pub update: Option<WorldUpdate>,
    /// The host does its part of the step, after the world has advanced.
    pub host: Option<HostUpdate>,
}

/// What runs in a frame: the world is made in the first frame and in no
/// other, and it advances, followed by the host's part, exactly while it is
/// running.
pub fn frame_plan(state: WorldState, first_frame: bool) -> (plan: FramePlan)
    ensures
        plan.init.is_some() == first_frame,
        plan.update.is_some() == (state == WorldState::Running),
        plan.host.is_some() == (state == WorldState::Running),
{
    let running: bool = match state {
        WorldState::Running => true,
        WorldState::Paused => false,
    };
    FramePlan {
        init: if first_frame {
            Some(WorldInit)
        } else {
            None
        },
        update: if running {
            Some(WorldUpdate)
        } else {
            None
        },
        host: if running {
            Some(HostUpdate)
        } else {
            None
        },
    }
}

/// Two presses of escape bring the world back to the state it was in.
pub proof fn lemma_escape_toggles(state: WorldState, first: PauseKeys, second: PauseKeys)
    requires
        first.escape_just_pressed,
        second.escape_just_pressed,
    ensures
        spec_pause(state, first).is_some(),
        spec_pause(spec_pause(state, first).unwrap(), second) == Some(state),
{
}

/// The world: the grid that everything lives on.
#[derive(Debug, Clone, Copy, PartialEq, Eq, Structural)]
pub struct World {
    pub grid: Grid,
}

impl World {
    /// The grid of the standard world: 256 by 256 cells from (-64, -64),
    /// wrapping around.
    pub open spec fn spec_standard_grid() -> Grid {
        Grid {
            start: IVec2 { x: (-64) as i32, y: (-64) as i32 },
            width: 256,
            height: 256,
            wrapping: true,
        }
    }

    /// The standard world.
    pub fn new() -> (world: World)
        ensures
            world.grid == World::spec_standard_grid(),
            world.grid.wf(),
    {
        World {
            grid: Grid { start: IVec2 { x: -64, y: -64 }, width: 256, height: 256, wrapping: true },
        }
    }

    /// The world on the given grid, or `None` exactly when the grid is not
    /// well formed.
    pub fn on(grid: Grid) -> (world: Option<World>)
        ensures
            world.is_some() <==> grid.wf(),
            world.is_some() ==> world.unwrap().grid == grid,
    {
        match Grid::new(grid.start, grid.width, grid.height, grid.wrapping) {
            Some(g) => Some(World { grid: g }),
            None => None,
        }
    }
}

} // verus!
