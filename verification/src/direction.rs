//! The eight lattice directions and the null direction.

use vstd::prelude::*;
use crate::vector::IVec2;

verus! {

/// A step to one of the eight neighbours of a cell, or no step at all.
#[derive(Debug, Copy, Clone, PartialEq, Eq, Structural)]
pub enum Direction {
    Null,
    Left,
    Right,
    Down,
    Up,
    DownLeft,
    DownRight,
    UpLeft,
    UpRight,
}

impl Direction {
    /// The position of the direction in `iter_all` and in `vector_table`.
    pub open spec fn spec_index(self) -> int {
        match self {
            Direction::Null => 0,
            Direction::Left => 1,
            Direction::Right => 2,
            Direction::Down => 3,
            Direction::Up => 4,
            Direction::DownLeft => 5,
            Direction::DownRight => 6,
            Direction::UpLeft => 7,
            Direction::UpRight => 8,
        }
    }

    /// The horizontal part of the step: -1, 0 or 1.
    pub open spec fn dx(self) -> int {
        match self {
            Direction::Left | Direction::DownLeft | Direction::UpLeft => -1,
            Direction::Right | Direction::DownRight | Direction::UpRight => 1,
            Direction::Null | Direction::Down | Direction::Up => 0,
        }
    }

    /// The vertical part of the step: -1, 0 or 1.
    pub open spec fn dy(self) -> int {
        match self {
            Direction::Down | Direction::DownLeft | Direction::DownRight => -1,
            Direction::Up | Direction::UpLeft | Direction::UpRight => 1,
            Direction::Null | Direction::Left | Direction::Right => 0,
        }
    }

    /// The direction that takes the step `(dx, dy)`, each part in -1..=1.
    pub open spec fn from_step(dx: int, dy: int) -> Direction {
        if dx == -1 && dy == 0 {
            Direction::Left
        } else if dx == 1 && dy == 0 {
            Direction::Right
        } else if dx == 0 && dy == -1 {
            Direction::Down
        } else if dx == 0 && dy == 1 {
            Direction::Up
        } else if dx == -1 && dy == -1 {
            Direction::DownLeft
        } else if dx == 1 && dy == -1 {
            Direction::DownRight
        } else if dx == -1 && dy == 1 {
            Direction::UpLeft
        } else if dx == 1 && dy == 1 {
            Direction::UpRight
        } else {
            Direction::Null
        }
    }

    pub fn index(self) -> (i: usize)
        ensures
            i == self.spec_index(),
            i < 9,
    {
        match self {
            Direction::Null => 0,
            Direction::Left => 1,
            Direction::Right => 2,
            Direction::Down => 3,
            Direction::Up => 4,
            Direction::DownLeft => 5,
            Direction::DownRight => 6,
            Direction::UpLeft => 7,
            Direction::UpRight => 8,
        }
    }

    /// All nine directions, each at its own index.
    pub fn iter_all() -> (all: [Direction; 9])
        ensures
            forall|i: int| 0 <= i < 9 ==> (#[trigger] all[i]).spec_index() == i,
    {
        [
            Direction::Null,
            Direction::Left,
            Direction::Right,
            Direction::Down,
            Direction::Up,
            Direction::DownLeft,
            Direction::DownRight,
            Direction::UpLeft,
            Direction::UpRight,
        ]
    }

    /// The four diagonal directions, in index order.
    pub fn iter_diag() -> (diagonals: [Direction; 4])
        ensures
            forall|i: int| 0 <= i < 4 ==> (#[trigger] diagonals[i]).spec_index() == 5 + i,
    {
        [Direction::DownLeft, Direction::DownRight, Direction::UpLeft, Direction::UpRight]
    }

    /// Whether the step moves along exactly one axis.
    pub fn ortho(self) -> (b: bool)
        ensures
            b <==> (self.dx() == 0) != (self.dy() == 0),
    {
        let i: usize = self.index();
        i >= 1 && i <= 4
    }

    /// Whether the step moves along both axes.
    pub fn diag(self) -> (b: bool)
        ensures
            b <==> self.dx() != 0 && self.dy() != 0,
    {
        self.index() >= 5
    }

    /// The opposite direction.
    pub fn reflect(self) -> (r: Direction)
        ensures
            r == Direction::from_step(-self.dx(), -self.dy()),
            r.dx() == -self.dx(),
            r.dy() == -self.dy(),
    {
        match self {
            Direction::Left => Direction::Right,
            Direction::Right => Direction::Left,
            Direction::Down => Direction::Up,
            Direction::Up => Direction::Down,
            Direction::DownLeft => Direction::UpRight,
            Direction::DownRight => Direction::UpLeft,
            Direction::UpLeft => Direction::DownRight,
            Direction::UpRight => Direction::DownLeft,
            Direction::Null => Direction::Null,
        }
    }

    /// The steps of all nine directions, each at its direction's index.
    pub fn vector_table() -> (table: [IVec2; 9])
        ensures
            forall|d: Direction|
                (#[trigger] table[d.spec_index()])@ == (d.dx(), d.dy()),
    {
        let table: [IVec2; 9] = [
            IVec2 { x: 0, y: 0 },
            IVec2 { x: -1, y: 0 },
            IVec2 { x: 1, y: 0 },
            IVec2 { x: 0, y: -1 },
            IVec2 { x: 0, y: 1 },
            IVec2 { x: -1, y: -1 },
            IVec2 { x: 1, y: -1 },
            IVec2 { x: -1, y: 1 },
            IVec2 { x: 1, y: 1 },
        ];
        table
    }

    /// The step as a vector.
    pub fn as_vector(self) -> (v: IVec2)
        ensures
            v@ == (self.dx(), self.dy()),
    {
        let table: [IVec2; 9] = Self::vector_table();
        table[self.index()]
    }

    /// The step as a cell offset.
    pub fn as_vec(self) -> (v: IVec2)
        ensures
            v@ == (self.dx(), self.dy()),
    {
        self.as_vector()
    }
}

/// Reflecting a direction twice gives the direction back.
pub proof fn lemma_reflect_involution(d: Direction)
    ensures
        Direction::from_step(
            -Direction::from_step(-d.dx(), -d.dy()).dx(),
            -Direction::from_step(-d.dx(), -d.dy()).dy(),
        ) == d,
{
}

/// A direction is found again from its step, and every step in range names
/// the direction that takes it.
pub proof fn lemma_step_round_trip(d: Direction, dx: int, dy: int)
    requires
        -1 <= dx <= 1,
        -1 <= dy <= 1,
    ensures
        Direction::from_step(d.dx(), d.dy()) == d,
        Direction::from_step(dx, dy).dx() == dx,
        Direction::from_step(dx, dy).dy() == dy,
{
}

} // verus!
