//! The rejection field: for every owned cell an estimate of the shortest
//! vector that leads out of its body, refreshed once per step by one pass of
//! relaxation over the four orthogonal neighbours.

use vstd::prelude::*;
use crate::direction::Direction;
use crate::grid::{lemma_cell_of_index, lemma_resolve_inside, Grid};
use crate::object::NULL_OBJECT;
use crate::physics::{CellView, PhysicsFields};
use crate::vector::IVec2;

verus! {

/// The owner of the cell that a point denotes; `NULL_OBJECT` if it denotes
/// none.
pub open spec fn spec_owner_at(grid: Grid, object: Seq<u32>, x: int, y: int) -> u32 {
    match grid.spec_resolve(x, y) {
        Some(cell) => object[grid.spec_index(cell)],
        None => NULL_OBJECT,
    }
}

/// The rejection vector that moved into cell `c`: the one of the cell that
/// the content of `c` came from.
pub open spec fn spec_moved_rejection(grid: Grid, rejection: Seq<IVec2>, delta: Seq<IVec2>, c: int) -> IVec2 {
    let cell = grid.spec_cell(c);
    match grid.spec_resolve(cell.x - delta[c].x, cell.y - delta[c].y) {
        Some(from) => rejection[grid.spec_index(from)],
        None => IVec2 { x: 0, y: 0 },
    }
}

/// What the neighbour of cell `c` in the given direction proposes: one step
/// towards it, and from there on its own way out if it is of the same body.
pub open spec fn spec_candidate(
    grid: Grid,
    object: Seq<u32>,
    prev: Seq<IVec2>,
    c: int,
    direction: Direction,
) -> (int, int) {
    match grid.spec_neighbor(grid.spec_cell(c), direction) {
        Some(next) => {
            let n = grid.spec_index(next);
            if object[n] == object[c] {
                (prev[n].x + direction.dx(), prev[n].y + direction.dy())
            } else {
                (direction.dx(), direction.dy())
            }
        },
        None => (direction.dx(), direction.dy()),
    }
}

/// Whether the vector leads from cell `c` out of its body.
pub open spec fn spec_leads_out(grid: Grid, object: Seq<u32>, c: int, v: (int, int)) -> bool {
    let cell = grid.spec_cell(c);
    spec_owner_at(grid, object, cell.x + v.0, cell.y + v.1) != object[c]
}

/// The best vector so far and its squared length, after the neighbour in the
/// given direction was heard: its proposal if that leads out of the body and
/// is strictly shorter, and the best so far otherwise.
pub open spec fn spec_consider(
    grid: Grid,
    object: Seq<u32>,
    prev: Seq<IVec2>,
    c: int,
    direction: Direction,
    best: (IVec2, int),
) -> (IVec2, int) {
    let v = spec_candidate(grid, object, prev, c, direction);
    let dist = v.0 * v.0 + v.1 * v.1;
    if spec_leads_out(grid, object, c, v) && dist < best.1 {
        (IVec2 { x: v.0 as i32, y: v.1 as i32 }, dist)
    } else {
        best
    }
}

/// The refreshed rejection vector of cell `c`: nothing for a cell without
/// owner; otherwise the shortest proposal of the neighbours above, below, to
/// the left and to the right, the first of equals, and nothing if none
/// proposes a way out.
pub open spec fn spec_refreshed(grid: Grid, object: Seq<u32>, prev: Seq<IVec2>, c: int) -> IVec2 {
    if object[c] == NULL_OBJECT {
        IVec2 { x: 0, y: 0 }
    } else {
        let b0 = (IVec2 { x: 0, y: 0 }, i32::MAX as int);
        let b1 = spec_consider(grid, object, prev, c, Direction::Up, b0);
        let b2 = spec_consider(grid, object, prev, c, Direction::Down, b1);
        let b3 = spec_consider(grid, object, prev, c, Direction::Left, b2);
        let b4 = spec_consider(grid, object, prev, c, Direction::Right, b3);
        b4.0
    }
}

/// The fields after the refresh of the rejection field.
pub open spec fn spec_refreshed_all(grid: Grid, cells: CellView) -> CellView {
    let prev = Seq::new(
        cells.object.len(),
        |c: int| spec_moved_rejection(grid, cells.rejection, cells.delta, c),
    );
    CellView {
        prev_rejection: prev,
        rejection: Seq::new(cells.object.len(), |c: int| spec_refreshed(grid, cells.object, prev, c)),
        ..cells
    }
}

/// The best vector so far is nothing yet, or a way out of at least one step
/// whose squared length is the recorded one.
pub open spec fn spec_best_wf(best: (IVec2, int)) -> bool {
    ||| best == (IVec2 { x: 0, y: 0 }, i32::MAX as int)
    ||| (1 <= best.1 < i32::MAX && best.1 == best.0.spec_norm_squared())
}

/// A component of a vector is no longer than the vector.
pub proof fn lemma_component_bound(x: int, y: int)
    requires
        x * x + y * y < i32::MAX,
    ensures
        -46340 <= x <= 46340,
        -46340 <= y <= 46340,
{
    assert(-46340 <= x <= 46340 && -46340 <= y <= 46340) by (nonlinear_arith)
        requires
            x * x + y * y < 0x7fff_ffff,
    ;
}

/// Hearing a neighbour keeps the best so far well formed, and never makes
/// it longer.
pub proof fn lemma_consider(
    grid: Grid,
    object: Seq<u32>,
    prev: Seq<IVec2>,
    c: int,
    direction: Direction,
    best: (IVec2, int),
)
    requires
        grid.wf(),
        0 <= c < grid.spec_len(),
        object.len() == grid.spec_len(),
        spec_best_wf(best),
    ensures
        spec_best_wf(spec_consider(grid, object, prev, c, direction, best)),
        spec_consider(grid, object, prev, c, direction, best).1 <= best.1,
{
    let v = spec_candidate(grid, object, prev, c, direction);
    let dist = v.0 * v.0 + v.1 * v.1;
    if spec_leads_out(grid, object, c, v) && dist < best.1 {
        lemma_component_bound(v.0, v.1);
        lemma_cell_of_index(grid, c);
        if v.0 == 0 && v.1 == 0 {
            lemma_resolve_inside(grid, grid.spec_cell(c));
            assert(false);
        }
        assert(dist >= 1) by (nonlinear_arith)
            requires
                dist == v.0 * v.0 + v.1 * v.1,
                v.0 != 0 || v.1 != 0,
        ;
    }
}

/// Rejection at the boundary. An owned cell with an orthogonal neighbour
/// that is not of its body, or with none on that side, has after the refresh
/// a rejection vector of squared length exactly one.
pub proof fn lemma_boundary_rejection(
    grid: Grid,
    object: Seq<u32>,
    prev: Seq<IVec2>,
    c: int,
    direction: Direction,
)
    requires
        grid.wf(),
        0 <= c < grid.spec_len(),
        object.len() == grid.spec_len(),
        object[c] != NULL_OBJECT,
        (direction.dx() == 0) != (direction.dy() == 0),
        spec_owner_at(
            grid,
            object,
            grid.spec_cell(c).x + direction.dx(),
            grid.spec_cell(c).y + direction.dy(),
        ) != object[c],
    ensures
        spec_refreshed(grid, object, prev, c).spec_norm_squared() == 1,
{
    let b0 = (IVec2 { x: 0, y: 0 }, i32::MAX as int);
    let b1 = spec_consider(grid, object, prev, c, Direction::Up, b0);
    let b2 = spec_consider(grid, object, prev, c, Direction::Down, b1);
    let b3 = spec_consider(grid, object, prev, c, Direction::Left, b2);
    let b4 = spec_consider(grid, object, prev, c, Direction::Right, b3);
    lemma_consider(grid, object, prev, c, Direction::Up, b0);
    lemma_consider(grid, object, prev, c, Direction::Down, b1);
    lemma_consider(grid, object, prev, c, Direction::Left, b2);
    lemma_consider(grid, object, prev, c, Direction::Right, b3);
    // The neighbour on the open side proposes the step towards itself.
    let v = spec_candidate(grid, object, prev, c, direction);
    assert(v == (direction.dx(), direction.dy()));
    assert(spec_leads_out(grid, object, c, v));
    assert(v.0 * v.0 + v.1 * v.1 == 1);
    assert(b4.1 <= 1);
}

impl PhysicsFields {
    fn owner_at(&self, grid: &Grid, x: i64, y: i64) -> (owner: u32)
        requires
            self.wf(*grid),
            -0x1_0000_0000 <= x <= 0x1_0000_0000,
            -0x1_0000_0000 <= y <= 0x1_0000_0000,
        ensures
            owner == spec_owner_at(*grid, self.object@, x as int, y as int),
    {
        match grid.resolve(x, y) {
            Some(cell) => self.object[grid.index_of(cell)],
            None => NULL_OBJECT,
        }
    }

    fn consider(&self, grid: &Grid, c: usize, direction: Direction, best: (IVec2, i64)) -> (r: (
        IVec2,
        i64,
    ))
        requires
            self.wf(*grid),
            c < grid.spec_len(),
            spec_best_wf((best.0, best.1 as int)),
            forall|k: int|
                0 <= k < grid.spec_len() ==> (#[trigger] self.prev_rejection@[k]).spec_norm_squared()
                    < i32::MAX,
        ensures
            (r.0, r.1 as int) == spec_consider(
                *grid,
                self.object@,
                self.prev_rejection@,
                c as int,
                direction,
                (best.0, best.1 as int),
            ),
            spec_best_wf((r.0, r.1 as int)),
    {
        proof {
            lemma_consider(
                *grid,
                self.object@,
                self.prev_rejection@,
                c as int,
                direction,
                (best.0, best.1 as int),
            );
        }
        let cell: IVec2 = grid.cell_at(c);
        let step: IVec2 = direction.as_vector();
        let mut x: i64 = step.x as i64;
        let mut y: i64 = step.y as i64;
        match grid.neighbor(cell, direction) {
            Some(next) => {
                let n: usize = grid.index_of(next);
                if self.object[n] == self.object[c] {
                    let back: IVec2 = self.prev_rejection[n];
                    proof {
                        lemma_component_bound(back.x as int, back.y as int);
                    }
                    x = back.x as i64 + x;
                    y = back.y as i64 + y;
                }
            },
            None => {},
        }
        assert(0 <= x * x <= 46341 * 46341 && 0 <= y * y <= 46341 * 46341) by (nonlinear_arith)
            requires
                -46341 <= x <= 46341,
                -46341 <= y <= 46341,
        ;
        let dist: i64 = x * x + y * y;
        let leads_out: bool = self.owner_at(grid, cell.x as i64 + x, cell.y as i64 + y)
            != self.object[c];
        if leads_out && dist < best.1 {
            proof {
                lemma_component_bound(x as int, y as int);
            }
            (IVec2 { x: x as i32, y: y as i32 }, dist)
        } else {
            best
        }
    }

    /// Refreshes the rejection field: every cell first takes over the vector
    /// of the cell that its content came from, and every owned cell then
    /// takes the shortest way out that its four neighbours propose.
    pub fn refresh_rejection(&mut self, grid: &Grid)
        requires
            old(self).wf(*grid),
        ensures
            final(self).wf(*grid),
            final(self)@ == spec_refreshed_all(*grid, old(self)@),
    {
        let n: usize = grid.len();
        let mut i: usize = 0;
        while i < n
            invariant
                0 <= i <= n,
                n == grid.spec_len(),
                self.wf(*grid),
                self.object@ == old(self).object@,
                self.predicted_object@ == old(self).predicted_object@,
                self.delta@ == old(self).delta@,
                self.lock@ == old(self).lock@,
                self.rejection@ == old(self).rejection@,
                forall|c: int|
                    0 <= c < i ==> #[trigger] self.prev_rejection@[c] == spec_moved_rejection(
                        *grid,
                        self.rejection@,
                        self.delta@,
                        c,
                    ),
                forall|c: int|
                    0 <= c < i ==> (#[trigger] self.prev_rejection@[c]).spec_norm_squared()
                        < i32::MAX,
            decreases n - i,
        {
            let cell: IVec2 = grid.cell_at(i);
            let moved: IVec2 = self.delta[i];
            let from: Option<IVec2> = grid.resolve(
                cell.x as i64 - moved.x as i64,
                cell.y as i64 - moved.y as i64,
            );
            let vector: IVec2 = match from {
                Some(source) => self.rejection[grid.index_of(source)],
                None => IVec2 { x: 0, y: 0 },
            };
            self.prev_rejection.set(i, vector);
            i += 1;
        }
        let ghost prev = self.prev_rejection@;
        i = 0;
        while i < n
            invariant
                0 <= i <= n,
                n == grid.spec_len(),
                self.wf(*grid),
                self.object@ == old(self).object@,
                self.predicted_object@ == old(self).predicted_object@,
                self.delta@ == old(self).delta@,
                self.lock@ == old(self).lock@,
                self.prev_rejection@ == prev,
                forall|c: int|
                    0 <= c < n ==> #[trigger] prev[c] == spec_moved_rejection(
                        *grid,
                        old(self).rejection@,
                        old(self).delta@,
                        c,
                    ),
                forall|c: int| 0 <= c < n ==> (#[trigger] prev[c]).spec_norm_squared() < i32::MAX,
                forall|c: int|
                    0 <= c < i ==> #[trigger] self.rejection@[c] == spec_refreshed(
                        *grid,
                        self.object@,
                        prev,
                        c,
                    ),
            decreases n - i,
        {
            let mut vector: IVec2 = IVec2 { x: 0, y: 0 };
            if self.object[i] != NULL_OBJECT {
                let b0: (IVec2, i64) = (IVec2 { x: 0, y: 0 }, i32::MAX as i64);
                let b1: (IVec2, i64) = self.consider(grid, i, Direction::Up, b0);
                let b2: (IVec2, i64) = self.consider(grid, i, Direction::Down, b1);
                let b3: (IVec2, i64) = self.consider(grid, i, Direction::Left, b2);
                let b4: (IVec2, i64) = self.consider(grid, i, Direction::Right, b3);
                vector = b4.0;
            }
            assert(vector.spec_norm_squared() < i32::MAX);
            self.rejection.set(i, vector);
            i += 1;
        }
        assert(self@ =~= spec_refreshed_all(*grid, old(self)@));
    }
}

} // verus!
