//! The addressable cell domain: a rectangle of cells that either wraps
//! around at its edges or ends there.

use vstd::prelude::*;
use vstd::arithmetic::div_mod::{lemma_fundamental_div_mod, lemma_fundamental_div_mod_converse, lemma_mod_bound};
use crate::direction::Direction;
use crate::vector::IVec2;

verus! {

/// The largest width or height of a grid.
pub const MAX_SIDE: u32 = 32768;

/// The largest distance of a grid's first cell from the origin, per axis.
pub const MAX_ORIGIN: i32 = 0x4000_0000;

/// The largest magnitude of a raw coordinate that `Grid::resolve` accepts.
pub const MAX_COORDINATE: i64 = 0x1000_0000_0000_0000;

/// `a` modulo a positive `m`, in `0..m`.
pub fn rem_euclid(a: i64, m: i64) -> (r: i64)
    requires
        m > 0,
    ensures
        r == (a as int) % (m as int),
        0 <= r < m,
{
    proof {
        lemma_mod_bound(a as int, m as int);
    }
    if a >= 0 {
        a % m
    } else if a == i64::MIN {
        // -a is out of range: step once towards zero first.
        let b: i64 = a + m;
        let t: i64 = if b >= 0 { b % m } else { (-b) % m };
        proof {
            lemma_fundamental_div_mod(a as int, m as int);
            if b >= 0 {
                lemma_fundamental_div_mod(b as int, m as int);
                lemma_fundamental_div_mod_converse(a as int, m as int, b as int / m as int - 1, t as int);
            } else {
                let q: int = (-b) as int / m as int;
                lemma_fundamental_div_mod((-b) as int, m as int);
                lemma_mod_bound((-b) as int, m as int);
                assert(m * q == q * m) by (nonlinear_arith);
                if t == 0 {
                    assert(a == (-q - 1) * m + 0) by (nonlinear_arith)
                        requires
                            -b == m * q + t,
                            t == 0,
                            b == a + m,
                    ;
                    lemma_fundamental_div_mod_converse(a as int, m as int, -q - 1, 0);
                } else {
                    assert(a == (-q - 2) * m + (m - t)) by (nonlinear_arith)
                        requires
                            -b == m * q + t,
                            b == a + m,
                    ;
                    lemma_fundamental_div_mod_converse(a as int, m as int, -q - 2, m - t);
                }
            }
        }
        if b >= 0 || t == 0 {
            t
        } else {
            m - t
        }
    } else {
        let t: i64 = (-a) % m;
        proof {
            let q: int = (-a) as int / m as int;
            lemma_fundamental_div_mod((-a) as int, m as int);
            lemma_mod_bound((-a) as int, m as int);
            if t == 0 {
                assert(a == (-q) * m + 0) by (nonlinear_arith)
                    requires
                        -a == m * q + t,
                        t == 0,
                ;
                lemma_fundamental_div_mod_converse(a as int, m as int, -q, 0);
            } else {
                assert(a == (-q - 1) * m + (m - t)) by (nonlinear_arith)
                    requires
                        -a == m * q + t,
                ;
                lemma_fundamental_div_mod_converse(a as int, m as int, -q - 1, m - t);
            }
        }
        if t == 0 {
            0
        } else {
            m - t
        }
    }
}

/// In a row-major layout the row and the column are found again from the
/// index, and the index is below the number of cells.
pub proof fn lemma_row_major(width: int, height: int, column: int, row: int)
    requires
        0 <= column < width,
        0 <= row < height,
    ensures
        0 <= row * width + column < width * height,
        (row * width + column) / width == row,
        (row * width + column) % width == column,
{
    lemma_fundamental_div_mod_converse(row * width + column, width, row, column);
    assert(0 <= row * width + column < width * height) by (nonlinear_arith)
        requires
            0 <= column < width,
            0 <= row < height,
    ;
}

/// Every index below the number of cells names a row and a column.
pub proof fn lemma_row_major_inverse(width: int, height: int, index: int)
    requires
        0 < width,
        0 <= index < width * height,
    ensures
        0 <= index % width < width,
        0 <= index / width < height,
        (index / width) * width + index % width == index,
{
    lemma_fundamental_div_mod(index, width);
    lemma_mod_bound(index, width);
    let q: int = index / width;
    assert(width * q == q * width) by (nonlinear_arith);
    assert(0 <= q < height) by (nonlinear_arith)
        requires
            0 < width,
            0 <= index < width * height,
            index == q * width + index % width,
            0 <= index % width < width,
    ;
}

/// A rectangle of cells, stored row by row.
#[derive(Clone, Copy, Debug, PartialEq, Eq, Structural)]
pub struct Grid {
    /// The cell with the least coordinates.
    pub start: IVec2,
    pub width: u32,
    pub height: u32,
    /// Whether coordinates beyond an edge come back in at the opposite edge.
    pub wrapping: bool,
}

impl Grid {
    /// The sides are positive and small enough, and the first cell is near
    /// enough to the origin, for every cell to have `i32` coordinates and a
    /// `usize` index.
    pub open spec fn wf(&self) -> bool {
        &&& 0 < self.width <= MAX_SIDE
        &&& 0 < self.height <= MAX_SIDE
        &&& -MAX_ORIGIN <= self.start.x <= MAX_ORIGIN
        &&& -MAX_ORIGIN <= self.start.y <= MAX_ORIGIN
    }

    /// The number of cells.
    pub open spec fn spec_len(&self) -> int {
        self.width * self.height
    }

    /// Whether the point lies inside the rectangle.
    pub open spec fn contains_point(&self, x: int, y: int) -> bool {
        &&& self.start.x <= x < self.start.x + self.width
        &&& self.start.y <= y < self.start.y + self.height
    }

    pub open spec fn spec_contains(&self, cell: IVec2) -> bool {
        self.contains_point(cell.x as int, cell.y as int)
    }

    /// The index of a cell of the grid.
    pub open spec fn spec_index(&self, cell: IVec2) -> int {
        (cell.y - self.start.y) * self.width + (cell.x - self.start.x)
    }

    /// The cell with the given index.
    pub open spec fn spec_cell(&self, index: int) -> IVec2 {
        IVec2 {
            x: (self.start.x + index % (self.width as int)) as i32,
            y: (self.start.y + index / (self.width as int)) as i32,
        }
    }

    /// The cell of the grid that the point denotes: the point itself if it
    /// lies inside, its image under wrapping in a wrapping grid, and no cell
    /// otherwise.
    pub open spec fn spec_resolve(&self, x: int, y: int) -> Option<IVec2> {
        if self.wrapping {
            Some(
                IVec2 {
                    x: (self.start.x + (x - self.start.x) % (self.width as int)) as i32,
                    y: (self.start.y + (y - self.start.y) % (self.height as int)) as i32,
                },
            )
        } else if self.contains_point(x, y) {
            Some(IVec2 { x: x as i32, y: y as i32 })
        } else {
            None
        }
    }

    /// The cell one step from `cell` in the given direction, if there is one.
    pub open spec fn spec_neighbor(&self, cell: IVec2, direction: Direction) -> Option<IVec2> {
        self.spec_resolve(cell.x + direction.dx(), cell.y + direction.dy())
    }

    /// The index of the cell that the point denotes, if it denotes one.
    pub open spec fn spec_resolve_index(&self, x: int, y: int) -> Option<int> {
        match self.spec_resolve(x, y) {
            Some(cell) => Some(self.spec_index(cell)),
            None => None,
        }
    }

    /// A grid with the given first cell and sides, or `None` exactly when
    /// the parameters are out of range.
    pub fn new(start: IVec2, width: u32, height: u32, wrapping: bool) -> (grid: Option<Grid>)
        ensures
            grid.is_some() <==> (Grid { start, width, height, wrapping }).wf(),
            grid.is_some() ==> grid.unwrap() == (Grid { start, width, height, wrapping }),
    {
        if width == 0 || width > MAX_SIDE || height == 0 || height > MAX_SIDE {
            return None;
        }
        if start.x < -MAX_ORIGIN || start.x > MAX_ORIGIN || start.y < -MAX_ORIGIN || start.y
            > MAX_ORIGIN {
            return None;
        }
        Some(Grid { start, width, height, wrapping })
    }

    /// The number of cells.
    pub fn len(&self) -> (n: usize)
        requires
            self.wf(),
        ensures
            n == self.spec_len(),
            0 < n <= 0x4000_0000,
    {
        let w: u64 = self.width as u64;
        let h: u64 = self.height as u64;
        assert(0 < w * h <= 0x4000_0000) by (nonlinear_arith)
            requires
                0 < w <= 32768,
                0 < h <= 32768,
        ;
        (w * h) as usize
    }

    /// Whether the cell lies inside the rectangle.
    pub fn contains(&self, cell: IVec2) -> (b: bool)
        requires
            self.wf(),
        ensures
            b == self.spec_contains(cell),
    {
        let x: i64 = cell.x as i64;
        let y: i64 = cell.y as i64;
        let x0: i64 = self.start.x as i64;
        let y0: i64 = self.start.y as i64;
        x0 <= x && x < x0 + self.width as i64 && y0 <= y && y < y0 + self.height as i64
    }

    /// The index of a cell of the grid.
    pub fn index_of(&self, cell: IVec2) -> (index: usize)
        requires
            self.wf(),
            self.spec_contains(cell),
        ensures
            index == self.spec_index(cell),
            index < self.spec_len(),
            self.spec_cell(index as int) == cell,
    {
        let column: u64 = (cell.x as i64 - self.start.x as i64) as u64;
        let row: u64 = (cell.y as i64 - self.start.y as i64) as u64;
        proof {
            lemma_row_major(self.width as int, self.height as int, column as int, row as int);
            assert(self.width * self.height <= 0x4000_0000) by (nonlinear_arith)
                requires
                    0 < self.width <= 32768,
                    0 < self.height <= 32768,
            ;
        }
        (row * (self.width as u64) + column) as usize
    }

    /// The cell with the given index.
    pub fn cell_at(&self, index: usize) -> (cell: IVec2)
        requires
            self.wf(),
            index < self.spec_len(),
        ensures
            cell == self.spec_cell(index as int),
            self.spec_contains(cell),
            self.spec_index(cell) == index,
    {
        proof {
            lemma_row_major_inverse(self.width as int, self.height as int, index as int);
        }
        let column: i64 = (index as u64 % self.width as u64) as i64;
        let row: i64 = (index as u64 / self.width as u64) as i64;
        IVec2 { x: (self.start.x as i64 + column) as i32, y: (self.start.y as i64 + row) as i32 }
    }

    /// The cell of the grid that the point denotes, if it denotes one.
    pub fn resolve(&self, x: i64, y: i64) -> (cell: Option<IVec2>)
        requires
            self.wf(),
            -MAX_COORDINATE <= x <= MAX_COORDINATE,
            -MAX_COORDINATE <= y <= MAX_COORDINATE,
        ensures
            cell == self.spec_resolve(x as int, y as int),
            cell.is_some() ==> self.spec_contains(cell.unwrap()),
    {
        let x0: i64 = self.start.x as i64;
        let y0: i64 = self.start.y as i64;
        if self.wrapping {
            let column: i64 = rem_euclid(x - x0, self.width as i64);
            let row: i64 = rem_euclid(y - y0, self.height as i64);
            Some(IVec2 { x: (x0 + column) as i32, y: (y0 + row) as i32 })
        } else if x0 <= x && x < x0 + self.width as i64 && y0 <= y && y < y0 + self.height as i64 {
            Some(IVec2 { x: x as i32, y: y as i32 })
        } else {
            None
        }
    }

    /// The cell one step from a cell of the grid in the given direction: in a
    /// wrapping grid always a cell, otherwise none beyond the edge.
    pub fn neighbor(&self, cell: IVec2, direction: Direction) -> (next: Option<IVec2>)
        requires
            self.wf(),
            self.spec_contains(cell),
        ensures
            next == self.spec_neighbor(cell, direction),
            next.is_some() ==> self.spec_contains(next.unwrap()),
            self.wrapping ==> next.is_some(),
    {
        let step: IVec2 = direction.as_vector();
        self.resolve(cell.x as i64 + step.x as i64, cell.y as i64 + step.y as i64)
    }
}

/// A cell of the grid denotes itself.
pub proof fn lemma_resolve_inside(grid: Grid, cell: IVec2)
    requires
        grid.wf(),
        grid.spec_contains(cell),
    ensures
        grid.spec_resolve(cell.x as int, cell.y as int) == Some(cell),
{
    if grid.wrapping {
        vstd::arithmetic::div_mod::lemma_small_mod(
            (cell.x - grid.start.x) as nat,
            grid.width as nat,
        );
        vstd::arithmetic::div_mod::lemma_small_mod(
            (cell.y - grid.start.y) as nat,
            grid.height as nat,
        );
    }
}

/// A point denotes no cell but one of the grid.
pub proof fn lemma_resolve_contained(grid: Grid, x: int, y: int)
    requires
        grid.wf(),
    ensures
        match grid.spec_resolve(x, y) {
            Some(cell) => grid.spec_contains(cell) && 0 <= grid.spec_index(cell) < grid.spec_len(),
            None => !grid.wrapping,
        },
{
    if grid.wrapping {
        lemma_mod_bound(x - grid.start.x, grid.width as int);
        lemma_mod_bound(y - grid.start.y, grid.height as int);
    }
    match grid.spec_resolve(x, y) {
        Some(cell) => {
            lemma_index_of_cell(grid, cell);
        },
        None => {},
    }
}

/// Every cell of the grid has an index, from which it is found again.
pub proof fn lemma_index_of_cell(grid: Grid, cell: IVec2)
    requires
        grid.wf(),
        grid.spec_contains(cell),
    ensures
        0 <= grid.spec_index(cell) < grid.spec_len(),
        grid.spec_cell(grid.spec_index(cell)) == cell,
{
    lemma_row_major(
        grid.width as int,
        grid.height as int,
        cell.x - grid.start.x,
        cell.y - grid.start.y,
    );
}

/// Every index names a cell of the grid, from which it is found again.
pub proof fn lemma_cell_of_index(grid: Grid, index: int)
    requires
        grid.wf(),
        0 <= index < grid.spec_len(),
    ensures
        grid.spec_contains(grid.spec_cell(index)),
        grid.spec_index(grid.spec_cell(index)) == index,
{
    lemma_row_major_inverse(grid.width as int, grid.height as int, index);
}

} // verus!
