//! The making of a world from a bitmap of owners: every body's mass is the
//! number of its cells, its position their centroid, and its moment their
//! second moment about the centroid.

use vstd::prelude::*;
use crate::fixed::Fixed;
use crate::grid::{lemma_row_major_inverse, Grid};
use crate::object::{ObjectState, NULL_OBJECT};
use crate::vector::{FVec2, IVec2};

verus! {

/// What a world is made from.
pub struct InitData {
    /// The owner of every cell, or `NULL_OBJECT`: `cells[x][y]` is the cell
    /// in column `x` and row `y`, counted from the grid's first cell.
    pub cells: Vec<Vec<u32>>,
    /// The velocity of each body; a body without an entry is at rest.
    pub object_velocities: Vec<FVec2>,
    /// The angular velocity of each body; a body without an entry does not
    /// turn.
    pub object_angvels: Vec<Fixed>,
}

/// Why a world could not be made.
#[derive(Clone, Copy, Debug, PartialEq, Eq, Structural)]
pub enum InitError {
    /// The bitmap does not have one column per column of the grid, or a
    /// column does not have one entry per row.
    Shape,
    /// A cell is owned by a body for which the store has no slot.
    UnknownObject,
    /// More slots were asked for than there are identifiers.
    TooManyObjects,
    /// The grid's sides or its first cell are out of range.
    Grid,
}

impl InitData {
    /// Whether the bitmap has the shape of the grid.
    pub open spec fn spec_fits(&self, grid: Grid) -> bool {
        &&& self.cells@.len() == grid.width
        &&& forall|x: int| 0 <= x < self.cells@.len() ==> (#[trigger] self.cells@[x])@.len() == grid.height
    }

    /// The owners of the cells, by cell index.
    pub open spec fn spec_flat(&self, grid: Grid) -> Seq<u32> {
        Seq::new(
            grid.spec_len() as nat,
            |c: int| self.cells@[c % (grid.width as int)]@[c / (grid.width as int)],
        )
    }

    /// The velocity that body `o` starts with.
    pub open spec fn spec_velocity(&self, o: int) -> FVec2 {
        if 0 <= o < self.object_velocities@.len() {
            self.object_velocities@[o]
        } else {
            FVec2::spec_zero()
        }
    }

    /// The angular velocity that body `o` starts with.
    pub open spec fn spec_angvel(&self, o: int) -> Fixed {
        if 0 <= o < self.object_angvels@.len() {
            self.object_angvels@[o]
        } else {
            Fixed::spec_zero()
        }
    }
}

/// Whether every owner is a body with a slot, or none.
pub open spec fn spec_owners_known(object: Seq<u32>, slots: int) -> bool {
    forall|c: int| 0 <= c < object.len() ==> #[trigger] object[c] == NULL_OBJECT || object[c] < slots
}

/// How many of the first `upto` cells body `o` owns.
pub open spec fn spec_mass_upto(object: Seq<u32>, o: u32, upto: int) -> nat
    decreases upto,
{
    if upto <= 0 {
        0
    } else {
        spec_mass_upto(object, o, upto - 1) + if object[upto - 1] == o {
            1nat
        } else {
            0nat
        }
    }
}

/// The sum of the columns of those of the first `upto` cells that body `o`
/// owns.
pub open spec fn spec_column_sum_upto(width: int, object: Seq<u32>, o: u32, upto: int) -> nat
    decreases upto,
{
    if upto <= 0 {
        0
    } else {
        spec_column_sum_upto(width, object, o, upto - 1) + if object[upto - 1] == o {
            ((upto - 1) % width) as nat
        } else {
            0nat
        }
    }
}

/// The sum of the rows of those of the first `upto` cells that body `o`
/// owns.
pub open spec fn spec_row_sum_upto(width: int, object: Seq<u32>, o: u32, upto: int) -> nat
    decreases upto,
{
    if upto <= 0 {
        0
    } else {
        spec_row_sum_upto(width, object, o, upto - 1) + if object[upto - 1] == o {
            ((upto - 1) / width) as nat
        } else {
            0nat
        }
    }
}

/// The squared distance of the cell with index `c` from the point
/// `(cx, cy)`, both counted from the grid's first cell.
pub open spec fn spec_squared_distance(width: int, c: int, cx: int, cy: int) -> int {
    (c % width - cx) * (c % width - cx) + (c / width - cy) * (c / width - cy)
}

/// The second moment about `(cx, cy)` of those of the first `upto` cells
/// that body `o` owns.
pub open spec fn spec_moment_upto(width: int, object: Seq<u32>, o: u32, cx: int, cy: int, upto: int) -> nat
    decreases upto,
{
    if upto <= 0 {
        0
    } else {
        spec_moment_upto(width, object, o, cx, cy, upto - 1) + if object[upto - 1] == o {
            spec_squared_distance(width, upto - 1, cx, cy) as nat
        } else {
            0nat
        }
    }
}

/// The mass of body `o`: the number of cells that it owns.
pub open spec fn spec_mass(object: Seq<u32>, o: u32) -> nat {
    spec_mass_upto(object, o, object.len() as int)
}

/// The centroid of body `o`, counted from the grid's first cell and rounded
/// down to a cell; the first cell itself for a body without cells.
pub open spec fn spec_centre(width: int, object: Seq<u32>, o: u32) -> (int, int) {
    let mass = spec_mass(object, o);
    let by = if mass == 0 {
        1
    } else {
        mass as int
    };
    (
        spec_column_sum_upto(width, object, o, object.len() as int) as int / by,
        spec_row_sum_upto(width, object, o, object.len() as int) as int / by,
    )
}

/// The moment of body `o`: the second moment of its cells about its
/// centroid.
pub open spec fn spec_moment(width: int, object: Seq<u32>, o: u32) -> nat {
    let centre = spec_centre(width, object, o);
    spec_moment_upto(width, object, o, centre.0, centre.1, object.len() as int)
}

/// Body `o` as the world begins: made of its cells, placed at their
/// centroid, not turned, and moving as the initial data say.
pub open spec fn spec_initial_body(grid: Grid, init: InitData, o: u32) -> ObjectState {
    let object = init.spec_flat(grid);
    let centre = spec_centre(grid.width as int, object, o);
    let position = FVec2::spec_from_cell(
        IVec2 { x: (grid.start.x + centre.0) as i32, y: (grid.start.y + centre.1) as i32 },
    );
    ObjectState {
        velocity: init.spec_velocity(o as int),
        angvel: init.spec_angvel(o as int),
        ..ObjectState::spec_at_rest(
            spec_mass(object, o) as u32,
            spec_moment(grid.width as int, object, o) as u64,
            position,
        )
    }
}

/// The sums over a body's cells are bounded by its mass, and its mass by
/// the number of cells.
pub proof fn lemma_sums_bounded(width: int, object: Seq<u32>, o: u32, cx: int, cy: int, upto: int)
    requires
        0 < width <= 32768,
        0 <= upto <= width * 32768,
        0 <= cx < 32768,
        0 <= cy < 32768,
    ensures
        spec_mass_upto(object, o, upto) <= upto,
        spec_column_sum_upto(width, object, o, upto) <= 32767 * spec_mass_upto(object, o, upto),
        spec_row_sum_upto(width, object, o, upto) <= 32767 * spec_mass_upto(object, o, upto),
        spec_moment_upto(width, object, o, cx, cy, upto) <= 0x8000_0000 * spec_mass_upto(
            object,
            o,
            upto,
        ),
    decreases upto,
{
    if upto > 0 {
        lemma_sums_bounded(width, object, o, cx, cy, upto - 1);
        lemma_cell_parts(width, upto - 1);
        let dx = (upto - 1) % width - cx;
        let dy = (upto - 1) / width - cy;
        assert(0 <= dx * dx + dy * dy <= 0x8000_0000) by (nonlinear_arith)
            requires
                -32768 < dx < 32768,
                -32768 < dy < 32768,
        ;
        assert(spec_squared_distance(width, upto - 1, cx, cy) == dx * dx + dy * dy);
    }
}

/// The column and the row of a cell are below the largest side.
pub proof fn lemma_cell_parts(width: int, c: int)
    requires
        0 < width <= 32768,
        0 <= c < width * 32768,
    ensures
        0 <= c % width < width,
        0 <= c / width < 32768,
{
    lemma_row_major_inverse(width, 32768, c);
}

/// A centroid lies within the cells that it is the centroid of.
pub proof fn lemma_centre_bounded(sum: int, mass: int)
    requires
        0 <= sum <= 32767 * mass,
        0 <= mass,
    ensures
        0 <= sum / (if mass == 0 {
            1
        } else {
            mass
        }) <= 32767,
{
    if mass == 0 {
        assert(sum == 0);
    } else {
        assert(0 <= sum / mass <= 32767) by (nonlinear_arith)
            requires
                0 <= sum <= 32767 * mass,
                0 < mass,
        ;
    }
}

/// A body's mass counts each of its cells.
pub proof fn lemma_mass_counts(object: Seq<u32>, o: u32, c: int, upto: int)
    requires
        0 <= c < upto,
        object[c] == o,
    ensures
        spec_mass_upto(object, o, upto) >= 1,
        spec_mass_upto(object, o, upto) >= spec_mass_upto(object, o, c) + 1,
    decreases upto,
{
    if c < upto - 1 {
        lemma_mass_counts(object, o, c, upto - 1);
    }
}

/// A body's moment is at least the squared distance of any of its cells.
pub proof fn lemma_moment_counts(width: int, object: Seq<u32>, o: u32, cx: int, cy: int, c: int, upto: int)
    requires
        0 <= c < upto,
        object[c] == o,
    ensures
        spec_moment_upto(width, object, o, cx, cy, upto) >= spec_squared_distance(width, c, cx, cy),
    decreases upto,
{
    assert(spec_squared_distance(width, upto - 1, cx, cy) >= 0) by (nonlinear_arith)
        requires
            spec_squared_distance(width, upto - 1, cx, cy) == ((upto - 1) % width - cx) * ((upto
                - 1) % width - cx) + ((upto - 1) / width - cy) * ((upto - 1) / width - cy),
    ;
    if c < upto - 1 {
        lemma_moment_counts(width, object, o, cx, cy, c, upto - 1);
    }
}

/// Mass positivity. A body that owns a cell has positive mass, and a body
/// that owns two cells has positive moment. (The moment of a body of one
/// cell is zero: that cell is its centroid.)
pub proof fn lemma_mass_and_moment_positive(width: int, object: Seq<u32>, o: u32, c1: int, c2: int)
    requires
        0 < width,
        0 <= c1 < object.len(),
        object[c1] == o,
    ensures
        spec_mass(object, o) > 0,
        0 <= c2 < object.len() && object[c2] == o && c2 != c1 ==> spec_moment(width, object, o) > 0,
{
    let n = object.len() as int;
    lemma_mass_counts(object, o, c1, n);
    if 0 <= c2 < n && object[c2] == o && c2 != c1 {
        let centre = spec_centre(width, object, o);
        lemma_moment_counts(width, object, o, centre.0, centre.1, c1, n);
        lemma_moment_counts(width, object, o, centre.0, centre.1, c2, n);
        // Two cells cannot both lie at the centroid.
        vstd::arithmetic::div_mod::lemma_fundamental_div_mod(c1, width);
        vstd::arithmetic::div_mod::lemma_fundamental_div_mod(c2, width);
        let d1 = spec_squared_distance(width, c1, centre.0, centre.1);
        let d2 = spec_squared_distance(width, c2, centre.0, centre.1);
        if d1 <= 0 && d2 <= 0 {
            let x1 = c1 % width - centre.0;
            let y1 = c1 / width - centre.1;
            let x2 = c2 % width - centre.0;
            let y2 = c2 / width - centre.1;
            assert(x1 == 0 && y1 == 0) by (nonlinear_arith)
                requires
                    x1 * x1 + y1 * y1 <= 0,
            ;
            assert(x2 == 0 && y2 == 0) by (nonlinear_arith)
                requires
                    x2 * x2 + y2 * y2 <= 0,
            ;
            assert(c1 == c2);
        }
    }
}

/// The mass and the moment of a body of a grid fit the fields that hold
/// them.
pub proof fn lemma_initial_body_in_range(grid: Grid, init: InitData, o: u32)
    requires
        grid.wf(),
    ensures
        spec_mass(init.spec_flat(grid), o) <= u32::MAX,
        spec_moment(grid.width as int, init.spec_flat(grid), o) <= u64::MAX,
        spec_initial_body(grid, init, o).mass == spec_mass(init.spec_flat(grid), o),
        spec_initial_body(grid, init, o).moment == spec_moment(
            grid.width as int,
            init.spec_flat(grid),
            o,
        ),
{
    let object = init.spec_flat(grid);
    let width = grid.width as int;
    let n = object.len() as int;
    assert(n == grid.width * grid.height);
    assert(n <= width * 32768 && n <= 0x4000_0000) by (nonlinear_arith)
        requires
            n == grid.width * grid.height,
            width == grid.width,
            0 < grid.width <= 32768,
            0 < grid.height <= 32768,
    ;
    lemma_sums_bounded(width, object, o, 0, 0, n);
    let centre = spec_centre(width, object, o);
    lemma_centre_bounded(
        spec_column_sum_upto(width, object, o, n) as int,
        spec_mass(object, o) as int,
    );
    lemma_centre_bounded(spec_row_sum_upto(width, object, o, n) as int, spec_mass(object, o) as int);
    lemma_sums_bounded(width, object, o, centre.0, centre.1, n);
}

/// The owners of the cells by cell index, or the reason why the bitmap does
/// not give them: its shape, or an owner without a slot.
pub fn flatten(grid: &Grid, init: &InitData, slots: u32) -> (flat: Result<Vec<u32>, InitError>)
    requires
        grid.wf(),
    ensures
        match flat {
            Ok(object) => {
                &&& init.spec_fits(*grid)
                &&& object@ == init.spec_flat(*grid)
                &&& spec_owners_known(object@, slots as int)
            },
            Err(e) => if !init.spec_fits(*grid) {
                e == InitError::Shape
            } else {
                e == InitError::UnknownObject && !spec_owners_known(
                    init.spec_flat(*grid),
                    slots as int,
                )
            },
        },
{
    let w: usize = grid.width as usize;
    let h: usize = grid.height as usize;
    if init.cells.len() != w {
        return Err(InitError::Shape);
    }
    let mut x: usize = 0;
    while x < w
        invariant
            0 <= x <= w,
            w == init.cells@.len(),
            h == grid.height,
            forall|k: int| 0 <= k < x ==> (#[trigger] init.cells@[k])@.len() == h,
        decreases w - x,
    {
        if init.cells[x].len() != h {
            return Err(InitError::Shape);
        }
        x += 1;
    }
    let n: usize = grid.len();
    let mut object: Vec<u32> = Vec::new();
    let mut c: usize = 0;
    while c < n
        invariant
            0 <= c <= n,
            grid.wf(),
            n == grid.spec_len(),
            w == grid.width,
            h == grid.height,
            init.spec_fits(*grid),
            object@.len() == c,
            forall|k: int| 0 <= k < c ==> #[trigger] object@[k] == init.spec_flat(*grid)[k],
            forall|k: int| 0 <= k < c ==> #[trigger] object@[k] == NULL_OBJECT || object@[k] < slots,
        decreases n - c,
    {
        proof {
            lemma_row_major_inverse(grid.width as int, grid.height as int, c as int);
        }
        let owner: u32 = init.cells[c % w][c / w];
        if owner != NULL_OBJECT && owner >= slots {
            proof {
                let flat = init.spec_flat(*grid);
                assert(flat[c as int] == owner);
            }
            return Err(InitError::UnknownObject);
        }
        object.push(owner);
        c += 1;
    }
    assert(object@ =~= init.spec_flat(*grid));
    Ok(object)
}

/// The bodies that a field of owners makes: for each of `slots` slots the
/// body of `spec_initial_body`.
pub fn make_bodies(grid: &Grid, init: &InitData, object: &Vec<u32>, slots: u32) -> (bodies: Vec<
    ObjectState,
>)
    requires
        grid.wf(),
        init.spec_fits(*grid),
        object@ == init.spec_flat(*grid),
        spec_owners_known(object@, slots as int),
    ensures
        bodies@.len() == slots,
        forall|o: int|
            0 <= o < slots ==> #[trigger] bodies@[o] == spec_initial_body(*grid, *init, o as u32),
{
    let n: usize = grid.len();
    let w: usize = grid.width as usize;
    let ghost width = grid.width as int;
    let mut mass: Vec<u32> = Vec::new();
    let mut columns: Vec<u64> = Vec::new();
    let mut rows: Vec<u64> = Vec::new();
    let mut moment: Vec<u64> = Vec::new();
    let mut o: u32 = 0;
    while o < slots
        invariant
            0 <= o <= slots,
            mass@.len() == o,
            columns@.len() == o,
            rows@.len() == o,
            moment@.len() == o,
            forall|k: int| 0 <= k < o ==> #[trigger] mass@[k] == 0,
            forall|k: int| 0 <= k < o ==> #[trigger] columns@[k] == 0,
            forall|k: int| 0 <= k < o ==> #[trigger] rows@[k] == 0,
            forall|k: int| 0 <= k < o ==> #[trigger] moment@[k] == 0,
        decreases slots - o,
    {
        mass.push(0);
        columns.push(0);
        rows.push(0);
        moment.push(0);
        o += 1;
    }
    assert(width * 32768 >= grid.spec_len()) by (nonlinear_arith)
        requires
            width == grid.width,
            grid.spec_len() == grid.width * grid.height,
            0 < grid.width,
            grid.height <= 32768,
    ;
    let mut c: usize = 0;
    while c < n
        invariant
            0 <= c <= n,
            grid.wf(),
            n == grid.spec_len(),
            n == object@.len(),
            n <= 0x4000_0000,
            w == grid.width,
            width == grid.width,
            width * 32768 >= n,
            spec_owners_known(object@, slots as int),
            mass@.len() == slots,
            columns@.len() == slots,
            rows@.len() == slots,
            forall|k: int|
                0 <= k < slots ==> #[trigger] mass@[k] == spec_mass_upto(object@, k as u32, c as int),
            forall|k: int|
                0 <= k < slots ==> #[trigger] columns@[k] == spec_column_sum_upto(
                    width,
                    object@,
                    k as u32,
                    c as int,
                ),
            forall|k: int|
                0 <= k < slots ==> #[trigger] rows@[k] == spec_row_sum_upto(
                    width,
                    object@,
                    k as u32,
                    c as int,
                ),
        decreases n - c,
    {
        let owner: u32 = object[c];
        proof {
            lemma_cell_parts(width, c as int);
        }
        if owner != NULL_OBJECT {
            proof {
                lemma_sums_bounded(width, object@, owner, 0, 0, c as int);
            }
            let k: usize = owner as usize;
            let m: u32 = mass[k];
            mass.set(k, m + 1);
            let sx: u64 = columns[k];
            columns.set(k, sx + (c % w) as u64);
            let sy: u64 = rows[k];
            rows.set(k, sy + (c / w) as u64);
        }
        c += 1;
    }
    let mut cx: Vec<u64> = Vec::new();
    let mut cy: Vec<u64> = Vec::new();
    o = 0;
    while o < slots
        invariant
            0 <= o <= slots,
            n == object@.len(),
            n <= 0x4000_0000,
            0 < width <= 32768,
            width * 32768 >= n,
            mass@.len() == slots,
            columns@.len() == slots,
            rows@.len() == slots,
            cx@.len() == o,
            cy@.len() == o,
            forall|k: int| 0 <= k < slots ==> #[trigger] mass@[k] == spec_mass(object@, k as u32),
            forall|k: int|
                0 <= k < slots ==> #[trigger] columns@[k] == spec_column_sum_upto(
                    width,
                    object@,
                    k as u32,
                    n as int,
                ),
            forall|k: int|
                0 <= k < slots ==> #[trigger] rows@[k] == spec_row_sum_upto(
                    width,
                    object@,
                    k as u32,
                    n as int,
                ),
            forall|k: int|
                0 <= k < o ==> #[trigger] cx@[k] == spec_centre(width, object@, k as u32).0
                    && cy@[k] == spec_centre(width, object@, k as u32).1 && cx@[k] <= 32767
                    && cy@[k] <= 32767,
        decreases slots - o,
    {
        let k: usize = o as usize;
        let m: u64 = mass[k] as u64;
        let by: u64 = if m == 0 { 1 } else { m };
        proof {
            lemma_sums_bounded(width, object@, o, 0, 0, n as int);
            lemma_centre_bounded(columns@[k as int] as int, m as int);
            lemma_centre_bounded(rows@[k as int] as int, m as int);
        }
        cx.push(columns[k] / by);
        cy.push(rows[k] / by);
        o += 1;
    }
    c = 0;
    while c < n
        invariant
            0 <= c <= n,
            grid.wf(),
            n == grid.spec_len(),
            n == object@.len(),
            n <= 0x4000_0000,
            w == grid.width,
            width == grid.width,
            width * 32768 >= n,
            spec_owners_known(object@, slots as int),
            cx@.len() == slots,
            cy@.len() == slots,
            moment@.len() == slots,
            forall|k: int|
                0 <= k < slots ==> #[trigger] cx@[k] == spec_centre(width, object@, k as u32).0
                    && cy@[k] == spec_centre(width, object@, k as u32).1 && cx@[k] <= 32767
                    && cy@[k] <= 32767,
            forall|k: int|
                0 <= k < slots ==> #[trigger] moment@[k] == spec_moment_upto(
                    width,
                    object@,
                    k as u32,
                    cx@[k] as int,
                    cy@[k] as int,
                    c as int,
                ),
        decreases n - c,
    {
        let owner: u32 = object[c];
        proof {
            lemma_cell_parts(width, c as int);
        }
        if owner != NULL_OBJECT {
            let k: usize = owner as usize;
            assert(cx@[k as int] == spec_centre(width, object@, owner).0);
            let dx: i64 = (c % w) as i64 - cx[k] as i64;
            let dy: i64 = (c / w) as i64 - cy[k] as i64;
            proof {
                lemma_sums_bounded(
                    width,
                    object@,
                    owner,
                    cx@[k as int] as int,
                    cy@[k as int] as int,
                    c as int,
                );
                lemma_sums_bounded(
                    width,
                    object@,
                    owner,
                    cx@[k as int] as int,
                    cy@[k as int] as int,
                    c + 1,
                );
            }
            assert(0 <= dx * dx + dy * dy <= 0x8000_0000 && 0 <= dx * dx && 0 <= dy * dy)
                by (nonlinear_arith)
                requires
                    -32768 < dx < 32768,
                    -32768 < dy < 32768,
            ;
            let old_moment: u64 = moment[k];
            moment.set(k, old_moment + (dx * dx + dy * dy) as u64);
        }
        c += 1;
    }
    let mut bodies: Vec<ObjectState> = Vec::new();
    o = 0;
    while o < slots
        invariant
            0 <= o <= slots,
            grid.wf(),
            n == object@.len(),
            n <= 0x4000_0000,
            width == grid.width,
            object@ == init.spec_flat(*grid),
            mass@.len() == slots,
            cx@.len() == slots,
            cy@.len() == slots,
            moment@.len() == slots,
            bodies@.len() == o,
            forall|k: int| 0 <= k < slots ==> #[trigger] mass@[k] == spec_mass(object@, k as u32),
            forall|k: int|
                0 <= k < slots ==> #[trigger] cx@[k] == spec_centre(width, object@, k as u32).0
                    && cy@[k] == spec_centre(width, object@, k as u32).1 && cx@[k] <= 32767
                    && cy@[k] <= 32767,
            forall|k: int|
                0 <= k < slots ==> #[trigger] moment@[k] == spec_moment(width, object@, k as u32),
            forall|k: int|
                0 <= k < o ==> #[trigger] bodies@[k] == spec_initial_body(*grid, *init, k as u32),
        decreases slots - o,
    {
        let k: usize = o as usize;
        assert(cx@[k as int] == spec_centre(width, object@, o).0);
        let centre: IVec2 = IVec2 {
            x: (grid.start.x as i64 + cx[k] as i64) as i32,
            y: (grid.start.y as i64 + cy[k] as i64) as i32,
        };
        let mut body: ObjectState = ObjectState::at_rest(
            mass[k],
            moment[k],
            FVec2::from_cell(centre),
        );
        if k < init.object_velocities.len() {
            body.velocity = init.object_velocities[k];
        }
        if k < init.object_angvels.len() {
            body.angvel = init.object_angvels[k];
        }
        bodies.push(body);
        o += 1;
    }
    bodies
}

} // verus!
