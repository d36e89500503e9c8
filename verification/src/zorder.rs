//! Fields in Z-order: the layout in which a device buffer holds the cells of
//! a square grid whose side is a power of two.

use vstd::prelude::*;
use crate::grid::{lemma_row_major, Grid};

verus! {

/// The number whose even bits are the bits of `x` and whose odd bits are
/// zero.
pub open spec fn spec_spread(x: nat) -> nat
    decreases x,
{
    if x == 0 {
        0
    } else {
        x % 2 + 4 * spec_spread(x / 2)
    }
}

/// The number whose bits are the even bits of `z`.
pub open spec fn spec_gather(z: nat) -> nat
    decreases z,
{
    if z == 0 {
        0
    } else {
        z % 2 + 2 * spec_gather(z / 4)
    }
}

/// The Z-order code of a point: the bits of `x` in the even places and the
/// bits of `y` in the odd ones.
pub open spec fn spec_interleave(x: nat, y: nat) -> nat {
    spec_spread(x) + 2 * spec_spread(y)
}

/// Whether `n` is a power of two.
pub open spec fn spec_power_of_two(n: nat) -> bool
    decreases n,
{
    n == 1 || (n > 1 && n % 2 == 0 && spec_power_of_two(n / 2))
}

/// The Z-order code of a point, by `morton::interleave_morton`: the bits of
/// `x` go to the even places of the code and the bits of `y` to the odd
/// ones.
#[verifier::external_body]
fn interleave(x: u16, y: u16) -> (z: u32)
    ensures
        z == spec_interleave(x as nat, y as nat),
{
    morton::interleave_morton(x, y)
}

/// The point of a Z-order code, by `morton::deinterleave_morton`: `x` is
/// made of the bits in the even places of the code and `y` of those in the
/// odd ones.
#[verifier::external_body]
fn deinterleave(z: u32) -> (p: (u16, u16))
    ensures
        p.0 == spec_gather(z as nat),
        p.1 == spec_gather(z as nat / 2),
{
    morton::deinterleave_morton(z)
}

/// The gathered bits of a code below the square of a power of two are below
/// that power.
pub proof fn lemma_gather_bound(z: nat, side: nat)
    requires
        spec_power_of_two(side),
        z < side * side,
    ensures
        spec_gather(z) < side,
    decreases side,
{
    if side == 1 {
        assert(side * side == 1) by (nonlinear_arith)
            requires
                side == 1,
        ;
    } else {
        let half = side / 2;
        assert(side == 2 * half);
        assert(z / 4 < half * half) by (nonlinear_arith)
            requires
                z < side * side,
                side == 2 * half,
        ;
        if z != 0 {
            lemma_gather_bound(z / 4, half);
        }
    }
}

/// Gathering the even bits of a spread number gives the number back,
/// whatever stands in the odd places.
pub proof fn lemma_gather_spread(x: nat, y: nat)
    ensures
        spec_gather(spec_interleave(x, y)) == x,
        spec_gather(spec_interleave(x, y) / 2) == y,
    decreases x + y,
{
    if x == 0 && y == 0 {
        assert(spec_interleave(0, 0) == 0);
    } else {
        lemma_gather_spread(x / 2, y / 2);
        let rest = spec_interleave(x / 2, y / 2);
        let z = spec_interleave(x, y);
        assert(spec_spread(x) == x % 2 + 4 * spec_spread(x / 2));
        assert(spec_spread(y) == y % 2 + 4 * spec_spread(y / 2));
        assert(z == x % 2 + 2 * (y % 2) + 4 * rest);
        assert(z % 2 == x % 2);
        assert(z / 4 == rest);
        assert((z / 2) % 2 == y % 2);
        assert((z / 2) / 4 == rest / 2);
        if z == 0 {
            assert(x % 2 == 0 && y % 2 == 0 && rest == 0);
        }
        if z / 2 == 0 {
            assert(y % 2 == 0 && rest / 2 == 0);
        }
    }
}

/// Whether `n` is a power of two.
pub fn is_power_of_two(n: u32) -> (b: bool)
    ensures
        b == spec_power_of_two(n as nat),
    decreases n,
{
    if n == 1 {
        true
    } else if n == 0 || n % 2 == 1 {
        false
    } else {
        is_power_of_two(n / 2)
    }
}

/// Whether a grid has a Z-order: it is square, and its side is a power of
/// two.
pub open spec fn spec_has_z_order(grid: Grid) -> bool {
    grid.width == grid.height && spec_power_of_two(grid.width as nat)
}

/// The Z-order code of the cell in column `x` and row `y` of the grid,
/// counted from its first cell; `None` exactly when the grid has no Z-order
/// or the cell is not in it.
pub fn z_code(grid: &Grid, x: u32, y: u32) -> (code: Option<u32>)
    requires
        grid.wf(),
    ensures
        code.is_some() <==> spec_has_z_order(*grid) && x < grid.width && y < grid.height,
        code.is_some() ==> code.unwrap() == spec_interleave(x as nat, y as nat),
{
    if grid.width != grid.height || !is_power_of_two(grid.width) || x >= grid.width || y
        >= grid.height {
        return None;
    }
    Some(interleave(x as u16, y as u16))
}

/// A field of the grid, given by cell index, in Z-order: the entry with
/// code `z` is the entry of the cell whose column is made of the even bits
/// of `z` and whose row of the odd ones. `None` exactly when the grid has no
/// Z-order or the field has not one entry per cell.
pub fn z_order(grid: &Grid, field: &Vec<u32>) -> (ordered: Option<Vec<u32>>)
    requires
        grid.wf(),
    ensures
        ordered.is_some() <==> spec_has_z_order(*grid) && field@.len() == grid.spec_len(),
        ordered.is_some() ==> {
            &&& ordered.unwrap()@.len() == field@.len()
            &&& forall|z: int|
                0 <= z < field@.len() ==> #[trigger] ordered.unwrap()@[z] == field@[spec_gather(
                    z as nat / 2,
                ) * grid.width + spec_gather(z as nat)]
        },
{
    let n: usize = grid.len();
    if grid.width != grid.height || !is_power_of_two(grid.width) || field.len() != n {
        return None;
    }
    let w: usize = grid.width as usize;
    let mut ordered: Vec<u32> = Vec::new();
    let mut z: usize = 0;
    while z < n
        invariant
            0 <= z <= n,
            grid.wf(),
            spec_has_z_order(*grid),
            n == grid.spec_len(),
            n == field@.len(),
            n <= 0x4000_0000,
            w == grid.width,
            ordered@.len() == z,
            forall|k: int|
                0 <= k < z ==> #[trigger] ordered@[k] == field@[spec_gather(k as nat / 2) * grid.width
                    + spec_gather(k as nat)],
        decreases n - z,
    {
        let p: (u16, u16) = deinterleave(z as u32);
        proof {
            lemma_gather_bound(z as nat, grid.width as nat);
            lemma_gather_bound(z as nat / 2, grid.width as nat);
            lemma_row_major(grid.width as int, grid.height as int, p.0 as int, p.1 as int);
        }
        ordered.push(field[p.1 as usize * w + p.0 as usize]);
        z += 1;
    }
    Some(ordered)
}

} // verus!
