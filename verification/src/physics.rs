//! The per-cell fields: who owns each cell, who is predicted to own it, the
//! claim counter, how far its content came, and the rejection vectors.

use vstd::prelude::*;
use crate::claims::{claims, contenders, count, lemma_claimed_at_most_claiming, lemma_claims_bound,
    lemma_contenders_sorted, lemma_count_monotone, lemma_winner, loses, winner};
use crate::collision::{Collision, CollisionFields};
use crate::grid::Grid;
use crate::object::NULL_OBJECT;
use crate::rotation::{Offset, Pose};
use crate::vector::IVec2;

verus! {

/// The fields of the cells, each stored by cell index.
pub struct PhysicsFields {
    /// The owner of each cell, or `NULL_OBJECT`.
    pub object: Vec<u32>,
    /// The owner that each cell will have if its claim stands.
    pub predicted_object: Vec<u32>,
    /// For a claimed cell, its offset from the cell whose content claimed it.
    pub delta: Vec<IVec2>,
    /// How many cells claimed each cell in this step.
    pub lock: Vec<u32>,
    /// The rejection vectors of the last step, moved along with their cells.
    pub prev_rejection: Vec<IVec2>,
    /// For each owned cell, an estimate of the shortest way out of its body.
    pub rejection: Vec<IVec2>,
}

/// The fields of the cells as sequences, each by cell index.
#[verifier::ext_equal]
pub struct CellView {
    pub object: Seq<u32>,
    pub predicted_object: Seq<u32>,
    pub delta: Seq<IVec2>,
    pub lock: Seq<u32>,
    pub prev_rejection: Seq<IVec2>,
    pub rejection: Seq<IVec2>,
}

/// How many cells of a field have an owner.
pub open spec fn count_owned(object: Seq<u32>) -> nat {
    count(|c: int| object[c] != NULL_OBJECT, object.len() as int)
}

/// The offset that leads from `from` to `to`.
pub open spec fn spec_offset(from: IVec2, to: IVec2) -> IVec2 {
    IVec2 { x: (to.x - from.x) as i32, y: (to.y - from.y) as i32 }
}

/// Where the content of the cell with index `s` is predicted to go: the
/// index of the cell that its owner's pose takes it to, or nothing if the
/// cell has no owner, its owner has no pose, or it would leave the grid.
pub open spec fn spec_destination(grid: Grid, poses: Seq<Pose>, object: Seq<u32>, s: int) -> Option<
    int,
> {
    let owner = object[s];
    if owner == NULL_OBJECT || owner >= poses.len() {
        None
    } else {
        let p = poses[owner as int].spec_project(grid.spec_cell(s));
        grid.spec_resolve_index(p.0, p.1)
    }
}

/// The destinations of all cells.
pub open spec fn spec_destinations(grid: Grid, poses: Seq<Pose>, object: Seq<u32>) -> Seq<
    Option<int>,
> {
    Seq::new(object.len(), |s: int| spec_destination(grid, poses, object, s))
}

/// The predicted owner of cell `d` once the first `upto` cells have claimed.
pub open spec fn spec_claimed_owner(dests: Seq<Option<int>>, object: Seq<u32>, d: int, upto: int) -> u32 {
    match winner(dests, d, upto) {
        Some(w) => object[w],
        None => NULL_OBJECT,
    }
}

/// The offset of cell `d` from the cell that won it, once the first `upto`
/// cells have claimed; what the field held before, if none has.
pub open spec fn spec_claimed_delta(
    grid: Grid,
    dests: Seq<Option<int>>,
    delta: Seq<IVec2>,
    d: int,
    upto: int,
) -> IVec2 {
    match winner(dests, d, upto) {
        Some(w) => spec_offset(grid.spec_cell(w), grid.spec_cell(d)),
        None => delta[d],
    }
}

/// The fields of cells with the given owners before anything has happened:
/// nothing is claimed, nothing has moved, and no rejection vector is known.
pub open spec fn spec_fresh(object: Seq<u32>) -> CellView {
    CellView {
        object,
        predicted_object: Seq::new(object.len(), |c: int| NULL_OBJECT),
        delta: Seq::new(object.len(), |c: int| IVec2 { x: 0, y: 0 }),
        lock: Seq::new(object.len(), |c: int| 0u32),
        prev_rejection: Seq::new(object.len(), |c: int| IVec2 { x: 0, y: 0 }),
        rejection: Seq::new(object.len(), |c: int| IVec2 { x: 0, y: 0 }),
    }
}

/// The fields with every claim withdrawn.
pub open spec fn spec_cleared(cells: CellView) -> CellView {
    CellView {
        lock: Seq::new(cells.lock.len(), |c: int| 0u32),
        predicted_object: Seq::new(cells.predicted_object.len(), |c: int| NULL_OBJECT),
        ..cells
    }
}

/// The fields after every cell's content has claimed its destination: each
/// cell counts its claims, and a claimed cell holds the owner and the offset
/// of the first cell that claimed it.
pub open spec fn spec_moved(grid: Grid, poses: Seq<Pose>, cells: CellView) -> CellView {
    let dests = spec_destinations(grid, poses, cells.object);
    let n = cells.object.len();
    CellView {
        lock: Seq::new(n, |d: int| claims(dests, d, n as int) as u32),
        predicted_object: Seq::new(
            n,
            |d: int| spec_claimed_owner(dests, cells.object, d, n as int),
        ),
        delta: Seq::new(n, |d: int| spec_claimed_delta(grid, dests, cells.delta, d, n as int)),
        ..cells
    }
}

/// The fields after the claims were committed: a claimed cell is owned by
/// its predicted owner, and every other cell by nobody.
pub open spec fn spec_committed(cells: CellView) -> CellView {
    CellView {
        object: Seq::new(
            cells.object.len(),
            |c: int|
                if cells.lock[c] >= 1 {
                    cells.predicted_object[c]
                } else {
                    NULL_OBJECT
                },
        ),
        ..cells
    }
}

/// The record of a contender: its cell and the cell it contends for.
pub open spec fn spec_record(grid: Grid, pair: (int, int)) -> Collision {
    Collision { source: grid.spec_cell(pair.0), destination: grid.spec_cell(pair.1) }
}

/// The records of the first contenders, as many as `capacity` admits.
pub open spec fn spec_records(grid: Grid, pairs: Seq<(int, int)>, capacity: int) -> Seq<Collision> {
    Seq::new(
        if pairs.len() <= capacity {
            pairs.len()
        } else {
            capacity as nat
        },
        |k: int| spec_record(grid, pairs[k]),
    )
}

impl PhysicsFields {
    pub open spec fn view(&self) -> CellView {
        CellView {
            object: self.object@,
            predicted_object: self.predicted_object@,
            delta: self.delta@,
            lock: self.lock@,
            prev_rejection: self.prev_rejection@,
            rejection: self.rejection@,
        }
    }

    /// Every field has one entry per cell, and no rejection vector is longer
    /// than fits the comparison of squared lengths.
    pub open spec fn wf(&self, grid: Grid) -> bool {
        &&& grid.wf()
        &&& self.object@.len() == grid.spec_len()
        &&& self.predicted_object@.len() == grid.spec_len()
        &&& self.delta@.len() == grid.spec_len()
        &&& self.lock@.len() == grid.spec_len()
        &&& self.prev_rejection@.len() == grid.spec_len()
        &&& self.rejection@.len() == grid.spec_len()
        &&& forall|c: int|
            0 <= c < grid.spec_len() ==> (#[trigger] self.rejection@[c]).spec_norm_squared()
                < i32::MAX
    }

    /// No cell is claimed and none has a predicted owner.
    pub open spec fn spec_is_cleared(&self) -> bool {
        &&& forall|c: int| 0 <= c < self.lock@.len() ==> #[trigger] self.lock@[c] == 0
        &&& forall|c: int|
            0 <= c < self.predicted_object@.len() ==> #[trigger] self.predicted_object@[c]
                == NULL_OBJECT
    }

    /// The fields of a grid whose cells have the given owners, or `None`
    /// exactly when there is not one owner per cell.
    pub fn new(grid: &Grid, object: Vec<u32>) -> (fields: Option<PhysicsFields>)
        requires
            grid.wf(),
        ensures
            fields.is_some() <==> object@.len() == grid.spec_len(),
            fields.is_some() ==> fields.unwrap().wf(*grid) && fields.unwrap().spec_is_cleared()
                && fields.unwrap()@ == spec_fresh(object@),
    {
        let n: usize = grid.len();
        if object.len() != n {
            return None;
        }
        let zero: IVec2 = IVec2 { x: 0, y: 0 };
        let mut predicted_object: Vec<u32> = Vec::new();
        let mut lock: Vec<u32> = Vec::new();
        let mut delta: Vec<IVec2> = Vec::new();
        let mut prev_rejection: Vec<IVec2> = Vec::new();
        let mut rejection: Vec<IVec2> = Vec::new();
        let mut i: usize = 0;
        while i < n
            invariant
                0 <= i <= n,
                zero == (IVec2 { x: 0, y: 0 }),
                predicted_object@.len() == i,
                lock@.len() == i,
                delta@.len() == i,
                prev_rejection@.len() == i,
                rejection@.len() == i,
                forall|c: int| 0 <= c < i ==> #[trigger] predicted_object@[c] == NULL_OBJECT,
                forall|c: int| 0 <= c < i ==> #[trigger] lock@[c] == 0,
                forall|c: int| 0 <= c < i ==> #[trigger] delta@[c] == zero,
                forall|c: int| 0 <= c < i ==> #[trigger] prev_rejection@[c] == zero,
                forall|c: int| 0 <= c < i ==> #[trigger] rejection@[c] == zero,
            decreases n - i,
        {
            predicted_object.push(NULL_OBJECT);
            lock.push(0);
            delta.push(zero);
            prev_rejection.push(zero);
            rejection.push(zero);
            i += 1;
        }
        let fields = PhysicsFields {
            object,
            predicted_object,
            delta,
            lock,
            prev_rejection,
            rejection,
        };
        assert(fields@ =~= spec_fresh(fields.object@));
        Some(fields)
    }

    /// Takes every cell from its owner.
    pub fn clear_objects(&mut self, grid: &Grid)
        requires
            old(self).wf(*grid),
        ensures
            final(self).wf(*grid),
            final(self)@ == (CellView {
                object: Seq::new(old(self)@.object.len(), |c: int| NULL_OBJECT),
                ..old(self)@
            }),
    {
        let n: usize = self.object.len();
        let mut i: usize = 0;
        while i < n
            invariant
                0 <= i <= n,
                n == grid.spec_len(),
                self.wf(*grid),
                self.predicted_object@ == old(self).predicted_object@,
                self.delta@ == old(self).delta@,
                self.lock@ == old(self).lock@,
                self.prev_rejection@ == old(self).prev_rejection@,
                self.rejection@ == old(self).rejection@,
                forall|c: int| 0 <= c < i ==> #[trigger] self.object@[c] == NULL_OBJECT,
            decreases n - i,
        {
            self.object.set(i, NULL_OBJECT);
            i += 1;
        }
        assert(self@ =~= (CellView {
            object: Seq::new(old(self)@.object.len(), |c: int| NULL_OBJECT),
            ..old(self)@
        }));
    }

    /// Withdraws every claim: no cell is claimed and none has a predicted
    /// owner.
    pub fn clear(&mut self, grid: &Grid)
        requires
            old(self).wf(*grid),
        ensures
            final(self).wf(*grid),
            final(self).spec_is_cleared(),
            final(self)@ == spec_cleared(old(self)@),
    {
        let n: usize = self.lock.len();
        let mut i: usize = 0;
        while i < n
            invariant
                0 <= i <= n,
                self.wf(*grid),
                n == grid.spec_len(),
                self.object@ == old(self).object@,
                self.delta@ == old(self).delta@,
                self.prev_rejection@ == old(self).prev_rejection@,
                self.rejection@ == old(self).rejection@,
                forall|c: int| 0 <= c < i ==> #[trigger] self.lock@[c] == 0,
                forall|c: int| 0 <= c < i ==> #[trigger] self.predicted_object@[c] == NULL_OBJECT,
            decreases n - i,
        {
            self.lock.set(i, 0);
            self.predicted_object.set(i, NULL_OBJECT);
            i += 1;
        }
        assert(self@ =~= spec_cleared(old(self)@));
    }

    /// Moves the content of every owned cell to where its owner's pose takes
    /// it. The first cell to reach a destination claims it and leaves there
    /// its owner and its offset; every later one is reported as a collision.
    /// A cell whose content would leave the grid, or whose owner has no
    /// pose, claims nothing and is not reported.
    pub fn predict_move(&mut self, grid: &Grid, poses: &Vec<Pose>, collisions: &mut CollisionFields)
        requires
            old(self).wf(*grid),
            old(self).spec_is_cleared(),
            forall|i: int| 0 <= i < poses@.len() ==> (#[trigger] poses@[i]).wf(),
            old(collisions).wf(),
            old(collisions).next == 0,
        ensures
            final(self).wf(*grid),
            final(self)@ == spec_moved(*grid, poses@, old(self)@),
            final(collisions).wf(),
            final(collisions).capacity == old(collisions).capacity,
            final(collisions).next == contenders(
                spec_destinations(*grid, poses@, old(self).object@),
                grid.spec_len(),
            ).len(),
            final(collisions)@ == spec_records(
                *grid,
                contenders(spec_destinations(*grid, poses@, old(self).object@), grid.spec_len()),
                old(collisions).capacity as int,
            ),
    {
        let n: usize = grid.len();
        let ghost dests = spec_destinations(*grid, poses@, self.object@);
        let ghost before = self.delta@;
        let ghost capacity = collisions.capacity as int;
        assert(collisions@ =~= spec_records(*grid, contenders(dests, 0), capacity));
        let mut i: usize = 0;
        while i < n
            invariant
                0 <= i <= n,
                n == grid.spec_len(),
                n <= 0x4000_0000,
                self.wf(*grid),
                self.object@ == old(self).object@,
                self.prev_rejection@ == old(self).prev_rejection@,
                self.rejection@ == old(self).rejection@,
                before == old(self).delta@,
                dests == spec_destinations(*grid, poses@, old(self).object@),
                forall|k: int| 0 <= k < poses@.len() ==> (#[trigger] poses@[k]).wf(),
                forall|d: int|
                    0 <= d < n ==> {
                        &&& #[trigger] self.lock@[d] == claims(dests, d, i as int)
                        &&& self.predicted_object@[d] == spec_claimed_owner(
                            dests,
                            self.object@,
                            d,
                            i as int,
                        )
                        &&& self.delta@[d] == spec_claimed_delta(*grid, dests, before, d, i as int)
                    },
                collisions.wf(),
                collisions.capacity == capacity,
                collisions.next == contenders(dests, i as int).len(),
                collisions.next <= i,
                collisions@ == spec_records(*grid, contenders(dests, i as int), capacity),
            decreases n - i,
        {
            let owner: u32 = self.object[i];
            let ghost pairs = contenders(dests, i as int);
            let ghost lock0 = self.lock@;
            let ghost predicted0 = self.predicted_object@;
            let ghost delta0 = self.delta@;
            assert(dests[i as int] == spec_destination(*grid, poses@, self.object@, i as int));
            let mut target: Option<IVec2> = None;
            let cell: IVec2 = grid.cell_at(i);
            if owner != NULL_OBJECT && (owner as usize) < poses.len() {
                let p: Offset = poses[owner as usize].project(cell);
                target = grid.resolve(p.x, p.y);
            }
            match target {
                Some(to) => {
                    let d: usize = grid.index_of(to);
                    assert(dests[i as int] == Some(d as int));
                    proof {
                        lemma_winner(dests, d as int, i as int);
                        lemma_claims_bound(dests, d as int, 0, i as int);
                    }
                    let claimed: u32 = self.lock[d];
                    self.lock.set(d, claimed + 1);
                    if claimed == 0 {
                        self.delta.set(
                            d,
                            IVec2 {
                                x: (to.x as i64 - cell.x as i64) as i32,
                                y: (to.y as i64 - cell.y as i64) as i32,
                            },
                        );
                        self.predicted_object.set(d, owner);
                        assert(!loses(dests, i as int));
                    } else {
                        assert(loses(dests, i as int));
                        collisions.push(Collision { source: cell, destination: to });
                        assert(contenders(dests, i + 1) == pairs.push((i as int, d as int)));
                        assert(collisions@ =~= spec_records(
                            *grid,
                            contenders(dests, i + 1),
                            capacity,
                        ));
                    }
                },
                None => {
                    assert(dests[i as int].is_none());
                    assert(!loses(dests, i as int));
                },
            }
            proof {
                assert forall|d: int| 0 <= d < n implies {
                    &&& #[trigger] self.lock@[d] == claims(dests, d, i + 1)
                    &&& self.predicted_object@[d] == spec_claimed_owner(
                        dests,
                        self.object@,
                        d,
                        i + 1,
                    )
                    &&& self.delta@[d] == spec_claimed_delta(*grid, dests, before, d, i + 1)
                } by {
                    lemma_winner(dests, d, i as int);
                    assert(lock0[d] == claims(dests, d, i as int));
                    assert(predicted0[d] == spec_claimed_owner(dests, self.object@, d, i as int));
                    assert(delta0[d] == spec_claimed_delta(*grid, dests, before, d, i as int));
                    if dests[i as int] == Some(d) {
                        assert(self.lock@[d] == lock0[d] + 1);
                    } else {
                        assert(self.lock@[d] == lock0[d]);
                        assert(self.predicted_object@[d] == predicted0[d]);
                        assert(self.delta@[d] == delta0[d]);
                    }
                }
            }
            i += 1;
        }
        proof {
            lemma_claims_all_bounded(dests, n as int);
            let moved = spec_moved(*grid, poses@, old(self)@);
            assert forall|d: int| 0 <= d < n implies self.lock@[d] == moved.lock[d]
                && self.predicted_object@[d] == moved.predicted_object[d] && self.delta@[d]
                == moved.delta[d] by {
                assert(self.lock@[d] == claims(dests, d, n as int));
            }
            assert(self@ =~= moved);
        }
    }

    /// Commits the claims: a cell that was claimed gets its predicted owner,
    /// and every other cell has no owner any more.
    pub fn finalize_move(&mut self, grid: &Grid)
        requires
            old(self).wf(*grid),
        ensures
            final(self).wf(*grid),
            final(self)@ == spec_committed(old(self)@),
    {
        let n: usize = self.object.len();
        let mut i: usize = 0;
        while i < n
            invariant
                0 <= i <= n,
                n == grid.spec_len(),
                self.wf(*grid),
                self.predicted_object@ == old(self).predicted_object@,
                self.delta@ == old(self).delta@,
                self.lock@ == old(self).lock@,
                self.prev_rejection@ == old(self).prev_rejection@,
                self.rejection@ == old(self).rejection@,
                forall|c: int|
                    0 <= c < i ==> #[trigger] self.object@[c] == if self.lock@[c] >= 1 {
                        self.predicted_object@[c]
                    } else {
                        NULL_OBJECT
                    },
            decreases n - i,
        {
            if self.lock[i] >= 1 {
                let owner: u32 = self.predicted_object[i];
                self.object.set(i, owner);
            } else {
                self.object.set(i, NULL_OBJECT);
            }
            i += 1;
        }
        assert(self@ =~= spec_committed(old(self)@));
    }
}

/// No cell is claimed more often than there are cells.
pub proof fn lemma_claims_all_bounded(dests: Seq<Option<int>>, upto: int)
    requires
        0 <= upto,
    ensures
        forall|d: int| #[trigger] claims(dests, d, upto) <= upto,
{
    assert forall|d: int| #[trigger] claims(dests, d, upto) <= upto by {
        lemma_claims_bound(dests, d, 0, upto);
    }
}

/// A destination is a cell of the grid, and only an owned cell has one.
pub proof fn lemma_destination(grid: Grid, poses: Seq<Pose>, object: Seq<u32>, s: int)
    requires
        grid.wf(),
    ensures
        match spec_destination(grid, poses, object, s) {
            Some(d) => 0 <= d < grid.spec_len() && object[s] != NULL_OBJECT,
            None => true,
        },
{
    let owner = object[s];
    if owner != NULL_OBJECT && owner < poses.len() {
        let p = poses[owner as int].spec_project(grid.spec_cell(s));
        crate::grid::lemma_resolve_contained(grid, p.0, p.1);
    }
}

/// Cell conservation. When only claimed cells keep an owner, no more cells
/// are owned after the move than before it.
pub proof fn lemma_cell_conservation(
    grid: Grid,
    poses: Seq<Pose>,
    before: Seq<u32>,
    after: Seq<u32>,
)
    requires
        before.len() == after.len(),
        forall|d: int|
            0 <= d < after.len() && #[trigger] after[d] != NULL_OBJECT ==> claims(
                spec_destinations(grid, poses, before),
                d,
                before.len() as int,
            ) > 0,
    ensures
        count_owned(after) <= count_owned(before),
{
    let n = before.len() as int;
    let dests = spec_destinations(grid, poses, before);
    let owned_after = |c: int| after[c] != NULL_OBJECT;
    let claimed = |d: int| claims(dests, d, n) > 0;
    let claiming = |s: int| dests[s].is_some();
    let owned_before = |c: int| before[c] != NULL_OBJECT;
    lemma_count_monotone(owned_after, claimed, n);
    lemma_claimed_at_most_claiming(dests, n, n);
    assert forall|s: int| 0 <= s < n && #[trigger] claiming(s) implies owned_before(s) by {
        assert(dests[s] == spec_destination(grid, poses, before, s));
    }
    lemma_count_monotone(claiming, owned_before, n);
}

} // verus!
