//! The list of collisions of a step: one record for every claim that was
//! lost, up to a fixed capacity, and the count of all that were reported.

use vstd::prelude::*;
use crate::vector::IVec2;

verus! {

/// A lost claim: the cell that made it, and the cell it was made on.
#[derive(Clone, Copy, Debug, PartialEq, Eq, Structural)]
pub struct Collision {
    /// The cell whose content found its destination taken.
    pub source: IVec2,
    /// The contended destination.
    pub destination: IVec2,
}

/// A list that received more records than it holds. What it holds is the
/// beginning of what was reported, and must not be taken for all of it.
#[derive(Clone, Copy, Debug, PartialEq, Eq, Structural)]
pub struct CapacityOverflow {
    /// How many records were reported.
    pub reported: usize,
    /// How many the list holds at most.
    pub capacity: usize,
}

/// The collision list: the records that found room, and the number of the
/// next record, which counts all that were reported.
pub struct CollisionFields {
    pub data: Vec<Collision>,
    pub next: usize,
    pub capacity: usize,
}

impl CollisionFields {
    /// The records that the list holds.
    pub open spec fn view(&self) -> Seq<Collision> {
        self.data@
    }

    /// The list holds the first records reported, as many as found room.
    pub open spec fn wf(&self) -> bool {
        self.data@.len() == if self.next <= self.capacity {
            self.next
        } else {
            self.capacity
        }
    }

    pub open spec fn spec_overflowed(&self) -> bool {
        self.next > self.capacity
    }

    /// An empty list with room for `capacity` records.
    pub fn new(capacity: usize) -> (list: CollisionFields)
        ensures
            list.wf(),
            list@ == Seq::<Collision>::empty(),
            list.next == 0,
            list.capacity == capacity,
    {
        CollisionFields { data: Vec::new(), next: 0, capacity }
    }

    /// Empties the list.
    pub fn clear(&mut self)
        ensures
            final(self).wf(),
            final(self)@ == Seq::<Collision>::empty(),
            final(self).next == 0,
            final(self).capacity == old(self).capacity,
    {
        self.data.clear();
        self.next = 0;
    }

    /// Reports a record. It is kept if the list has room; it is counted in
    /// either case.
    pub fn push(&mut self, record: Collision)
        requires
            old(self).wf(),
            old(self).next < usize::MAX,
        ensures
            final(self).wf(),
            final(self).next == old(self).next + 1,
            final(self).capacity == old(self).capacity,
            final(self)@ == if old(self).next < old(self).capacity {
                old(self)@.push(record)
            } else {
                old(self)@
            },
    {
        if self.next < self.capacity {
            self.data.push(record);
        }
        self.next = self.next + 1;
    }

    /// Whether more records were reported than the list holds.
    pub fn overflowed(&self) -> (b: bool)
        ensures
            b == self.spec_overflowed(),
    {
        self.next > self.capacity
    }

    /// The number of records, read back before the list is consumed: the
    /// count of all that were reported if each found room, and the overflow
    /// otherwise.
    pub fn len(&self) -> (n: Result<usize, CapacityOverflow>)
        requires
            self.wf(),
        ensures
            match n {
                Ok(count) => !self.spec_overflowed() && count == self.next && count == self@.len(),
                Err(e) => self.spec_overflowed() && e.reported == self.next && e.capacity
                    == self.capacity,
            },
    {
        if self.next > self.capacity {
            Err(CapacityOverflow { reported: self.next, capacity: self.capacity })
        } else {
            Ok(self.next)
        }
    }
}

} // verus!
