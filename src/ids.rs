//! The identifier generator: a persisted counter that hands out strictly
//! increasing identifiers.

use crate::error::Error;
use crate::storage::{
    be_u64_at, cell_get, cell_loadable, cell_set, cell_value, has_magic, init_cell, region_pages, region_prefix,
    IdCell, Region,
};
use vstd::prelude::*;

verus! {

pub struct IdGenerator {
    cell: IdCell,
    /// The identifiers this generator has handed out, in order.
    issued: Ghost<Seq<u64>>,
}

impl IdGenerator {
    /// The next identifier to hand out.
    pub closed spec fn counter(&self) -> u64 {
        cell_value(self.cell)
    }

    pub closed spec fn issued(&self) -> Seq<u64> {
        self.issued@
    }

    /// Every identifier handed out is below the counter, and they increase.
    pub open spec fn wf(&self) -> bool {
        &&& forall|i: int| 0 <= i < self.issued().len() ==> #[trigger] self.issued()[i] < self.counter()
        &&& forall|i: int, j: int|
            0 <= i < j < self.issued().len() ==> #[trigger] self.issued()[i] < #[trigger] self.issued()[j]
    }

    /// Opens the counter kept in `region`: the value it holds, or 0 in a
    /// region that holds no counter.
    pub fn init(region: Region) -> (r: Result<IdGenerator, Error>)
        requires
            cell_loadable(region_pages(region), region_prefix(region, 16)),
        ensures
            match r {
                Ok(g) => {
                    &&& g.wf()
                    &&& g.issued() == Seq::<u64>::empty()
                    &&& if region_pages(region) == 0 || !has_magic(
                        region_prefix(region, 16),
                        0x53,
                        0x43,
                        0x4C,
                    ) {
                        g.counter() == 0
                    } else {
                        g.counter() == be_u64_at(region_prefix(region, 16), 8)
                    }
                },
                Err(e) => e == Error::CounterInitFailed,
            },
    {
        match init_cell(region, 0) {
            Ok(cell) => Ok(IdGenerator { cell, issued: Ghost(Seq::empty()) }),
            Err(_) => Err(Error::CounterInitFailed),
        }
    }

    /// The identifier that `next` would hand out.
    pub fn current(&self) -> (r: u64)
        ensures
            r == self.counter(),
    {
        cell_get(&self.cell)
    }

    /// Hands out the counter's value and persists its successor.
    pub fn next(&mut self) -> (r: Result<u64, Error>)
        requires
            old(self).wf(),
        ensures
            final(self).wf(),
            old(self).counter() < u64::MAX ==> {
                &&& r == Ok::<u64, Error>(old(self).counter())
                &&& final(self).counter() == old(self).counter() + 1
                &&& final(self).issued() == old(self).issued().push(old(self).counter())
            },
            old(self).counter() == u64::MAX ==> {
                &&& r == Err::<u64, Error>(Error::IdsExhausted)
                &&& final(self).counter() == old(self).counter()
                &&& final(self).issued() == old(self).issued()
            },
    {
        let current = cell_get(&self.cell);
        if current == u64::MAX {
            return Err(Error::IdsExhausted);
        }
        let _ = cell_set(&mut self.cell, current + 1);
        let ghost before = self.issued@;
        self.issued = Ghost(self.issued@.push(current));
        assert forall|i: int| 0 <= i < self.issued().len() implies #[trigger] self.issued()[i]
            < self.counter() by {
            if i < before.len() {
                assert(before[i] == old(self).issued()[i]);
            }
        }
        assert forall|i: int, j: int|
            0 <= i < j < self.issued().len() implies #[trigger] self.issued()[i]
            < #[trigger] self.issued()[j] by {
            if j < before.len() {
                assert(before[i] == old(self).issued()[i]);
                assert(before[j] == old(self).issued()[j]);
            } else {
                assert(before[i] == old(self).issued()[i]);
            }
        }
        Ok(current)
    }
}

/// Identifiers handed out by one generator strictly increase, so none repeats,
/// and each is below the counter, so the next one exceeds them all.
pub proof fn lemma_ids_strictly_increase(g: &IdGenerator)
    requires
        g.wf(),
    ensures
        forall|i: int, j: int|
            0 <= i < j < g.issued().len() ==> #[trigger] g.issued()[i] < #[trigger] g.issued()[j],
        forall|i: int| 0 <= i < g.issued().len() ==> #[trigger] g.issued()[i] < g.counter(),
{
}

} // verus!
