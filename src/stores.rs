//! The service's stores, built over one physical memory: the identifier
//! counter and one repository per record kind, each in a region of its own.

use crate::error::Error;
use crate::ids::{lemma_ids_strictly_increase, IdGenerator};
use crate::record::{Excess, ExcessPayload, StoredRecord, Vendor, VendorPayload};
use crate::repository::{created, deleted, lookup, read_result, updated, Lookup, Repository};
use crate::layout::{cell_header_ok, manager_header_ok, map_header_ok};
use crate::storage::{
    init_region_manager, manager_loadable, memory_pages, memory_prefix, region_for, RegionManager,
};
use ic_stable_structures::DefaultMemoryImpl;
use vstd::prelude::*;

verus! {

/// Region of the identifier counter.
pub const COUNTER_REGION: u8 = 0;

/// Region of the vendor map.
pub const VENDOR_REGION: u8 = 1;

/// Region of the excess map.
pub const EXCESS_REGION: u8 = 2;

pub struct Stores {
    regions: RegionManager,
    ids: IdGenerator,
    vendors: Repository<Vendor>,
    excesses: Repository<Excess>,
}

impl Stores {
    pub closed spec fn id_generator(&self) -> IdGenerator {
        self.ids
    }

    pub closed spec fn vendor_entries(&self) -> Map<u64, Seq<u8>> {
        self.vendors.entries()
    }

    pub closed spec fn excess_entries(&self) -> Map<u64, Seq<u8>> {
        self.excesses.entries()
    }

    pub open spec fn wf(&self) -> bool {
        self.id_generator().wf()
    }

    /// Opens the stores kept in `memory`: what a previous run left there, or
    /// empty stores and a counter at 0 in a fresh memory. Memory or regions
    /// that hold structures of another layout are refused.
    pub fn init(memory: DefaultMemoryImpl) -> (r: Result<Stores, Error>)
        ensures
            match r {
                Ok(s) => {
                    &&& s.wf()
                    &&& s.id_generator().issued() == Seq::<u64>::empty()
                    &&& memory_pages(memory) == 0 ==> {
                        &&& s.id_generator().counter() == 0
                        &&& s.vendor_entries() == Map::<u64, Seq<u8>>::empty()
                        &&& s.excess_entries() == Map::<u64, Seq<u8>>::empty()
                    }
                },
                Err(e) => e == Error::CounterInitFailed || e == Error::IncompatibleLayout,
            },
            !manager_loadable(memory_pages(memory), memory_prefix(memory, 34848)) ==> r
                == Err::<Stores, Error>(Error::IncompatibleLayout),
    {
        if !manager_header_ok(&memory) {
            return Err(Error::IncompatibleLayout);
        }
        let regions = init_region_manager(memory);
        let counter_region = region_for(&regions, COUNTER_REGION);
        let vendor_region = region_for(&regions, VENDOR_REGION);
        let excess_region = region_for(&regions, EXCESS_REGION);
        if !cell_header_ok(&counter_region) || !map_header_ok(&vendor_region) || !map_header_ok(
            &excess_region,
        ) {
            return Err(Error::IncompatibleLayout);
        }
        let ids = match IdGenerator::init(counter_region) {
            Ok(g) => g,
            Err(e) => return Err(e),
        };
        let vendors = Repository::open(vendor_region);
        let excesses = Repository::open(excess_region);
        Ok(Stores { regions, ids, vendors, excesses })
    }

    /// The identifier the next create will take.
    pub fn next_id(&self) -> (r: u64)
        ensures
            r == self.id_generator().counter(),
    {
        self.ids.current()
    }

    /// The vendor with identifier `id`, or `None` where there is no readable one.
    pub fn _get_vendor(&self, id: &u64) -> (r: Option<Vendor>)
        ensures
            match lookup::<Vendor>(self.vendor_entries(), *id) {
                Lookup::Found(v) => r matches Some(rec) && rec@ == v,
                _ => r is None,
            },
    {
        match self.vendors.read(*id) {
            Ok(v) => Some(v),
            Err(_) => None,
        }
    }

    /// The excess record with identifier `id`, or `None` where there is no
    /// readable one.
    pub fn _get_excess(&self, id: &u64) -> (r: Option<Excess>)
        ensures
            match lookup::<Excess>(self.excess_entries(), *id) {
                Lookup::Found(v) => r matches Some(rec) && rec@ == v,
                _ => r is None,
            },
    {
        match self.excesses.read(*id) {
            Ok(v) => Some(v),
            Err(_) => None,
        }
    }

    pub fn get_vendor_from_id(&self, id: u64) -> (r: Result<Vendor, Error>)
        ensures
            read_result(self.vendor_entries(), id, r),
    {
        self.vendors.read(id)
    }

    pub fn get_excess_from_id(&self, id: u64) -> (r: Result<Excess, Error>)
        ensures
            read_result(self.excess_entries(), id, r),
    {
        self.excesses.read(id)
    }

    /// Stores `vendor` under its identifier, replacing what was there.
    pub fn do_insert(&mut self, vendor: &Vendor) -> (r: Result<(), Error>)
        ensures
            final(self).id_generator() == old(self).id_generator(),
            final(self).excess_entries() == old(self).excess_entries(),
            Vendor::spec_encode(vendor@).len() <= crate::record::MAX_RECORD_SIZE ==> r is Ok
                && final(self).vendor_entries() == old(self).vendor_entries().insert(
                vendor.id,
                Vendor::spec_encode(vendor@),
            ),
            Vendor::spec_encode(vendor@).len() > crate::record::MAX_RECORD_SIZE ==> r
                == Err::<(), Error>(Error::RecordTooLarge) && final(self).vendor_entries()
                == old(self).vendor_entries(),
    {
        self.vendors.insert(vendor)
    }

    /// Stores `excess` under its identifier, replacing what was there.
    pub fn do_insert_excess(&mut self, excess: &Excess) -> (r: Result<(), Error>)
        ensures
            final(self).id_generator() == old(self).id_generator(),
            final(self).vendor_entries() == old(self).vendor_entries(),
            Excess::spec_encode(excess@).len() <= crate::record::MAX_RECORD_SIZE ==> r is Ok
                && final(self).excess_entries() == old(self).excess_entries().insert(
                excess.id,
                Excess::spec_encode(excess@),
            ),
            Excess::spec_encode(excess@).len() > crate::record::MAX_RECORD_SIZE ==> r
                == Err::<(), Error>(Error::RecordTooLarge) && final(self).excess_entries()
                == old(self).excess_entries(),
    {
        self.excesses.insert(excess)
    }

    /// Creates a vendor from `p` under a fresh identifier.
    pub fn add_vendor(&mut self, p: VendorPayload) -> (r: Result<Vendor, Error>)
        requires
            old(self).wf(),
        ensures
            final(self).wf(),
            final(self).excess_entries() == old(self).excess_entries(),
            created(
                old(self).vendor_entries(),
                final(self).vendor_entries(),
                old(self).id_generator(),
                final(self).id_generator(),
                p,
                r,
            ),
    {
        self.vendors.create(&mut self.ids, p)
    }

    /// Creates an excess record from `p` under a fresh identifier.
    pub fn add_excess(&mut self, p: ExcessPayload) -> (r: Result<Excess, Error>)
        requires
            old(self).wf(),
        ensures
            final(self).wf(),
            final(self).vendor_entries() == old(self).vendor_entries(),
            created(
                old(self).excess_entries(),
                final(self).excess_entries(),
                old(self).id_generator(),
                final(self).id_generator(),
                p,
                r,
            ),
    {
        self.excesses.create(&mut self.ids, p)
    }

    /// Replaces every field of the vendor `id` but its identifier by `p`'s.
    pub fn update_vendor(&mut self, id: u64, p: VendorPayload) -> (r: Result<Vendor, Error>)
        ensures
            final(self).id_generator() == old(self).id_generator(),
            final(self).excess_entries() == old(self).excess_entries(),
            updated(old(self).vendor_entries(), final(self).vendor_entries(), id, p, r),
    {
        self.vendors.update(id, p)
    }

    /// Removes the vendor `id` and returns it.
    pub fn delete_vendor(&mut self, id: u64) -> (r: Result<Vendor, Error>)
        ensures
            final(self).id_generator() == old(self).id_generator(),
            final(self).excess_entries() == old(self).excess_entries(),
            deleted(old(self).vendor_entries(), final(self).vendor_entries(), id, r),
    {
        self.vendors.delete(id)
    }

    /// Removes the excess record `id` and returns it.
    pub fn delete_excess(&mut self, id: u64) -> (r: Result<Excess, Error>)
        ensures
            final(self).id_generator() == old(self).id_generator(),
            final(self).vendor_entries() == old(self).vendor_entries(),
            deleted(old(self).excess_entries(), final(self).excess_entries(), id, r),
    {
        self.excesses.delete(id)
    }
}

/// Within one run, the identifiers the stores have handed out strictly
/// increase, and the next one exceeds them all.
pub proof fn lemma_store_ids_strictly_increase(s: &Stores)
    requires
        s.wf(),
    ensures
        forall|i: int, j: int|
            0 <= i < j < s.id_generator().issued().len() ==> #[trigger] s.id_generator().issued()[i]
                < #[trigger] s.id_generator().issued()[j],
        forall|i: int|
            0 <= i < s.id_generator().issued().len() ==> #[trigger] s.id_generator().issued()[i]
                < s.id_generator().counter(),
{
    lemma_ids_strictly_increase(&s.id_generator());
}

} // verus!
