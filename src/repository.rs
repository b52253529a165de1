//! A repository of one record kind over one ordered map: create, read,
//! update and delete by identifier.

use crate::error::{not_found, not_found_text, Error};
use crate::ids::IdGenerator;
use crate::record::{StoredRecord, MAX_RECORD_SIZE};
use crate::storage::{
    has_magic, map_entries, map_get, map_insert, map_loadable, map_remove, open_map, region_pages, region_prefix,
    RecordMap, Region,
};
use std::marker::PhantomData;
use vstd::prelude::*;

verus! {

/// What the entries of a map hold under one identifier.
pub enum Lookup<V> {
    Absent,
    Found(V),
    /// Bytes that decode to no record.
    Corrupt,
}

/// What `entries` hold under `id`, read as records of kind `R`.
pub open spec fn lookup<R: StoredRecord>(entries: Map<u64, Seq<u8>>, id: u64) -> Lookup<R::V> {
    if !entries.contains_key(id) {
        Lookup::Absent
    } else {
        match R::spec_decode(entries[id]) {
            Some(v) => Lookup::Found(v),
            None => Lookup::Corrupt,
        }
    }
}

/// The result a read of `id` gives on `entries`.
pub open spec fn read_result<R: StoredRecord>(
    entries: Map<u64, Seq<u8>>,
    id: u64,
    res: Result<R, Error>,
) -> bool {
    match lookup::<R>(entries, id) {
        Lookup::Absent => res matches Err(Error::NotFound { msg }) && msg@ == not_found_text(
            R::spec_kind(),
            id,
        ),
        Lookup::Found(v) => res matches Ok(r) && r@ == v,
        Lookup::Corrupt => res == Err::<R, Error>(Error::CorruptRecord),
    }
}

/// What a create of a record from `p` does: below the counter's largest value
/// the counter advances and the record takes its old value as identifier; the
/// record is stored under it unless its encoding is too large.
pub open spec fn created<R: StoredRecord>(
    before: Map<u64, Seq<u8>>,
    after: Map<u64, Seq<u8>>,
    ids_before: IdGenerator,
    ids_after: IdGenerator,
    p: R::Payload,
    r: Result<R, Error>,
) -> bool {
    let id = ids_before.counter();
    if id == u64::MAX {
        &&& r == Err::<R, Error>(Error::IdsExhausted)
        &&& after == before
        &&& ids_after.counter() == id
        &&& ids_after.issued() == ids_before.issued()
    } else {
        let v = R::spec_from_payload(id, p);
        &&& ids_after.counter() == id + 1
        &&& ids_after.issued() == ids_before.issued().push(id)
        &&& if R::spec_encode(v).len() <= MAX_RECORD_SIZE {
            &&& r matches Ok(rec)
            &&& rec@ == v
            &&& R::spec_id(rec@) == id
            &&& R::spec_valid(rec@)
            &&& after == before.insert(id, R::spec_encode(v))
        } else {
            &&& r == Err::<R, Error>(Error::RecordTooLarge)
            &&& after == before
        }
    }
}

/// What an update of `id` from `p` does: `NotFound` where nothing is stored
/// under `id`; else the record built from `p` with identifier `id` replaces the
/// stored one, unless it is too large.
pub open spec fn updated<R: StoredRecord>(
    before: Map<u64, Seq<u8>>,
    after: Map<u64, Seq<u8>>,
    id: u64,
    p: R::Payload,
    r: Result<R, Error>,
) -> bool {
    if !before.contains_key(id) {
        &&& r matches Err(Error::NotFound { msg })
        &&& msg@ == not_found_text(R::spec_kind(), id)
        &&& after == before
    } else {
        let v = R::spec_from_payload(id, p);
        if R::spec_encode(v).len() <= MAX_RECORD_SIZE {
            &&& r matches Ok(rec)
            &&& rec@ == v
            &&& after == before.insert(id, R::spec_encode(v))
        } else {
            &&& r == Err::<R, Error>(Error::RecordTooLarge)
            &&& after == before
        }
    }
}

/// What a delete of `id` does: the entry goes, and the result is what a read
/// before it gave.
pub open spec fn deleted<R: StoredRecord>(
    before: Map<u64, Seq<u8>>,
    after: Map<u64, Seq<u8>>,
    id: u64,
    r: Result<R, Error>,
) -> bool {
    &&& after == before.remove(id)
    &&& read_result(before, id, r)
}

/// A record just stored under its identifier reads back as itself.
pub proof fn lemma_create_then_read<R: StoredRecord>(entries: Map<u64, Seq<u8>>, v: R::V)
    requires
        R::spec_valid(v),
    ensures
        lookup::<R>(entries.insert(R::spec_id(v), R::spec_encode(v)), R::spec_id(v))
            == Lookup::Found(v),
{
    R::lemma_round_trip(v);
}

/// Once the entry under `id` is deleted, a read or a second delete of `id`
/// finds nothing.
pub proof fn lemma_delete_is_terminal<R: StoredRecord>(entries: Map<u64, Seq<u8>>, id: u64)
    ensures
        lookup::<R>(entries.remove(id), id) == Lookup::<R::V>::Absent,
        !entries.remove(id).contains_key(id),
{
}

/// An update keeps the identifier it was given.
pub proof fn lemma_update_keeps_id<R: StoredRecord>(id: u64, p: R::Payload)
    ensures
        R::spec_id(R::spec_from_payload(id, p)) == id,
{
    R::lemma_from_payload_id(id, p);
}

pub struct Repository<R: StoredRecord> {
    map: RecordMap,
    kind: PhantomData<R>,
}

impl<R: StoredRecord> Repository<R> {
    /// The stored entries: identifier to encoded record.
    pub closed spec fn entries(&self) -> Map<u64, Seq<u8>> {
        map_entries(self.map)
    }

    /// Opens the map kept in `region`: the entries it holds, or none in a
    /// fresh region.
    pub fn open(region: Region) -> (r: Repository<R>)
        requires
            map_loadable(region_pages(region), region_prefix(region, 56)),
        ensures
            region_pages(region) == 0 || !has_magic(region_prefix(region, 56), 0x42, 0x54, 0x52)
                ==> r.entries() == Map::<u64, Seq<u8>>::empty(),
    {
        Repository { map: open_map(region), kind: PhantomData }
    }

    /// The record stored under `id`.
    pub fn read(&self, id: u64) -> (r: Result<R, Error>)
        ensures
            read_result(self.entries(), id, r),
    {
        match map_get(&self.map, id) {
            Some(bytes) => match R::from_bytes(bytes.as_slice()) {
                Some(rec) => Ok(rec),
                None => Err(Error::CorruptRecord),
            },
            None => Err(not_found(R::kind(), id)),
        }
    }

    /// Stores `rec` under its identifier, replacing what was there.
    pub fn insert(&mut self, rec: &R) -> (r: Result<(), Error>)
        ensures
            R::spec_valid(rec@),
            R::spec_encode(rec@).len() <= MAX_RECORD_SIZE ==> r is Ok && final(self).entries()
                == old(self).entries().insert(R::spec_id(rec@), R::spec_encode(rec@)),
            R::spec_encode(rec@).len() > MAX_RECORD_SIZE ==> r == Err::<(), Error>(
                Error::RecordTooLarge,
            ) && final(self).entries() == old(self).entries(),
    {
        let bytes = rec.to_bytes();
        if bytes.len() > MAX_RECORD_SIZE {
            return Err(Error::RecordTooLarge);
        }
        map_insert(&mut self.map, rec.id(), bytes.as_slice());
        Ok(())
    }

    /// Builds a record from `p` with a fresh identifier and stores it.
    pub fn create(&mut self, ids: &mut IdGenerator, p: R::Payload) -> (r: Result<R, Error>)
        requires
            old(ids).wf(),
        ensures
            final(ids).wf(),
            created(old(self).entries(), final(self).entries(), *old(ids), *final(ids), p, r),
    {
        let id = match ids.next() {
            Ok(id) => id,
            Err(e) => return Err(e),
        };
        let rec = R::from_payload(id, p);
        match self.insert(&rec) {
            Ok(()) => Ok(rec),
            Err(e) => Err(e),
        }
    }

    /// Replaces the record under `id` by one built from `p`, keeping `id`.
    pub fn update(&mut self, id: u64, p: R::Payload) -> (r: Result<R, Error>)
        ensures
            updated(old(self).entries(), final(self).entries(), id, p, r),
    {
        match map_get(&self.map, id) {
            None => Err(not_found(R::kind(), id)),
            Some(_) => {
                let rec = R::from_payload(id, p);
                match self.insert(&rec) {
                    Ok(()) => Ok(rec),
                    Err(e) => Err(e),
                }
            },
        }
    }

    /// Removes the record under `id` and returns it.
    pub fn delete(&mut self, id: u64) -> (r: Result<R, Error>)
        ensures
            deleted(old(self).entries(), final(self).entries(), id, r),
    {
        match map_remove(&mut self.map, id) {
            Some(bytes) => match R::from_bytes(bytes.as_slice()) {
                Some(rec) => Ok(rec),
                None => Err(Error::CorruptRecord),
            },
            None => Err(not_found(R::kind(), id)),
        }
    }
}

} // verus!
