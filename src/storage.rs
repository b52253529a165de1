//! The stable-memory structures that everything else is kept in: the region
//! manager, the counter cell and the ordered maps of encoded records.

use ic_stable_structures::cell::{InitError, ValueError};
use ic_stable_structures::memory_manager::{MemoryId, MemoryManager, VirtualMemory};
use ic_stable_structures::storable::Blob;
use ic_stable_structures::{Cell, DefaultMemoryImpl, Memory, StableBTreeMap};
use vstd::bytes::{spec_u32_from_le_bytes, spec_u64_from_le_bytes};
use vstd::prelude::*;

verus! {

#[verifier::external_type_specification]
#[verifier::external_body]
#[verifier::reject_recursive_types(T)]
pub struct ExRefCell<T: ?Sized>(std::cell::RefCell<T>);

/// The region manager: it owns the single physical memory and hands out
/// disjoint regions of it by identifier.
#[verifier::external_body]
pub struct RegionManager {
    manager: MemoryManager<DefaultMemoryImpl>,
}

/// One region: an independently addressable memory carved out of the
/// physical memory by the region manager.
#[verifier::external_body]
pub struct Region {
    memory: VirtualMemory<DefaultMemoryImpl>,
}

/// A persisted `u64`, kept in its own region.
#[verifier::external_body]
pub struct IdCell {
    cell: Cell<u64, VirtualMemory<DefaultMemoryImpl>>,
}

/// An ordered map from identifiers to encoded records of at most 1024 bytes,
/// kept in its own region.
#[verifier::external_body]
pub struct RecordMap {
    map: StableBTreeMap<u64, Blob<1024>, VirtualMemory<DefaultMemoryImpl>>,
}

#[verifier::external_type_specification]
#[verifier::external_body]
pub struct ExInitError(InitError);

#[verifier::external_type_specification]
#[verifier::external_body]
pub struct ExValueError(ValueError);

/// The value a counter cell holds.
pub uninterp spec fn cell_value(c: IdCell) -> u64;

/// The entries a record map holds: identifier to encoded record.
pub uninterp spec fn map_entries(m: RecordMap) -> Map<u64, Seq<u8>>;

/// The first `len` bytes the physical memory holds.
pub uninterp spec fn memory_prefix(m: DefaultMemoryImpl, len: nat) -> Seq<u8>;

/// The physical memory's size in 64 KiB pages.
pub uninterp spec fn memory_pages(m: DefaultMemoryImpl) -> u64;

/// The first `len` bytes a region holds.
pub uninterp spec fn region_prefix(r: Region, len: nat) -> Seq<u8>;

/// A region's size in 64 KiB pages.
pub uninterp spec fn region_pages(r: Region) -> u64;

/// The size in pages that a region manager records for region `id`.
pub uninterp spec fn manager_region_pages(m: RegionManager, id: u8) -> u64;

/// The big-endian `u64` in the 8 bytes of `b` from `i`, as `u64`'s `Storable`
/// writes it.
pub open spec fn be_u64_at(b: Seq<u8>, i: int) -> int {
    b[i] as int * 0x100000000000000 + b[i + 1] as int * 0x1000000000000 + b[i + 2] as int
        * 0x10000000000 + b[i + 3] as int * 0x100000000 + b[i + 4] as int * 0x1000000 + b[i + 5] as int
        * 0x10000 + b[i + 6] as int * 0x100 + b[i + 7] as int
}

/// Whether `b` starts with the three bytes `m0 m1 m2`.
pub open spec fn has_magic(b: Seq<u8>, m0: u8, m1: u8, m2: u8) -> bool {
    b.len() >= 3 && b[0] == m0 && b[1] == m1 && b[2] == m2
}

/// The little-endian `u16` at byte `i`.
pub open spec fn u16_at(b: Seq<u8>, i: int) -> int {
    b[i] as int + 256 * b[i + 1] as int
}

/// How many of the first `n` entries of a manager's bucket table, which starts
/// at byte 2080, give their bucket to region `id`.
pub open spec fn bucket_count(b: Seq<u8>, id: u8, n: int) -> int
    decreases n,
{
    if n <= 0 {
        0
    } else {
        bucket_count(b, id, n - 1) + if b[2080 + n - 1] == id {
            1int
        } else {
            0int
        }
    }
}

/// The size the manager header records for region `id`, in pages, is covered
/// by the buckets the table gives it.
pub open spec fn region_backed(b: Seq<u8>, id: u8) -> bool {
    spec_u64_from_le_bytes(b.subrange(40 + 8 * id, 48 + 8 * id)) as int <= bucket_count(
        b,
        id,
        32768,
    ) * u16_at(b, 6)
}

/// Every bucket the table gives to one of the regions 0, 1 and 2 lies inside
/// the memory's `pages`: bucket `k` ends at page `1 + bucket size * (k + 1)`.
pub open spec fn buckets_in_memory(pages: u64, b: Seq<u8>) -> bool {
    forall|k: int|
        0 <= k < 32768 && #[trigger] b[2080 + k] <= 2 ==> 1 + u16_at(b, 6) * (k + 1) <= pages
}

/// Memory over which `MemoryManager::init` opens regions 0, 1 and 2 so that
/// reads within their sizes and first growths do not panic: empty, or not
/// starting with "MGR", or a manager of layout version 1 whose bucket size
/// (bytes 6-7) is not 0, with room for three more buckets (bytes 4-5 count
/// those taken), whose sizes for regions 0, 1 and 2 (from byte 40) are backed
/// by buckets in its table, and whose buckets for them lie in the memory.
pub open spec fn manager_loadable(pages: u64, b: Seq<u8>) -> bool {
    pages == 0 || !has_magic(b, 0x4D, 0x47, 0x52) || (b[3] == 1 && u16_at(b, 6) != 0 && u16_at(
        b,
        4,
    ) + 3 <= 32768 && region_backed(b, 0) && region_backed(b, 1) && region_backed(b, 2)
        && buckets_in_memory(pages, b))
}

/// A region that `Cell::init` for a `u64` takes without panicking: empty, or
/// not starting with "SCL", or a cell of another layout version (refused with
/// an error), or a cell whose stored value is 8 bytes long.
pub open spec fn cell_loadable(pages: u64, b: Seq<u8>) -> bool {
    pages == 0 || !has_magic(b, 0x53, 0x43, 0x4C) || b[3] != 1 || spec_u32_from_le_bytes(
        b.subrange(4, 8),
    ) == 8
}

/// A region that `BTreeMap::init` with `u64` keys and 1024-byte values takes
/// without panicking, and whose values then fit 1024 bytes: empty, or not
/// starting with "BTR", or a map header of layout version 1 with 8-byte keys
/// and 1024-byte values whose allocator header at byte 52 is "BTA" version 1.
pub open spec fn map_loadable(pages: u64, b: Seq<u8>) -> bool {
    pages == 0 || !has_magic(b, 0x42, 0x54, 0x52) || (b[3] == 1 && spec_u32_from_le_bytes(
        b.subrange(4, 8),
    ) == 8 && spec_u32_from_le_bytes(b.subrange(8, 12)) == 1024 && b[52] == 0x42 && b[53] == 0x54 && b[54]
        == 0x41 && b[55] == 1)
}

/// Relies on `Memory::size` of the vector memory: its size in pages.
#[verifier::external_body]
pub(crate) fn memory_size(m: &DefaultMemoryImpl) -> (r: u64)
    ensures
        r == memory_pages(*m),
{
    m.size()
}

/// Relies on `Memory::read` of the vector memory: the `len` bytes from the
/// start. It panics past the end, and the vector holds at least its pages.
#[verifier::external_body]
pub(crate) fn memory_read(m: &DefaultMemoryImpl, len: usize) -> (r: Vec<u8>)
    requires
        len <= memory_pages(*m) * 65536,
    ensures
        r@ == memory_prefix(*m, len as nat),
        r@.len() == len,
{
    let mut buf = vec![0u8; len];
    m.read(0, &mut buf);
    buf
}

/// Relies on `Memory::size` of a virtual memory: its size in pages.
#[verifier::external_body]
pub(crate) fn region_size(r: &Region) -> (n: u64)
    ensures
        n == region_pages(*r),
{
    r.memory.size()
}

/// Relies on `Memory::read` of a virtual memory: the `len` bytes from the
/// start. It panics past the region's pages, and where the recorded size has
/// no buckets behind it; regions come only from `region_for` on a manager that
/// `init_region_manager` opened over a memory whose recorded sizes are backed
/// by buckets inside the memory, and its grows keep them backed.
#[verifier::external_body]
pub(crate) fn region_read(r: &Region, len: usize) -> (b: Vec<u8>)
    requires
        len <= region_pages(*r) * 65536,
    ensures
        b@ == region_prefix(*r, len as nat),
        b@.len() == len,
{
    let mut buf = vec![0u8; len];
    r.memory.read(0, &mut buf);
    buf
}

/// Relies on `MemoryManager::init`: it loads the manager that `memory` holds, or
/// starts a new one. It panics on a manager header of another layout version.
#[verifier::external_body]
pub(crate) fn init_region_manager(memory: DefaultMemoryImpl) -> (r: RegionManager)
    requires
        manager_loadable(memory_pages(memory), memory_prefix(memory, 34848)),
    ensures
        forall|id: u8|
            (memory_pages(memory) == 0 || !has_magic(memory_prefix(memory, 34848), 0x4D, 0x47, 0x52))
                ==> manager_region_pages(r, id) == 0,
{
    RegionManager { manager: MemoryManager::init(memory) }
}

/// Relies on `MemoryManager::get`: the region with identifier `id`, of the
/// size the manager records for it. `MemoryId::new` panics on 255, the marker
/// of an unallocated bucket.
/// The names above read a region's contents off its handle, so each region is
/// opened once, by one structure: `Stores::init` is the only caller.
#[verifier::external_body]
pub(crate) fn region_for(manager: &RegionManager, id: u8) -> (r: Region)
    requires
        id != 255,
    ensures
        region_pages(r) == manager_region_pages(*manager, id),
{
    Region { memory: manager.manager.get(MemoryId::new(id)) }
}

/// Relies on `Cell::init`: the value the region holds, or `default` written to
/// a region that is empty or holds no cell. It panics on a stored cell whose
/// value is not 8 bytes long.
#[verifier::external_body]
pub(crate) fn init_cell(memory: Region, default: u64) -> (r: Result<IdCell, InitError>)
    requires
        cell_loadable(region_pages(memory), region_prefix(memory, 16)),
    ensures
        r matches Ok(c) ==> if region_pages(memory) == 0 || !has_magic(
            region_prefix(memory, 16),
            0x53,
            0x43,
            0x4C,
        ) {
            cell_value(c) == default
        } else {
            cell_value(c) == be_u64_at(region_prefix(memory, 16), 8)
        },
{
    Cell::init(memory.memory, default).map(|cell| IdCell { cell })
}

/// Relies on `Cell::get`: the current value.
#[verifier::external_body]
pub(crate) fn cell_get(c: &IdCell) -> (r: u64)
    ensures
        r == cell_value(*c),
{
    *c.cell.get()
}

/// Relies on `Cell::set`: the cell holds `v` and the previous value is
/// returned. It fails only where the region must grow, and a `u64` cell that
/// `Cell::init` opened already has a page, more than its 16 bytes.
#[verifier::external_body]
pub(crate) fn cell_set(c: &mut IdCell, v: u64) -> (r: Result<u64, ValueError>)
    ensures
        r == Ok::<u64, ValueError>(cell_value(*old(c))),
        cell_value(*final(c)) == v,
{
    c.cell.set(v)
}

/// Relies on `BTreeMap::init`: the map the region holds, or a new empty one.
/// It panics on a map of another layout version or of smaller slots; a map of
/// larger slots could hold values that `Blob<1024>` refuses on reading.
#[verifier::external_body]
pub(crate) fn open_map(memory: Region) -> (r: RecordMap)
    requires
        map_loadable(region_pages(memory), region_prefix(memory, 56)),
    ensures
        map_entries(r).is_empty() || (region_pages(memory) != 0 && has_magic(
            region_prefix(memory, 56),
            0x42,
            0x54,
            0x52,
        )),
{
    RecordMap { map: StableBTreeMap::init(memory.memory) }
}

/// Relies on `BTreeMap::get`: the bytes stored under `key`, if any.
#[verifier::external_body]
pub(crate) fn map_get(m: &RecordMap, key: u64) -> (r: Option<Vec<u8>>)
    ensures
        match r {
            Some(v) => map_entries(*m).contains_key(key) && v@ == map_entries(*m)[key],
            None => !map_entries(*m).contains_key(key),
        },
{
    m.map.get(&key).map(|b| b.as_slice().to_vec())
}

/// Relies on `BTreeMap::insert`: stores `value` under `key` and returns what was
/// stored there before. The bytes go in as a `Blob`, which holds up to 1024
/// bytes; the map panics on a larger one.
#[verifier::external_body]
pub(crate) fn map_insert(m: &mut RecordMap, key: u64, value: &[u8]) -> (r: Option<Vec<u8>>)
    requires
        value@.len() <= 1024,
    ensures
        map_entries(*final(m)) == map_entries(*old(m)).insert(key, value@),
        match r {
            Some(v) => map_entries(*old(m)).contains_key(key) && v@ == map_entries(*old(m))[key],
            None => !map_entries(*old(m)).contains_key(key),
        },
{
    m.map.insert(key, Blob::try_from(value).unwrap()).map(|b| b.as_slice().to_vec())
}

/// Relies on `BTreeMap::remove`: removes the entry under `key` and returns it.
#[verifier::external_body]
pub(crate) fn map_remove(m: &mut RecordMap, key: u64) -> (r: Option<Vec<u8>>)
    ensures
        map_entries(*final(m)) == map_entries(*old(m)).remove(key),
        match r {
            Some(v) => map_entries(*old(m)).contains_key(key) && v@ == map_entries(*old(m))[key],
            None => !map_entries(*old(m)).contains_key(key),
        },
{
    m.map.remove(&key).map(|b| b.as_slice().to_vec())
}

} // verus!
