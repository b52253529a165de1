//! Checks of what a memory or a region already holds, made before the
//! structures kept there are opened.

use crate::storage::{
    bucket_count, buckets_in_memory, cell_loadable, has_magic, manager_loadable, u16_at, map_loadable, memory_pages, memory_prefix,
    memory_read, memory_size, region_pages, region_prefix, region_read, region_size, Region,
};
use ic_stable_structures::DefaultMemoryImpl;
use vstd::bytes::{spec_u32_from_le_bytes, spec_u64_from_le_bytes, u32_from_le_bytes, u64_from_le_bytes};
use vstd::prelude::*;
use vstd::slice::slice_subrange;

verus! {

fn starts_with(h: &Vec<u8>, m0: u8, m1: u8, m2: u8) -> (r: bool)
    requires
        h@.len() >= 3,
    ensures
        r == has_magic(h@, m0, m1, m2),
{
    h[0] == m0 && h[1] == m1 && h[2] == m2
}

/// The little-endian `u32` at `pos`.
fn u32_at(h: &Vec<u8>, pos: usize) -> (r: u32)
    requires
        pos <= 52,
        pos + 4 <= h@.len(),
    ensures
        r == spec_u32_from_le_bytes(h@.subrange(pos as int, pos + 4)),
{
    u32_from_le_bytes(slice_subrange(h.as_slice(), pos, pos + 4))
}

/// The little-endian `u64` at `pos`.
fn u64_at(h: &Vec<u8>, pos: usize) -> (r: u64)
    requires
        pos <= 2072,
        pos + 8 <= h@.len(),
    ensures
        r == spec_u64_from_le_bytes(h@.subrange(pos as int, pos + 8)),
{
    u64_from_le_bytes(slice_subrange(h.as_slice(), pos, pos + 8))
}

/// Counts, in the bucket table of `h`, the buckets of regions 0, 1 and 2, and
/// tells whether each of those ends within `pages`.
fn scan_buckets(h: &Vec<u8>, bucket_pages: u64, pages: u64) -> (r: (u64, u64, u64, bool))
    requires
        h@.len() == 34848,
        bucket_pages == u16_at(h@, 6),
    ensures
        r.0 == bucket_count(h@, 0, 32768),
        r.1 == bucket_count(h@, 1, 32768),
        r.2 == bucket_count(h@, 2, 32768),
        r.3 == buckets_in_memory(pages, h@),
        r.0 <= 32768 && r.1 <= 32768 && r.2 <= 32768,
{
    let ghost b = h@;
    let mut c0: u64 = 0;
    let mut c1: u64 = 0;
    let mut c2: u64 = 0;
    let mut inside = true;
    let mut k: usize = 0;
    while k < 32768
        invariant
            h@ == b,
            b.len() == 34848,
            bucket_pages == u16_at(b, 6),
            0 <= bucket_pages <= 65535,
            k <= 32768,
            c0 == bucket_count(b, 0, k as int),
            c1 == bucket_count(b, 1, k as int),
            c2 == bucket_count(b, 2, k as int),
            c0 <= k && c1 <= k && c2 <= k,
            inside == forall|j: int|
                0 <= j < k && #[trigger] b[2080 + j] <= 2 ==> 1 + u16_at(b, 6) * (j + 1) <= pages,
        decreases 32768 - k,
    {
        let owner = h[2080 + k];
        if owner == 0 {
            c0 = c0 + 1;
        } else if owner == 1 {
            c1 = c1 + 1;
        } else if owner == 2 {
            c2 = c2 + 1;
        }
        if owner <= 2 {
            assert(bucket_pages * (k + 1) <= 65535 * 32768) by (nonlinear_arith)
                requires
                    bucket_pages <= 65535,
                    k + 1 <= 32768,
            ;
            if 1 + bucket_pages * (k as u64 + 1) > pages {
                inside = false;
            }
        }
        proof {
            assert(b[2080 + k as int] == owner);
        }
        k = k + 1;
    }
    (c0, c1, c2, inside)
}

/// Whether the region manager can be opened over `m`.
pub fn manager_header_ok(m: &DefaultMemoryImpl) -> (r: bool)
    ensures
        r == manager_loadable(memory_pages(*m), memory_prefix(*m, 34848)),
{
    let pages = memory_size(m);
    if pages == 0 {
        return true;
    }
    let h = memory_read(m, 34848);
    if !starts_with(&h, 0x4D, 0x47, 0x52) {
        return true;
    }
    let bucket_pages = h[6] as u64 + 256 * h[7] as u64;
    let taken = h[4] as u64 + 256 * h[5] as u64;
    if h[3] != 1 || bucket_pages == 0 || taken + 3 > 32768 {
        return false;
    }
    let (c0, c1, c2, inside) = scan_buckets(&h, bucket_pages, pages);
    assert(c0 * bucket_pages <= 32768 * 65535) by (nonlinear_arith)
        requires
            c0 <= 32768,
            bucket_pages <= 65535,
    ;
    assert(c1 * bucket_pages <= 32768 * 65535) by (nonlinear_arith)
        requires
            c1 <= 32768,
            bucket_pages <= 65535,
    ;
    assert(c2 * bucket_pages <= 32768 * 65535) by (nonlinear_arith)
        requires
            c2 <= 32768,
            bucket_pages <= 65535,
    ;
    u64_at(&h, 40) <= c0 * bucket_pages && u64_at(&h, 48) <= c1 * bucket_pages && u64_at(&h, 56)
        <= c2 * bucket_pages && inside
}

/// Whether the counter cell can be opened over `region`.
pub fn cell_header_ok(region: &Region) -> (r: bool)
    ensures
        r == cell_loadable(region_pages(*region), region_prefix(*region, 16)),
{
    if region_size(region) == 0 {
        return true;
    }
    let h = region_read(region, 16);
    !starts_with(&h, 0x53, 0x43, 0x4C) || h[3] != 1 || u32_at(&h, 4) == 8
}

/// Whether a record map can be opened over `region`.
pub fn map_header_ok(region: &Region) -> (r: bool)
    ensures
        r == map_loadable(region_pages(*region), region_prefix(*region, 56)),
{
    if region_size(region) == 0 {
        return true;
    }
    let h = region_read(region, 56);
    !starts_with(&h, 0x42, 0x54, 0x52) || (h[3] == 1 && u32_at(&h, 4) == 8 && u32_at(&h, 8) == 1024
        && h[52] == 0x42 && h[53] == 0x54 && h[54] == 0x41 && h[55] == 1)
}

} // verus!
