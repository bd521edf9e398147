//! Parsing the disc header into its region map, and looking sectors up in it.
use vstd::prelude::*;

use crate::error::DiscError;

verus! {

/// Size in bytes of the disc header that holds the region table.
pub const HEADER_SIZE: usize = 4096;

/// Offset of the first region word in the header.
pub const REGION_TABLE_OFFSET: usize = 8;

/// The largest plaintext-region count whose region words all lie inside the header.
pub const MAX_NORMAL_REGIONS: u32 = 511;

/// One contiguous run of sectors sharing an encryption state; both bounds
/// are inclusive.
#[derive(Clone, Copy, Debug, PartialEq, Eq, Structural)]
pub struct Region {
    pub first_sector: u64,
    pub last_sector: u64,
    pub is_encrypted: bool,
}

/// The big-endian 32-bit word at byte offset `off` of `h`.
pub open spec fn be_word(h: Seq<u8>, off: int) -> int {
    h[off] as int * 0x1000000 + h[off + 1] as int * 0x10000 + h[off + 2] as int * 0x100
        + h[off + 3] as int
}

/// The number of plaintext regions the header declares.
pub open spec fn normal_region_count(h: Seq<u8>) -> int {
    be_word(h, 0)
}

/// The number of regions in the map: plaintext and encrypted alternate,
/// starting and ending with plaintext.
pub open spec fn region_count(h: Seq<u8>) -> int {
    2 * normal_region_count(h) - 1
}

/// Word `j` of the region table.
pub open spec fn raw_word(h: Seq<u8>, j: int) -> int {
    be_word(h, REGION_TABLE_OFFSET as int + 4 * j)
}

/// Regions at odd positions are encrypted.
pub open spec fn slot_encrypted(i: int) -> bool {
    i % 2 == 1
}

/// First sector of region `i`: its start word, moved past the shared boundary
/// sector when the region is encrypted.
pub open spec fn slot_first(h: Seq<u8>, i: int) -> int {
    raw_word(h, i) + if slot_encrypted(i) {
        1int
    } else {
        0int
    }
}

/// Last sector of region `i`: its end word (the next region's start word),
/// moved before the shared boundary sector when the region is encrypted.
pub open spec fn slot_last(h: Seq<u8>, i: int) -> int {
    raw_word(h, i + 1) - if slot_encrypted(i) {
        1int
    } else {
        0int
    }
}

/// A header from which a region map can be built: long enough, with a region
/// count whose words lie inside it, and with no region left empty by the
/// boundary adjustment.
pub open spec fn header_is_valid(h: Seq<u8>) -> bool {
    &&& h.len() >= HEADER_SIZE
    &&& 1 <= normal_region_count(h) <= MAX_NORMAL_REGIONS
    &&& forall|i: int| 0 <= i < region_count(h) ==> slot_first(h, i) <= slot_last(h, i)
}

/// Region `i` of the map that `h` describes.
pub open spec fn slot_region(h: Seq<u8>, i: int) -> Region {
    Region {
        first_sector: slot_first(h, i) as u64,
        last_sector: slot_last(h, i) as u64,
        is_encrypted: slot_encrypted(i),
    }
}

/// The region map that a header describes, if it is valid.
pub open spec fn region_map(h: Seq<u8>) -> Option<Seq<Region>> {
    if header_is_valid(h) {
        Some(Seq::new(region_count(h) as nat, |i: int| slot_region(h, i)))
    } else {
        None
    }
}

/// Reads the big-endian 32-bit word at byte offset `off`.
fn read_be_u32(h: &[u8], off: usize) -> (w: u32)
    requires
        off + 4 <= h@.len(),
    ensures
        w as int == be_word(h@, off as int),
{
    (h[off] as u32) * 0x1000000 + (h[off + 1] as u32) * 0x10000 + (h[off + 2] as u32) * 0x100
        + (h[off + 3] as u32)
}

/// Parses the header into its ordered region map. The map alternates
/// plaintext and encrypted regions, starting with plaintext; an encrypted
/// region excludes the boundary sectors it shares with its neighbours.
pub fn extract_regions(header: &[u8]) -> (r: Result<Vec<Region>, DiscError>)
    ensures
        r matches Ok(v) ==> region_map(header@) == Some(v@),
        r matches Err(e) ==> region_map(header@) is None && e == DiscError::MalformedHeader,
{
    if header.len() < HEADER_SIZE {
        return Err(DiscError::MalformedHeader);
    }
    let normal = read_be_u32(header, 0);
    if normal == 0 || normal > MAX_NORMAL_REGIONS {
        return Err(DiscError::MalformedHeader);
    }
    let count: usize = (2 * normal - 1) as usize;
    let mut regions: Vec<Region> = Vec::with_capacity(count);
    let mut encrypted: bool = false;
    let mut i: usize = 0;
    while i < count
        invariant
            header@.len() >= HEADER_SIZE,
            1 <= normal <= MAX_NORMAL_REGIONS,
            normal as int == normal_region_count(header@),
            count as int == region_count(header@),
            i <= count,
            encrypted == slot_encrypted(i as int),
            regions@.len() == i,
            forall|k: int| 0 <= k < i ==> slot_first(header@, k) <= slot_last(header@, k),
            forall|k: int| 0 <= k < i ==> #[trigger] regions@[k] == slot_region(header@, k),
        decreases count - i,
    {
        let offset: usize = REGION_TABLE_OFFSET + 4 * i;
        let start = read_be_u32(header, offset) as u64;
        let end = read_be_u32(header, offset + 4) as u64;
        assert(start == raw_word(header@, i as int) && end == raw_word(header@, i + 1));
        let (first, last) = if encrypted {
            if end < 1 || start + 1 > end - 1 {
                assert(!(slot_first(header@, i as int) <= slot_last(header@, i as int)));
                return Err(DiscError::MalformedHeader);
            }
            (start + 1, end - 1)
        } else {
            if start > end {
                assert(!(slot_first(header@, i as int) <= slot_last(header@, i as int)));
                return Err(DiscError::MalformedHeader);
            }
            (start, end)
        };
        regions.push(Region { first_sector: first, last_sector: last, is_encrypted: encrypted });
        encrypted = !encrypted;
        i = i + 1;
    }
    assert(regions@ =~= Seq::new(region_count(header@) as nat, |k: int| slot_region(header@, k)));
    Ok(regions)
}

/// Whether `region` holds `sector`.
pub open spec fn covers(region: Region, sector: u64) -> bool {
    region.first_sector <= sector <= region.last_sector
}

/// Looks up whether `sector` is encrypted: the answer comes from the first
/// region that holds it, and a sector that no region holds is an error.
pub fn is_encrypted(regions: &[Region], sector: u64) -> (r: Result<bool, DiscError>)
    ensures
        r is Ok <==> exists|i: int| 0 <= i < regions@.len() && covers(#[trigger] regions@[i], sector),
        r matches Ok(b) ==> exists|i: int|
            0 <= i < regions@.len() && covers(#[trigger] regions@[i], sector) && b
                == regions@[i].is_encrypted && forall|j: int|
                0 <= j < i ==> !covers(#[trigger] regions@[j], sector),
        r matches Err(e) ==> e == DiscError::SectorOutOfRange,
{
    let mut i: usize = 0;
    while i < regions.len()
        invariant
            i <= regions@.len(),
            forall|j: int| 0 <= j < i ==> !covers(#[trigger] regions@[j], sector),
        decreases regions@.len() - i,
    {
        let region = &regions[i];
        if region.first_sector <= sector && sector <= region.last_sector {
            assert(covers(regions@[i as int], sector));
            return Ok(region.is_encrypted);
        }
        i = i + 1;
    }
    Err(DiscError::SectorOutOfRange)
}

proof fn lemma_map_ordered(h: Seq<u8>, i: int, j: int)
    requires
        header_is_valid(h),
        0 <= i < j < region_count(h),
    ensures
        slot_last(h, i) < slot_first(h, j),
    decreases j - i,
{
    if j > i + 1 {
        lemma_map_ordered(h, i, j - 1);
        assert(slot_first(h, j - 1) <= slot_last(h, j - 1));
    }
}

/// A map built from a header partitions its span of sectors: it has
/// `2N - 1` regions for `N` plaintext regions, encryption alternates starting
/// with plaintext, every region is non-empty, each region starts right after
/// its predecessor ends, and regions never overlap.
pub proof fn lemma_region_map_partition(h: Seq<u8>)
    requires
        region_map(h) is Some,
    ensures
        ({
            let v = region_map(h)->0;
            &&& v.len() == 2 * normal_region_count(h) - 1
            &&& !v[0].is_encrypted
            &&& forall|i: int| 0 <= i < v.len() ==> (#[trigger] v[i]).is_encrypted == (i % 2 == 1)
            &&& forall|i: int| 0 <= i < v.len() ==> (#[trigger] v[i]).first_sector <= v[i].last_sector
            &&& forall|i: int|
                0 <= i < v.len() - 1 ==> #[trigger] v[i + 1].first_sector == v[i].last_sector + 1
            &&& forall|i: int, j: int|
                0 <= i < j < v.len() ==> (#[trigger] v[i]).last_sector < (#[trigger] v[j]).first_sector
        }),
{
    let v = region_map(h)->0;
    assert forall|i: int| 0 <= i < v.len() implies (#[trigger] v[i]).first_sector
        <= v[i].last_sector && v[i].first_sector == slot_first(h, i) && v[i].last_sector
        == slot_last(h, i) by {
        assert(slot_first(h, i) <= slot_last(h, i));
        assert(0 <= raw_word(h, i) < 0x100000000);
        assert(0 <= raw_word(h, i + 1) < 0x100000000);
    }
    assert forall|i: int|
        0 <= i < v.len() - 1 implies #[trigger] v[i + 1].first_sector == v[i].last_sector + 1 by {
        assert(v[i + 1].first_sector == slot_first(h, i + 1));
        assert(v[i].last_sector == slot_last(h, i));
    }
    assert forall|i: int, j: int|
        0 <= i < j < v.len() implies (#[trigger] v[i]).last_sector < (#[trigger] v[j]).first_sector by {
        lemma_map_ordered(h, i, j);
        assert(v[i].last_sector == slot_last(h, i));
        assert(v[j].first_sector == slot_first(h, j));
    }
}

/// In a map built from a header, at most one region holds any given sector,
/// so a successful lookup answers with that region's state.
pub proof fn lemma_region_map_unique_cover(h: Seq<u8>, sector: u64, i: int, j: int)
    requires
        region_map(h) is Some,
        0 <= i < region_map(h)->0.len(),
        0 <= j < region_map(h)->0.len(),
        covers(region_map(h)->0[i], sector),
        covers(region_map(h)->0[j], sector),
    ensures
        i == j,
{
    lemma_region_map_partition(h);
    let v = region_map(h)->0;
    if i < j {
        assert(v[i].last_sector < v[j].first_sector);
    } else if j < i {
        assert(v[j].last_sector < v[i].first_sector);
    }
}

/// Building the map is a function of the header bytes alone: two builds from
/// equal bytes give the same outcome and the same region sequence.
pub proof fn lemma_region_map_deterministic(h1: Seq<u8>, h2: Seq<u8>)
    requires
        h1 == h2,
    ensures
        region_map(h1) == region_map(h2),
{
}

} // verus!
