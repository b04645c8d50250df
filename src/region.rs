use vstd::prelude::*;

use crate::compression::{decompressed_as, scheme_of, Compression};
use crate::world_format::{kind_unexpected_eof, ChunkPos, WorldHandlingError};

verus! {

/// Bytes in one region-file sector; offsets and lengths in the location table count sectors.
pub const SECTOR_BYTES: usize = 4096;

/// Bytes in the location table, and in the timestamp table after it.
pub const TABLE_BYTES: usize = 4096;

/// Entries in the location table, one for each chunk of a 32 by 32 region.
pub const TABLE_ENTRIES: usize = 1024;

/// One location-table entry: where a chunk's sectors start, and how many there are.
#[derive(Clone, Copy, Debug, PartialEq, Eq, Structural)]
pub struct RegionEntry {
    /// First sector of the chunk, a 24-bit number.
    pub offset: u32,
    pub sectors: u8,
}

/// The region that holds a chunk: its coordinates divided by 32, rounded down.
pub open spec fn region_of(at: ChunkPos) -> (int, int) {
    (at.x as int / 32, at.z as int / 32)
}

/// Byte position of a chunk's entry in the location table of its region.
pub open spec fn entry_position(at: ChunkPos) -> int {
    ((at.x as int % 32) + (at.z as int % 32) * 32) * 4
}

/// The entry stored at byte `i` of a location table: three big-endian bytes of offset, one of length.
pub open spec fn entry_at(table: Seq<u8>, i: int) -> RegionEntry {
    RegionEntry {
        offset: (table[i] as int * 65536 + table[i + 1] as int * 256 + table[i + 2] as int) as u32,
        sectors: table[i + 3],
    }
}

/// A location table read as its 1024 entries.
pub open spec fn decode_table(table: Seq<u8>) -> Seq<RegionEntry> {
    Seq::new(TABLE_ENTRIES as nat, |k: int| entry_at(table, 4 * k))
}

/// The four bytes that store an entry.
pub open spec fn entry_bytes(e: RegionEntry) -> Seq<u8> {
    seq![
        (e.offset as int / 65536 % 256) as u8,
        (e.offset as int / 256 % 256) as u8,
        (e.offset as int % 256) as u8,
        e.sectors,
    ]
}

/// A location table written from its entries.
pub open spec fn encode_table(entries: Seq<RegionEntry>) -> Seq<u8> {
    Seq::new(4 * entries.len(), |b: int| entry_bytes(entries[b / 4])[b % 4])
}

/// The region holding chunk `at`.
pub fn region_coords(at: ChunkPos) -> (r: (i32, i32))
    ensures
        r.0 as int == region_of(at).0,
        r.1 as int == region_of(at).1,
{
    (floor_div32(at.x), floor_div32(at.z))
}

fn floor_div32(v: i32) -> (r: i32)
    ensures
        r as int == v as int / 32,
{
    let shifted: u64 = (v as i64 + 2147483648i64) as u64;
    let q: u64 = shifted / 32;
    (q as i64 - 67108864i64) as i32
}

fn floor_mod32(v: i32) -> (r: u64)
    ensures
        r as int == v as int % 32,
        r < 32,
{
    let shifted: u64 = (v as i64 + 2147483648i64) as u64;
    shifted % 32
}

/// Byte position of chunk `at`'s entry in its region's location table.
pub fn entry_index(at: ChunkPos) -> (r: usize)
    ensures
        r as int == entry_position(at),
        r + 4 <= TABLE_BYTES,
{
    let lx = floor_mod32(at.x);
    let lz = floor_mod32(at.z);
    ((lx + lz * 32) * 4) as usize
}

fn read_entry(table: &Vec<u8>, i: usize) -> (r: RegionEntry)
    requires
        i + 4 <= table@.len(),
    ensures
        r == entry_at(table@, i as int),
        r.offset < 0x100_0000,
{
    let n = table.len();
    assert(i + 3 < n);
    RegionEntry {
        offset: table[i] as u32 * 65536 + table[i + 1] as u32 * 256 + table[i + 2] as u32,
        sectors: table[i + 3],
    }
}

/// Reads all entries of a location table.
pub fn decode_location_table(table: &Vec<u8>) -> (r: Vec<RegionEntry>)
    requires
        table@.len() == TABLE_BYTES,
    ensures
        r@ == decode_table(table@),
{
    let mut out: Vec<RegionEntry> = Vec::new();
    let mut k: usize = 0;
    while k < TABLE_ENTRIES
        invariant
            table@.len() == TABLE_BYTES,
            k <= TABLE_ENTRIES,
            out@.len() == k,
            forall|j: int| 0 <= j < k ==> out@[j] == entry_at(table@, 4 * j),
        decreases TABLE_ENTRIES - k,
    {
        out.push(read_entry(table, 4 * k));
        k += 1;
    }
    assert(out@ =~= decode_table(table@));
    out
}

/// Writes a location table from its entries; each offset must fit in 24 bits.
pub fn encode_location_table(entries: &Vec<RegionEntry>) -> (r: Vec<u8>)
    requires
        entries@.len() == TABLE_ENTRIES,
        forall|k: int| 0 <= k < entries@.len() ==> entries@[k].offset < 0x100_0000,
    ensures
        r@ == encode_table(entries@),
{
    let mut out: Vec<u8> = Vec::new();
    let mut k: usize = 0;
    while k < entries.len()
        invariant
            k <= entries@.len(),
            entries@.len() == TABLE_ENTRIES,
            out@.len() == 4 * k,
            forall|b: int| 0 <= b < 4 * k ==> out@[b] == entry_bytes(entries@[b / 4])[b % 4],
        decreases entries@.len() - k,
    {
        let e = entries[k];
        out.push((e.offset / 65536 % 256) as u8);
        out.push((e.offset / 256 % 256) as u8);
        out.push((e.offset % 256) as u8);
        out.push(e.sectors);
        k += 1;
    }
    assert(out@ =~= encode_table(entries@));
    out
}

proof fn lemma_offset_bytes(x: int, y: int, z: int)
    requires
        0 <= x < 256,
        0 <= y < 256,
        0 <= z < 256,
    ensures
        (x * 65536 + y * 256 + z) / 65536 % 256 == x,
        (x * 65536 + y * 256 + z) / 256 % 256 == y,
        (x * 65536 + y * 256 + z) % 256 == z,
{
    let o = x * 65536 + y * 256 + z;
    vstd::arithmetic::div_mod::lemma_fundamental_div_mod_converse(o, 65536, x, y * 256 + z);
    vstd::arithmetic::div_mod::lemma_fundamental_div_mod_converse(o, 256, x * 256 + y, z);
    vstd::arithmetic::div_mod::lemma_fundamental_div_mod_converse(x * 256 + y, 256, x, y);
    vstd::arithmetic::div_mod::lemma_small_mod(x as nat, 256);
}

/// Writing back the entries read from a location table gives the same 4096 bytes.
pub proof fn lemma_location_table_round_trip(table: Seq<u8>)
    requires
        table.len() == TABLE_BYTES,
    ensures
        encode_table(decode_table(table)) == table,
{
    let entries = decode_table(table);
    assert forall|b: int| 0 <= b < table.len() implies encode_table(entries)[b] == table[b] by {
        let i = 4 * (b / 4);
        lemma_offset_bytes(table[i] as int, table[i + 1] as int, table[i + 2] as int);
    }
    assert(encode_table(entries) =~= table);
}


/// The big-endian 32-bit number stored at byte `i`.
pub open spec fn be_u32_at(bytes: Seq<u8>, i: int) -> int {
    bytes[i] as int * 0x100_0000 + bytes[i + 1] as int * 0x1_0000 + bytes[i + 2] as int * 0x100
        + bytes[i + 3] as int
}

/// Whether `r` is what reading chunk `at` out of the region file `region` gives.
///
/// The entry of `at` in the location table gives the chunk's first sector and its number of
/// sectors; an all-zero entry means the chunk was never stored. The chunk's sectors begin with a
/// big-endian payload length, which counts the compression byte that follows it, and then the
/// compressed payload.
pub open spec fn chunk_read_from(region: Seq<u8>, at: ChunkPos, r: Result<Vec<u8>, WorldHandlingError>) -> bool {
    if region.len() < 2 * TABLE_BYTES {
        r matches Err(WorldHandlingError::IoError(_))
    } else {
        let e = entry_at(region, entry_position(at));
        let start = e.offset as int * SECTOR_BYTES;
        let size = e.sectors as int * SECTOR_BYTES;
        if e.offset == 0 && e.sectors == 0 {
            r matches Err(WorldHandlingError::NotFound)
        } else if start + size > region.len() || size < 5 {
            r matches Err(WorldHandlingError::IoError(_))
        } else if scheme_of(region[start + 4]) is None {
            r matches Err(WorldHandlingError::CompressionError(name, _)) && name@ == "Unknown"@
        } else {
            let len = be_u32_at(region, start);
            if len == 0 {
                r matches Err(WorldHandlingError::DeserializationError(_))
            } else if 4 + len > size {
                r matches Err(WorldHandlingError::IoError(_))
            } else {
                decompressed_as(
                    scheme_of(region[start + 4])->0,
                    region.subrange(start + 5, start + 4 + len),
                    r,
                )
            }
        }
    }
}

fn copy_range(bytes: &Vec<u8>, from: usize, to: usize) -> (r: Vec<u8>)
    requires
        from <= to <= bytes@.len(),
    ensures
        r@ == bytes@.subrange(from as int, to as int),
{
    let mut out: Vec<u8> = Vec::new();
    let mut k: usize = from;
    while k < to
        invariant
            from <= k <= to,
            to <= bytes@.len(),
            out@ == bytes@.subrange(from as int, k as int),
        decreases to - k,
    {
        out.push(bytes[k]);
        k += 1;
        assert(out@ =~= bytes@.subrange(from as int, k as int));
    }
    out
}

/// Reads the stored bytes of chunk `at` out of the whole content of its region file, and
/// decompresses them.
pub fn read_chunk_payload(region: &Vec<u8>, at: ChunkPos) -> (r: Result<Vec<u8>, WorldHandlingError>)
    ensures
        chunk_read_from(region@, at, r),
{
    let n = region.len();
    if n < 2 * TABLE_BYTES {
        return Err(WorldHandlingError::IoError(kind_unexpected_eof()));
    }
    let i = entry_index(at);
    let e = read_entry(region, i);
    if e.offset == 0 && e.sectors == 0 {
        return Err(WorldHandlingError::NotFound);
    }
    let start: u64 = e.offset as u64 * SECTOR_BYTES as u64;
    let size: u64 = e.sectors as u64 * SECTOR_BYTES as u64;
    if start + size > n as u64 || size < 5 {
        return Err(WorldHandlingError::IoError(kind_unexpected_eof()));
    }
    let start = start as usize;
    let size = size as usize;
    let compression = Compression::try_from(region[start + 4])?;
    let len: u64 = region[start] as u64 * 0x100_0000 + region[start + 1] as u64 * 0x1_0000
        + region[start + 2] as u64 * 0x100 + region[start + 3] as u64;
    if len == 0 {
        return Err(WorldHandlingError::DeserializationError("empty chunk payload".to_string()));
    }
    if 4 + len > size as u64 {
        return Err(WorldHandlingError::IoError(kind_unexpected_eof()));
    }
    let payload = copy_range(region, start + 5, start + 4 + len as usize);
    compression.decompress_data(payload)
}

} // verus!
