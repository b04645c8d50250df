use vstd::prelude::*;

use crate::world_format::{
    ChunkData, ChunkPos, WorldHandlingError, CHUNK_VOLUME, SUBCHUNK_VOLUME,
};

verus! {

/// The current data version of the anvil world format.
pub const DATA_VERSION: i32 = 4189;

/// Block-state id that a palette name unknown to the registry resolves to.
pub const AIR_ID: u16 = 0;

/// Generation stage that a stored chunk has reached.
#[derive(Clone, Copy, Debug, PartialEq, Eq, Structural)]
pub enum ChunkStatus {
    Empty,
    StructureStarts,
    StructureReferences,
    Biomes,
    Noise,
    Surface,
    Carvers,
    Features,
    InitLight,
    Light,
    Spawn,
    Full,
}

/// A name to block-state id map.
pub struct BlockRegistry {
    pub entries: Vec<(String, u16)>,
}

/// The id of the first entry of `entries` named `name`, if any.
pub open spec fn registry_lookup(entries: Seq<(String, u16)>, name: Seq<char>) -> Option<u16>
    decreases entries.len(),
{
    if entries.len() == 0 {
        None
    } else if entries[0].0@ == name {
        Some(entries[0].1)
    } else {
        registry_lookup(entries.drop_first(), name)
    }
}

/// The block-state id a palette name stands for: unknown names become air.
pub open spec fn resolve_block(entries: Seq<(String, u16)>, name: Seq<char>) -> u16 {
    match registry_lookup(entries, name) {
        Some(id) => id,
        None => AIR_ID,
    }
}

impl BlockRegistry {
    pub fn get_id(&self, name: &String) -> (r: Option<u16>)
        ensures
            r == registry_lookup(self.entries@, name@),
    {
        let mut i: usize = 0;
        assert(self.entries@.subrange(0, self.entries@.len() as int) =~= self.entries@);
        while i < self.entries.len()
            invariant
                i <= self.entries@.len(),
                registry_lookup(self.entries@, name@) == registry_lookup(
                    self.entries@.subrange(i as int, self.entries@.len() as int),
                    name@,
                ),
            decreases self.entries@.len() - i,
        {
            let ghost rest = self.entries@.subrange(i as int, self.entries@.len() as int);
            assert(rest.drop_first() =~= self.entries@.subrange(
                i + 1,
                self.entries@.len() as int,
            ));
            if self.entries[i].0 == *name {
                return Some(self.entries[i].1);
            }
            i += 1;
        }
        None
    }

    pub fn resolve(&self, name: &String) -> (r: u16)
        ensures
            r == resolve_block(self.entries@, name@),
    {
        match self.get_id(name) {
            Some(id) => id,
            None => AIR_ID,
        }
    }
}

pub struct PaletteEntry {
    pub name: String,
}

pub struct ChunkSectionBlockStates {
    /// Packed palette indices, several to a 64-bit word.
    pub data: Option<Vec<i64>>,
    pub palette: Vec<PaletteEntry>,
}

pub struct ChunkSection {
    pub y: i32,
    pub block_states: Option<ChunkSectionBlockStates>,
}

pub struct ChunkHeightmaps {
    pub motion_blocking: Vec<i64>,
    pub world_surface: Vec<i64>,
}

/// A chunk as stored in a region file, once its tagged binary form has been read.
pub struct AnvilChunkData {
    pub status: ChunkStatus,
    pub data_version: i32,
    pub sections: Vec<ChunkSection>,
    pub heightmaps: ChunkHeightmaps,
}

/// Width in bits of one packed palette index, for a palette of `len` entries:
/// `max(4, 64 - leading_zeros(len - 1))`, taking `len - 1` as all ones when `len` is zero.
pub open spec fn block_bit_width(len: nat) -> u64 {
    if len == 0 {
        64
    } else {
        let w = 64 - vstd::std_specs::bits::u64_leading_zeros((len - 1) as u64);
        if w < 4 {
            4
        } else {
            w as u64
        }
    }
}

/// The `bits` lowest bits set.
pub open spec fn lane_mask(bits: u64) -> u64 {
    if bits >= 64 {
        0xffff_ffff_ffff_ffffu64
    } else {
        ((1u64 << bits) - 1) as u64
    }
}

/// Lane `lane` of a packed word, `bits` wide, counted from the low end.
pub open spec fn lane_of(word: u64, lane: u64, bits: u64) -> u64 {
    (word >> ((lane * bits) as u64)) & lane_mask(bits)
}

/// Number of cells a section with `n_words` packed words writes when it starts at `start`:
/// all of its lanes, but never past the end of the section that `start` lies in.
pub open spec fn section_cells(start: nat, n_words: nat, per_word: nat) -> nat {
    let room = (SUBCHUNK_VOLUME - start % (SUBCHUNK_VOLUME as nat)) as nat;
    if n_words * per_word < room {
        n_words * per_word
    } else {
        room
    }
}

/// Palette index held by cell `j` of a section's packed words.
pub open spec fn cell_index(words: Seq<i64>, bits: u64, j: nat) -> u64 {
    let per_word = 64u64 / bits;
    lane_of(words[(j / (per_word as nat)) as int] as u64, (j % (per_word as nat)) as u64, bits)
}

pub open spec fn resolved_palette(
    entries: Seq<(String, u16)>,
    palette: Seq<PaletteEntry>,
) -> Seq<u16> {
    palette.map_values(|e: PaletteEntry| resolve_block(entries, e.name@))
}

/// Whether cell `j` of a section can be written: its palette index exists and it lies in the chunk.
pub open spec fn cell_ok(words: Seq<i64>, bits: u64, palette_len: nat, start: nat, j: nat) -> bool {
    &&& (cell_index(words, bits, j) as nat) < palette_len
    &&& start + j < CHUNK_VOLUME
}

/// One section's effect on the decoding state (next write index, blocks); `None` once malformed.
pub open spec fn decode_section_step(
    entries: Seq<(String, u16)>,
    state: Option<(nat, Seq<u16>)>,
    section: ChunkSection,
) -> Option<(nat, Seq<u16>)> {
    match state {
        None => None,
        Some((start, blocks)) => match section.block_states {
            None => Some(((start + SUBCHUNK_VOLUME) as nat, blocks)),
            Some(states) => match states.data {
                None => Some(((start + SUBCHUNK_VOLUME) as nat, blocks)),
                Some(data) => {
                    let words = data@;
                    let bits = block_bit_width(states.palette@.len());
                    let cells = section_cells(start, words.len(), (64u64 / bits) as nat);
                    let palette = resolved_palette(entries, states.palette@);
                    if forall|j: nat| j < cells ==> cell_ok(words, bits, palette.len(), start, j) {
                        Some(
                            (
                                start + cells,
                                Seq::new(
                                    blocks.len(),
                                    |p: int|
                                        if start <= p < start + cells {
                                            palette[cell_index(
                                                words,
                                                bits,
                                                (p - start) as nat,
                                            ) as int]
                                        } else {
                                            blocks[p]
                                        },
                                ),
                            ),
                        )
                    } else {
                        None
                    }
                },
            },
        },
    }
}

/// Decoding state after the first `k` sections, starting from an all-zero chunk at index 0.
pub open spec fn decode_sections(
    entries: Seq<(String, u16)>,
    sections: Seq<ChunkSection>,
    k: nat,
) -> Option<(nat, Seq<u16>)>
    decreases k,
{
    if k == 0 {
        Some((0, Seq::new(CHUNK_VOLUME as nat, |p: int| 0u16)))
    } else if k > sections.len() {
        None
    } else {
        decode_section_step(
            entries,
            decode_sections(entries, sections, (k - 1) as nat),
            sections[k - 1],
        )
    }
}

/// Computes `block_bit_width` of a palette length.
pub fn bit_width_for_palette(len: usize) -> (r: u64)
    ensures
        r == block_bit_width(len as nat),
        4 <= r <= 64,
{
    if len == 0 {
        return 64;
    }
    let lz = ((len - 1) as u64).leading_zeros();
    proof {
        vstd::std_specs::bits::axiom_u64_leading_zeros((len - 1) as u64);
    }
    let w = 64 - lz as u64;
    if w < 4 {
        4
    } else {
        w
    }
}

fn mask_for(bits: u64) -> (r: u64)
    ensures
        r == lane_mask(bits),
{
    if bits >= 64 {
        0xffff_ffff_ffff_ffffu64
    } else {
        assert(1u64 << bits >= 1) by (bit_vector)
            requires
                bits < 64,
        ;
        (1u64 << bits) - 1
    }
}


fn resolve_palette(registry: &BlockRegistry, palette: &Vec<PaletteEntry>) -> (r: Vec<u16>)
    ensures
        r@ == resolved_palette(registry.entries@, palette@),
{
    let mut out: Vec<u16> = Vec::new();
    let mut i: usize = 0;
    while i < palette.len()
        invariant
            i <= palette@.len(),
            out@.len() == i,
            forall|k: int| 0 <= k < i ==> out@[k] == resolve_block(registry.entries@, palette@[k].name@),
        decreases palette@.len() - i,
    {
        out.push(registry.resolve(&palette[i].name));
        i += 1;
    }
    assert(out@ =~= resolved_palette(registry.entries@, palette@));
    out
}

/// Writes the cells of one section's packed words into `blocks`, from index `start` on.
/// Returns the next write index, or `None` where a cell is malformed.
fn write_section_cells(
    blocks: &mut Vec<u16>,
    start: u128,
    words: &Vec<i64>,
    palette: &Vec<u16>,
    bits: u64,
) -> (r: Option<u128>)
    requires
        old(blocks)@.len() == CHUNK_VOLUME,
        start < 0x1_0000_0000_0000_0000_0000_0000u128,
        bits == block_bit_width(palette@.len()),
    ensures
        final(blocks)@.len() == CHUNK_VOLUME,
        (r is Some) <==> (forall|j: nat|
            j < section_cells(start as nat, words@.len(), (64u64 / bits) as nat) ==> cell_ok(
                words@,
                bits,
                palette@.len(),
                start as nat,
                j,
            )),
        r is Some ==> r->0 == start + section_cells(
            start as nat,
            words@.len(),
            (64u64 / bits) as nat,
        ),
        r is Some ==> final(blocks)@ == Seq::new(
            CHUNK_VOLUME as nat,
            |p: int|
                if start <= p < start + section_cells(
                    start as nat,
                    words@.len(),
                    (64u64 / bits) as nat,
                ) {
                    palette@[cell_index(words@, bits, (p - start) as nat) as int]
                } else {
                    old(blocks)@[p]
                },
        ),
{
    assert(4 <= bits <= 64) by {
        vstd::std_specs::bits::axiom_u64_leading_zeros(
            (if palette@.len() == 0 { 0 } else { palette@.len() - 1 }) as u64,
        );
    }
    let per_word: u64 = 64 / bits;
    assert(1 <= per_word <= 16) by (nonlinear_arith)
        requires
            4 <= bits <= 64,
            per_word == 64u64 / bits,
    ;
    let mask = mask_for(bits);
    let sv: u128 = SUBCHUNK_VOLUME as u128;
    let room: u128 = sv - start % sv;
    let wl: u128 = words.len() as u128;
    let pw: u128 = per_word as u128;
    assert(wl * pw <= 16 * 0x1_0000_0000_0000_0000u128) by (nonlinear_arith)
        requires
            pw <= 16,
            wl < 0x1_0000_0000_0000_0000u128,
    ;
    let total: u128 = wl * pw;
    let cells: u128 = if total < room {
        total
    } else {
        room
    };
    let ghost spec_cells = section_cells(start as nat, words@.len(), per_word as nat);
    assert(cells == spec_cells);
    assert(spec_cells == section_cells(start as nat, words@.len(), (64u64 / bits) as nat));
    let mut j: u128 = 0;
    while j < cells
        invariant
            blocks@.len() == CHUNK_VOLUME,
            cells == spec_cells,
            spec_cells == section_cells(start as nat, words@.len(), (64u64 / bits) as nat),
            cells <= SUBCHUNK_VOLUME,
            cells <= words@.len() * per_word,
            start < 0x1_0000_0000_0000_0000_0000_0000u128,
            1 <= per_word <= 16,
            per_word == 64u64 / bits,
            4 <= bits <= 64,
            mask == lane_mask(bits),
            j <= cells,
            forall|k: nat| k < j ==> cell_ok(words@, bits, palette@.len(), start as nat, k),
            forall|p: int|
                0 <= p < CHUNK_VOLUME ==> blocks@[p] == if start <= p < start + j {
                    palette@[cell_index(words@, bits, (p - start) as nat) as int]
                } else {
                    old(blocks)@[p]
                },
        decreases cells - j,
    {
        let ghost jn = j as nat;
        let wi: u128 = j / (per_word as u128);
        let lane: u64 = (j % (per_word as u128)) as u64;
        assert(wi < words@.len()) by (nonlinear_arith)
            requires
                j < cells,
                cells <= words@.len() * per_word,
                wi == j / (per_word as u128),
                per_word >= 1,
        ;
        assert(lane * bits <= 64 - bits) by (nonlinear_arith)
            requires
                lane < per_word,
                per_word == 64u64 / bits,
                4 <= bits <= 64,
        ;
        let word = words[wi as usize] as u64;
        let idx: u64 = (word >> (lane * bits)) & mask;
        assert(idx == cell_index(words@, bits, jn));
        if idx >= palette.len() as u64 {
            assert(!cell_ok(words@, bits, palette@.len(), start as nat, jn));
            assert(!(forall|k: nat|
                k < spec_cells ==> cell_ok(words@, bits, palette@.len(), start as nat, k)));
            return None;
        }
        let pos: u128 = start + j;
        if pos >= CHUNK_VOLUME as u128 {
            assert(!cell_ok(words@, bits, palette@.len(), start as nat, jn));
            assert(!(forall|k: nat|
                k < spec_cells ==> cell_ok(words@, bits, palette@.len(), start as nat, k)));
            return None;
        }
        blocks.set(pos as usize, palette[idx as usize]);
        j += 1;
    }
    assert(final(blocks)@ =~= Seq::new(
        CHUNK_VOLUME as nat,
        |p: int|
            if start <= p < start + cells {
                palette@[cell_index(words@, bits, (p - start) as nat) as int]
            } else {
                old(blocks)@[p]
            },
    ));
    Some(start + cells)
}

impl AnvilChunkData {
    /// Decodes the sections' palette-packed blocks into a dense chunk, resolving each palette
    /// name through `registry`.
    pub fn to_chunk_data(self, at: ChunkPos, registry: &BlockRegistry) -> (r: Result<
        ChunkData,
        WorldHandlingError,
    >)
        ensures
            self.status != ChunkStatus::Full ==> r matches Err(WorldHandlingError::ChunkNotGenerated),
            self.status == ChunkStatus::Full && self.data_version != DATA_VERSION ==> r matches Err(
                WorldHandlingError::OutdatedWorldFormat,
            ),
            self.status == ChunkStatus::Full && self.data_version == DATA_VERSION ==> match decode_sections(
                registry.entries@,
                self.sections@,
                self.sections@.len(),
            ) {
                Some((_, blocks)) => r matches Ok(c) && c.wf() && c.blocks@ == blocks
                    && c.motion_blocking_map@ == self.heightmaps.motion_blocking@
                    && c.world_surface_map@ == self.heightmaps.world_surface@ && c.position == at,
                None => r matches Err(WorldHandlingError::DeserializationError(_)),
            },
    {
        if self.status != ChunkStatus::Full {
            return Err(WorldHandlingError::ChunkNotGenerated);
        }
        if self.data_version != DATA_VERSION {
            return Err(WorldHandlingError::OutdatedWorldFormat);
        }
        let ghost entries = registry.entries@;
        let ghost sections = self.sections@;
        let AnvilChunkData { status, data_version, sections: secs, heightmaps } = self;
        let ChunkHeightmaps { motion_blocking, world_surface } = heightmaps;
        let mut blocks: Vec<u16> = vec![0u16; CHUNK_VOLUME];
        assert(blocks@ =~= Seq::new(CHUNK_VOLUME as nat, |p: int| 0u16));
        let mut block_index: u128 = 0;
        let mut i: usize = 0;
        while i < secs.len()
            invariant
                secs@ == sections,
                i <= secs@.len(),
                block_index <= 4096 * i,
                decode_sections(entries, sections, i as nat) == Some(
                    (block_index as nat, blocks@),
                ),
                blocks@.len() == CHUNK_VOLUME,
                registry.entries@ == entries,
                self.status == ChunkStatus::Full,
                self.data_version == DATA_VERSION,
                self.sections@ == sections,
            decreases secs@.len() - i,
        {
            let section = &secs[i];
            match &section.block_states {
                None => {
                    block_index = block_index + SUBCHUNK_VOLUME as u128;
                },
                Some(states) => {
                    match &states.data {
                        None => {
                            block_index = block_index + SUBCHUNK_VOLUME as u128;
                        },
                        Some(words) => {
                            let palette = resolve_palette(registry, &states.palette);
                            let bits = bit_width_for_palette(states.palette.len());
                            match write_section_cells(&mut blocks, block_index, words, &palette, bits) {
                                Some(next) => {
                                    block_index = next;
                                },
                                None => {
                                    assert(decode_sections(entries, sections, (i + 1) as nat) is None);
                                    proof {
                                        lemma_decode_stays_failed(entries, sections, (i + 1) as nat);
                                    }
                                    return Err(
                                        WorldHandlingError::DeserializationError(
                                            "malformed block states".to_string(),
                                        ),
                                    );
                                },
                            }
                        },
                    }
                },
            }
            i += 1;
        }
        Ok(
            ChunkData {
                blocks,
                motion_blocking_map: motion_blocking,
                world_surface_map: world_surface,
                position: at,
            },
        )
    }
}

/// Once a section is malformed, decoding the whole chunk fails.
proof fn lemma_decode_stays_failed(
    entries: Seq<(String, u16)>,
    sections: Seq<ChunkSection>,
    k: nat,
)
    requires
        k <= sections.len(),
        decode_sections(entries, sections, k) is None,
    ensures
        decode_sections(entries, sections, sections.len()) is None,
    decreases sections.len() - k,
{
    if k < sections.len() {
        lemma_decode_stays_failed(entries, sections, k + 1);
    }
}


} // verus!
