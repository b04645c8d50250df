use vstd::prelude::*;

verus! {

/// Number of block layers in a chunk column (from y = -64 up to y = 319).
pub const WORLD_HEIGHT: usize = 384;

pub const CHUNK_AREA: usize = 16 * 16;

pub const SUBCHUNK_VOLUME: usize = CHUNK_AREA * 16;

pub const CHUNK_VOLUME: usize = CHUNK_AREA * WORLD_HEIGHT;

#[verifier::external_type_specification]
#[verifier::external_body]
pub struct ExIoErrorKind(std::io::ErrorKind);

/// Errors that different world formats can encounter.
#[derive(Debug)]
pub enum WorldHandlingError {
    WorldInUse,
    IoError(std::io::ErrorKind),
    NotFound,
    DeserializationError(String),
    ChunkNotGenerated,
    /// The compression scheme's name, and the kind of the failure.
    CompressionError(String, std::io::ErrorKind),
    OutdatedWorldFormat,
    Other(String),
}

/// Relies on `std::io::ErrorKind::NotFound`, the kind reported for an unknown scheme.
#[verifier::external_body]
pub(crate) fn kind_not_found() -> (r: std::io::ErrorKind) {
    std::io::ErrorKind::NotFound
}

/// Relies on `std::io::ErrorKind::Unsupported`, the kind reported for the custom scheme.
#[verifier::external_body]
pub(crate) fn kind_unsupported() -> (r: std::io::ErrorKind) {
    std::io::ErrorKind::Unsupported
}

/// Relies on `std::io::ErrorKind::UnexpectedEof`, the kind reported when a file ends early.
#[verifier::external_body]
pub(crate) fn kind_unexpected_eof() -> (r: std::io::ErrorKind) {
    std::io::ErrorKind::UnexpectedEof
}

/// A chunk column position, in chunk units.
#[derive(Clone, Copy, Debug, PartialEq, Eq, Structural)]
pub struct ChunkPos {
    pub x: i32,
    pub z: i32,
}

/// A block position inside one chunk column; `y` is the absolute layer, counted from the bottom.
#[derive(Clone, Copy, Debug, PartialEq, Eq, Structural)]
pub struct ChunkRelativeBlockCoordinates {
    pub x: u8,
    pub y: u16,
    pub z: u8,
}

impl ChunkRelativeBlockCoordinates {
    pub open spec fn in_chunk(&self) -> bool {
        self.x < 16 && self.z < 16 && self.y < WORLD_HEIGHT
    }

    /// Flat index of the position in a chunk's dense block array.
    pub open spec fn flat_index(&self) -> int {
        self.y * CHUNK_AREA + self.z * 16 + self.x
    }
}

/// A decoded chunk column: one block-state id per block, plus its height maps.
pub struct ChunkData {
    pub blocks: Vec<u16>,
    pub motion_blocking_map: Vec<i64>,
    pub world_surface_map: Vec<i64>,
    pub position: ChunkPos,
}

impl ChunkData {
    pub open spec fn wf(&self) -> bool {
        self.blocks@.len() == CHUNK_VOLUME
    }

    /// Replaces the block at `position` and returns the block that stood there.
    pub fn set_block_no_heightmap_update(
        &mut self,
        position: ChunkRelativeBlockCoordinates,
        block: u16,
    ) -> (r: u16)
        requires
            old(self).wf(),
            position.in_chunk(),
        ensures
            final(self).wf(),
            r == old(self).blocks@[position.flat_index()],
            final(self).blocks@ == old(self).blocks@.update(position.flat_index(), block),
            final(self).motion_blocking_map@ == old(self).motion_blocking_map@,
            final(self).world_surface_map@ == old(self).world_surface_map@,
            final(self).position == old(self).position,
    {
        let i = Self::convert_index(position);
        let previous = self.blocks[i];
        self.blocks.set(i, block);
        previous
    }

    fn convert_index(index: ChunkRelativeBlockCoordinates) -> (r: usize)
        requires
            index.in_chunk(),
        ensures
            r == index.flat_index(),
            r < CHUNK_VOLUME,
    {
        index.y as usize * CHUNK_AREA + index.z as usize * 16 + index.x as usize
    }
}

} // verus!
