use std::io::Write;

use pumpkin::chunk_format::{
    bit_width_for_palette, AnvilChunkData, BlockRegistry, ChunkHeightmaps, ChunkSection,
    ChunkSectionBlockStates, ChunkStatus, PaletteEntry, AIR_ID, DATA_VERSION,
};
use pumpkin::compression::Compression;
use pumpkin::region::{
    decode_location_table, encode_location_table, entry_index, read_chunk_payload, region_coords,
    RegionEntry,
};
use pumpkin::world_format::{
    ChunkData, ChunkPos, ChunkRelativeBlockCoordinates, WorldHandlingError, CHUNK_VOLUME,
    SUBCHUNK_VOLUME,
};

fn registry() -> BlockRegistry {
    BlockRegistry {
        entries: vec![
            ("minecraft:air".to_string(), 0),
            ("minecraft:stone".to_string(), 1),
            ("minecraft:dirt".to_string(), 10),
            ("minecraft:grass_block".to_string(), 9),
        ],
    }
}

fn palette(names: &[&str]) -> Vec<PaletteEntry> {
    names.iter().map(|n| PaletteEntry { name: n.to_string() }).collect()
}

fn section(y: i32, data: Option<Vec<i64>>, names: &[&str]) -> ChunkSection {
    ChunkSection { y, block_states: Some(ChunkSectionBlockStates { data, palette: palette(names) }) }
}

fn chunk(sections: Vec<ChunkSection>) -> AnvilChunkData {
    AnvilChunkData {
        status: ChunkStatus::Full,
        data_version: DATA_VERSION,
        sections,
        heightmaps: ChunkHeightmaps { motion_blocking: vec![1, 2], world_surface: vec![3] },
    }
}

fn decode(c: AnvilChunkData) -> ChunkData {
    match c.to_chunk_data(ChunkPos { x: 3, z: -4 }, &registry()) {
        Ok(d) => d,
        Err(e) => panic!("decoding failed: {:?}", e),
    }
}

#[test]
fn palette_of_three_decodes_four_bit_lanes() {
    // nibbles 1, 0, 0, 2, then zeros
    let word: i64 = 0x2001;
    let c = chunk(vec![section(
        -4,
        Some(vec![word]),
        &["minecraft:stone", "minecraft:dirt", "minecraft:grass_block"],
    )]);
    let d = decode(c);
    assert_eq!(d.blocks.len(), CHUNK_VOLUME);
    assert_eq!(&d.blocks[0..4], &[10, 1, 1, 9]);
    // the rest of the word's sixteen lanes are index 0
    assert!(d.blocks[4..16].iter().all(|b| *b == 1));
    assert!(d.blocks[16..].iter().all(|b| *b == 0));
    assert_eq!(d.motion_blocking_map, vec![1, 2]);
    assert_eq!(d.world_surface_map, vec![3]);
    assert_eq!(d.position, ChunkPos { x: 3, z: -4 });
}

#[test]
fn palette_of_one_uses_four_bit_lanes() {
    assert_eq!(bit_width_for_palette(1), 4);
    assert_eq!(bit_width_for_palette(2), 4);
    assert_eq!(bit_width_for_palette(16), 4);
    assert_eq!(bit_width_for_palette(17), 5);
    assert_eq!(bit_width_for_palette(300), 9);
    assert_eq!(bit_width_for_palette(0), 64);
}

#[test]
fn five_bit_lanes_leave_high_bits_unused() {
    // 17 entries: 5 bits, 12 lanes per word
    let names: Vec<String> = (0..17).map(|i| if i == 16 { "minecraft:dirt".to_string() } else { "minecraft:stone".to_string() }).collect();
    let refs: Vec<&str> = names.iter().map(|s| s.as_str()).collect();
    let word: i64 = (16i64 << 55) | 16; // lane 0 is 16, lane 11 is 16, bits 60..63 unused
    let d = decode(chunk(vec![section(0, Some(vec![word, 0]), &refs)]));
    assert_eq!(d.blocks[0], 10);
    assert_eq!(d.blocks[11], 10);
    assert_eq!(d.blocks[1], 1);
    assert_eq!(d.blocks[12], 1);
}

#[test]
fn absent_data_advances_a_whole_section() {
    let c = chunk(vec![
        section(-4, None, &["minecraft:stone"]),
        section(-3, Some(vec![0x1]), &["minecraft:stone", "minecraft:dirt"]),
    ]);
    let d = decode(c);
    assert_eq!(d.blocks[0], 0);
    assert_eq!(d.blocks[SUBCHUNK_VOLUME - 1], 0);
    assert_eq!(d.blocks[SUBCHUNK_VOLUME], 10);
    assert_eq!(d.blocks[SUBCHUNK_VOLUME + 1], 1);
}

#[test]
fn absent_block_states_advance_a_whole_section() {
    let c = chunk(vec![
        ChunkSection { y: -4, block_states: None },
        section(-3, Some(vec![0x1]), &["minecraft:stone", "minecraft:dirt"]),
    ]);
    let d = decode(c);
    assert_eq!(d.blocks[0], 0);
    assert_eq!(d.blocks[1], 0);
    assert_eq!(d.blocks[SUBCHUNK_VOLUME], 10);
    assert_eq!(d.blocks[SUBCHUNK_VOLUME + 1], 1);
}

#[test]
fn full_section_stops_at_its_end() {
    // 4 bits: 16 lanes per word, 256 words fill 4096 cells; one more word is ignored
    let mut words = vec![0x1111_1111_1111_1111i64; 256];
    words.push(0);
    let d = decode(chunk(vec![section(0, Some(words), &["minecraft:stone", "minecraft:dirt"])]));
    assert!(d.blocks[..SUBCHUNK_VOLUME].iter().all(|b| *b == 10));
    assert_eq!(d.blocks[SUBCHUNK_VOLUME], 0);
}

#[test]
fn unknown_block_names_become_air() {
    let d = decode(chunk(vec![section(0, Some(vec![0x10]), &["minecraft:unknown", "minecraft:dirt"])]));
    assert_eq!(d.blocks[0], AIR_ID);
    assert_eq!(d.blocks[1], 10);
}

#[test]
fn registry_lookup_finds_first_match() {
    let r = registry();
    assert_eq!(r.get_id(&"minecraft:dirt".to_string()), Some(10));
    assert_eq!(r.get_id(&"minecraft:nothing".to_string()), None);
    assert_eq!(r.resolve(&"minecraft:nothing".to_string()), AIR_ID);
}

#[test]
fn unfinished_chunk_is_not_generated() {
    let mut c = chunk(vec![]);
    c.status = ChunkStatus::Features;
    assert!(matches!(c.to_chunk_data(ChunkPos { x: 0, z: 0 }, &registry()), Err(WorldHandlingError::ChunkNotGenerated)));
}

#[test]
fn other_data_version_is_outdated() {
    let mut c = chunk(vec![]);
    c.data_version = 3953;
    assert!(matches!(c.to_chunk_data(ChunkPos { x: 0, z: 0 }, &registry()), Err(WorldHandlingError::OutdatedWorldFormat)));
}

#[test]
fn palette_index_out_of_range_is_refused() {
    let c = chunk(vec![section(0, Some(vec![0x2]), &["minecraft:stone", "minecraft:dirt"])]);
    assert!(matches!(c.to_chunk_data(ChunkPos { x: 0, z: 0 }, &registry()), Err(WorldHandlingError::DeserializationError(_))));
}

#[test]
fn too_many_sections_are_refused() {
    let mut sections: Vec<ChunkSection> = (0..24).map(|y| section(y, None, &["minecraft:stone"])).collect();
    sections.push(section(24, Some(vec![0]), &["minecraft:stone"]));
    let c = chunk(sections);
    assert!(matches!(c.to_chunk_data(ChunkPos { x: 0, z: 0 }, &registry()), Err(WorldHandlingError::DeserializationError(_))));
}

#[test]
fn set_block_returns_previous_block() {
    let mut d = decode(chunk(vec![section(0, Some(vec![0x1]), &["minecraft:stone", "minecraft:dirt"])]));
    let pos = ChunkRelativeBlockCoordinates { x: 1, y: 0, z: 0 };
    assert_eq!(d.set_block_no_heightmap_update(pos, 42), 1);
    assert_eq!(d.blocks[1], 42);
    let high = ChunkRelativeBlockCoordinates { x: 15, y: 383, z: 15 };
    assert_eq!(d.set_block_no_heightmap_update(high, 7), 0);
    assert_eq!(d.blocks[CHUNK_VOLUME - 1], 7);
}

#[test]
fn region_coordinates_round_down() {
    assert_eq!(region_coords(ChunkPos { x: 0, z: 31 }), (0, 0));
    assert_eq!(region_coords(ChunkPos { x: 32, z: -1 }), (1, -1));
    assert_eq!(region_coords(ChunkPos { x: -33, z: i32::MIN }), (-2, -67108864));
    assert_eq!(entry_index(ChunkPos { x: 0, z: 0 }), 0);
    assert_eq!(entry_index(ChunkPos { x: -1, z: 0 }), 124);
    assert_eq!(entry_index(ChunkPos { x: 33, z: -32 }), 4);
    assert_eq!(entry_index(ChunkPos { x: 5, z: 2 }), (5 + 2 * 32) * 4);
}

#[test]
fn location_table_round_trips() {
    let table: Vec<u8> = (0..4096u32).map(|i| (i.wrapping_mul(2654435761) >> 13) as u8).collect();
    let entries = decode_location_table(&table);
    assert_eq!(entries.len(), 1024);
    assert_eq!(entries[0], RegionEntry { offset: (table[0] as u32) << 16 | (table[1] as u32) << 8 | table[2] as u32, sectors: table[3] });
    assert_eq!(encode_location_table(&entries), table);
}

#[test]
fn region_read_miss_is_not_found() {
    let region = vec![0u8; 8192];
    assert!(matches!(read_chunk_payload(&region, ChunkPos { x: 0, z: 0 }), Err(WorldHandlingError::NotFound)));
    assert!(matches!(read_chunk_payload(&region, ChunkPos { x: -7, z: 100 }), Err(WorldHandlingError::NotFound)));
}

#[test]
fn short_region_file_is_an_io_error() {
    let region = vec![0u8; 100];
    assert!(matches!(read_chunk_payload(&region, ChunkPos { x: 0, z: 0 }), Err(WorldHandlingError::IoError(std::io::ErrorKind::UnexpectedEof))));
}

fn region_with(at_entry: usize, scheme: u8, payload: &[u8]) -> Vec<u8> {
    let mut region = vec![0u8; 8192];
    // chunk stored at sector 2, one sector long
    region[at_entry + 2] = 2;
    region[at_entry + 3] = 1;
    let mut blob = Vec::new();
    blob.extend_from_slice(&((payload.len() + 1) as u32).to_be_bytes());
    blob.push(scheme);
    blob.extend_from_slice(payload);
    blob.resize(4096, 0);
    region.extend_from_slice(&blob);
    region
}

#[test]
fn uncompressed_chunk_is_read_back() {
    let region = region_with(entry_index(ChunkPos { x: 1, z: 0 }), 3, &[9, 8, 7]);
    assert_eq!(read_chunk_payload(&region, ChunkPos { x: 1, z: 0 }).unwrap(), vec![9, 8, 7]);
    assert!(matches!(read_chunk_payload(&region, ChunkPos { x: 0, z: 0 }), Err(WorldHandlingError::NotFound)));
}

#[test]
fn gzip_chunk_is_decompressed() {
    let mut enc = flate2::write::GzEncoder::new(Vec::new(), flate2::Compression::default());
    enc.write_all(b"hello chunk").unwrap();
    let packed = enc.finish().unwrap();
    let region = region_with(entry_index(ChunkPos { x: 2, z: 3 }), 1, &packed);
    assert_eq!(read_chunk_payload(&region, ChunkPos { x: 2, z: 3 }).unwrap(), b"hello chunk".to_vec());
}

#[test]
fn zlib_chunk_is_decompressed() {
    let mut enc = flate2::write::ZlibEncoder::new(Vec::new(), flate2::Compression::default());
    enc.write_all(b"zlib chunk data").unwrap();
    let packed = enc.finish().unwrap();
    let region = region_with(entry_index(ChunkPos { x: -1, z: -1 }), 2, &packed);
    assert_eq!(read_chunk_payload(&region, ChunkPos { x: -1, z: -1 }).unwrap(), b"zlib chunk data".to_vec());
}

#[test]
fn lz4_chunk_is_decompressed() {
    let mut enc = lz4::EncoderBuilder::new().build(Vec::new()).unwrap();
    enc.write_all(b"lz4 chunk data").unwrap();
    let (packed, res) = enc.finish();
    res.unwrap();
    assert_eq!(Compression::LZ4.decompress_data(packed).unwrap(), b"lz4 chunk data".to_vec());
}

#[test]
fn corrupt_gzip_is_a_compression_error() {
    match Compression::GZip.decompress_data(vec![1, 2, 3, 4]) {
        Err(WorldHandlingError::CompressionError(name, _)) => assert_eq!(name, "Gzip"),
        other => panic!("unexpected {:?}", other),
    }
}

#[test]
fn unknown_compression_scheme_is_refused() {
    let region = region_with(0, 9, &[1]);
    match read_chunk_payload(&region, ChunkPos { x: 0, z: 0 }) {
        Err(WorldHandlingError::CompressionError(name, kind)) => {
            assert_eq!(name, "Unknown");
            assert_eq!(kind, std::io::ErrorKind::NotFound);
        }
        other => panic!("unexpected {:?}", other),
    }
}

#[test]
fn custom_compression_is_unsupported() {
    assert!(matches!(Compression::Custom.decompress_data(vec![1]), Err(WorldHandlingError::CompressionError(_, std::io::ErrorKind::Unsupported))));
    assert!(matches!(Compression::try_from(127), Ok(Compression::Custom)));
    assert!(matches!(Compression::try_from(1), Ok(Compression::GZip)));
    assert!(matches!(Compression::try_from(2), Ok(Compression::ZLib)));
    assert!(matches!(Compression::try_from(3), Ok(Compression::Uncompressed)));
    assert!(matches!(Compression::try_from(4), Ok(Compression::LZ4)));
    assert!(matches!(Compression::try_from(0), Err(_)));
}

#[test]
fn payload_longer_than_its_sectors_is_refused() {
    let mut region = region_with(0, 3, &[1, 2, 3]);
    // claim 5000 payload bytes in a single sector
    region[8192..8196].copy_from_slice(&5000u32.to_be_bytes());
    assert!(matches!(read_chunk_payload(&region, ChunkPos { x: 0, z: 0 }), Err(WorldHandlingError::IoError(_))));
    region[8192..8196].copy_from_slice(&0u32.to_be_bytes());
    assert!(matches!(read_chunk_payload(&region, ChunkPos { x: 0, z: 0 }), Err(WorldHandlingError::DeserializationError(_))));
}

#[test]
fn packed_section_decodes_to_the_same_cells() {
    // 20 entries: 5 bits, 12 lanes per word, the top 4 bits of each word unused
    let names: Vec<String> = (0..20).map(|i| format!("block_{i}")).collect();
    let reg = BlockRegistry { entries: names.iter().enumerate().map(|(i, n)| (n.clone(), 100 + i as u16)).collect() };
    let idx: Vec<u64> = (0..SUBCHUNK_VOLUME as u64).map(|j| (j * 7 + j / 13) % 20).collect();
    let words: Vec<i64> = idx
        .chunks(12)
        .map(|lanes| lanes.iter().enumerate().fold(0u64, |w, (k, v)| w | (v << (5 * k))) as i64)
        .collect();
    let refs: Vec<&str> = names.iter().map(|s| s.as_str()).collect();
    let c = chunk(vec![section(0, Some(words), &refs)]);
    let d = match c.to_chunk_data(ChunkPos { x: 0, z: 0 }, &reg) {
        Ok(d) => d,
        Err(e) => panic!("{:?}", e),
    };
    for j in 0..SUBCHUNK_VOLUME {
        assert_eq!(d.blocks[j], 100 + idx[j] as u16);
    }
    assert_eq!(d.blocks[SUBCHUNK_VOLUME], 0);
}
