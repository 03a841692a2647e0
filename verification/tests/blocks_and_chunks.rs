use voxel_quest::blocks::Block;
use voxel_quest::chunk::{ChunkData, LoD, CHUNK_VOLUME};

#[test]
fn solid_blocks_exclude_void_and_water() {
    assert!(!Block::Void.is_solid());
    assert!(!Block::Water.is_solid());
    assert!(Block::Grass.is_solid());
    assert!(Block::BedRock.is_solid());
    assert!(Block::Other(0).is_solid());
}

#[test]
fn named_ids_round_trip() {
    for b in [Block::Void, Block::Grass, Block::Dirt, Block::Stone, Block::BedRock, Block::Snow, Block::Sand] {
        assert_eq!(Block::from_id(b.id()), b);
    }
}

#[test]
fn water_id_decodes_to_void() {
    assert_eq!(Block::Water.id(), 7);
    assert_eq!(Block::from_id(7), Block::Void);
    assert_eq!(Block::from_id(8), Block::Void);
    assert_eq!(Block::from_id(0x7FFF_FFFF), Block::Void);
}

#[test]
fn tagged_ids_decode_to_other_low_byte() {
    assert_eq!(Block::from_id(0x8000_0000), Block::Other(0));
    assert_eq!(Block::from_id(0x8000_0005), Block::Other(5));
    assert_eq!(Block::from_id(0x8000_01FF), Block::Other(0xFF));
    assert_eq!(Block::from_id(0xFFFF_FF2A), Block::Other(0x2A));
    assert_eq!(Block::Other(200).id(), 200);
}

#[test]
fn block_type_matches_id() {
    assert_eq!(Block::Sand.block_type(), 6);
    assert_eq!(Block::Water.block_type(), 7);
    assert_eq!(Block::Other(99).block_type(), 99);
}

#[test]
fn empty_chunk_reads_void_everywhere() {
    let c = ChunkData::empty();
    assert_eq!(c.get_block(0, 0, 0), Block::Void);
    assert_eq!(c.get_block(63, 63, 63), Block::Void);
    assert_eq!(c.get_block(255, 255, 255), Block::Void);
    assert_eq!(c.lod_hint(), LoD::Solid);
}

#[test]
fn storage_index_is_x_fastest() {
    assert_eq!(ChunkData::get_index(0, 0, 0), 0);
    assert_eq!(ChunkData::get_index(1, 0, 0), 1);
    assert_eq!(ChunkData::get_index(0, 1, 0), 64);
    assert_eq!(ChunkData::get_index(0, 0, 1), 4096);
    assert_eq!(ChunkData::get_index(63, 63, 63), CHUNK_VOLUME - 1);
    assert_eq!(ChunkData::get_index(255, 255, 255), 255 * 4096 + 255 * 64 + 255);
}

#[test]
fn set_then_get_reads_back() {
    let mut c = ChunkData::empty();
    c.set_block(3, 4, 5, Block::Stone);
    assert_eq!(c.get_block(3, 4, 5), Block::Stone);
    assert_eq!(c.get_block(4, 4, 5), Block::Void);
    assert_eq!(c.get_block(3, 4, 4), Block::Void);
    c.set_block(0, 0, 0, Block::Grass);
    assert_eq!(c.get_block(0, 0, 0), Block::Grass);
    assert_eq!(c.get_block(3, 4, 5), Block::Stone);
    c.set_block(3, 4, 5, Block::Water);
    assert_eq!(c.get_block(3, 4, 5), Block::Water);
}

#[test]
fn coordinates_past_the_chunk_alias_storage() {
    let mut c = ChunkData::empty();
    c.set_block(64, 0, 0, Block::Dirt);
    assert_eq!(c.get_block(0, 1, 0), Block::Dirt);
    assert_eq!(c.get_block_checked(64, 0, 0), None);
    assert_eq!(c.get_block_checked(0, 1, 0), Some(Block::Dirt));
    assert_eq!(c.get_block_checked(0, 64, 0), None);
    assert_eq!(c.get_block_checked(0, 0, 200), None);
}

#[test]
fn lod_hint_classifies_storage() {
    let mut c = ChunkData::empty();
    c.set_block(0, 0, 0, Block::Stone);
    assert_eq!(c.lod_hint(), LoD::Solid);
    c.set_block(2, 0, 0, Block::Stone);
    assert_eq!(c.lod_hint(), LoD::LOD1);
    let mut e = ChunkData::empty();
    e.set_block(5, 0, 0, Block::Void);
    assert_eq!(e.lod_hint(), LoD::Empty);
}

#[test]
fn test_chunk_is_half_filled() {
    let c = ChunkData::test();
    for (x, y, z) in [(0u8, 0u8, 0u8), (63, 31, 63), (10, 5, 40)] {
        assert!(matches!(c.get_block(x, y, z), Block::Other(_)));
    }
    for (x, y, z) in [(0u8, 32u8, 0u8), (63, 63, 63), (10, 40, 40)] {
        assert_eq!(c.get_block(x, y, z), Block::Void);
    }
}

#[test]
fn image_bytes_hold_block_types() {
    let mut c = ChunkData::empty();
    c.set_block(1, 2, 3, Block::Sand);
    c.set_block(0, 0, 0, Block::Other(77));
    let img = c.to_image();
    assert_eq!(img.len(), 4 * CHUNK_VOLUME);
    let i = ChunkData::get_index(1, 2, 3);
    assert_eq!(img[4 * i], 6);
    assert_eq!(img[4 * i + 1], 0);
    assert_eq!(img[0], 77);
    assert_eq!(img[4], 0);
    assert_eq!(img[4 * (CHUNK_VOLUME - 1)], 0);
}

#[test]
fn dummy_image_is_zero() {
    let img = ChunkData::dummy_image();
    assert_eq!(img.len(), 4 * CHUNK_VOLUME);
    assert!(img.iter().all(|b| *b == 0));
}

#[test]
fn chunk_from_columns_places_each_column() {
    let mut columns = vec![[Block::Void; 64]; 4096];
    columns[5 * 64 + 7][3] = Block::Stone;
    columns[63 * 64 + 63][63] = Block::Snow;
    let c = ChunkData::from_columns(&columns);
    assert_eq!(c.get_block(5, 3, 7), Block::Stone);
    assert_eq!(c.get_block(7, 3, 5), Block::Void);
    assert_eq!(c.get_block(63, 63, 63), Block::Snow);
    assert_eq!(c.lod_hint(), LoD::LOD1);
}
