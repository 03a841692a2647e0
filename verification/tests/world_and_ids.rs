use voxel_quest::chunk_id::{local_coords, ChunkBlock, ChunkId};
use voxel_quest::geometry::{div_floor_chunk, rem_floor_chunk, Int3};
use voxel_quest::lookup::{ChunkLookup, ChunkParent, ChunkPlacement};
use voxel_quest::world::{chunks_in_box, distance_sq, generation_step, lod_for_distance_sq, MapDescriptor};
use voxel_quest::chunk::LoD;

#[test]
fn floor_division_by_chunk_size() {
    assert_eq!(div_floor_chunk(0), 0);
    assert_eq!(div_floor_chunk(63), 0);
    assert_eq!(div_floor_chunk(64), 1);
    assert_eq!(div_floor_chunk(-1), -1);
    assert_eq!(div_floor_chunk(-64), -1);
    assert_eq!(div_floor_chunk(-65), -2);
    assert_eq!(div_floor_chunk(i32::MIN), -33554432);
    assert_eq!(rem_floor_chunk(-1), 63);
    assert_eq!(rem_floor_chunk(-64), 0);
    assert_eq!(rem_floor_chunk(130), 2);
}

#[test]
fn chunk_of_a_translation() {
    assert_eq!(ChunkId::from_translation(Int3::new(-1, 64, 127)), ChunkId::new(-1, 1, 1));
    assert_eq!(local_coords(Int3::new(-1, 64, 127)), (63, 0, 63));
    assert_eq!(ChunkId::new(2, -3, 0).offset(), Int3::new(128, -192, 0));
}

#[test]
fn chunk_id_arithmetic() {
    let a = ChunkId::new(1, 2, 3);
    let b = ChunkId::new(-4, 5, 0);
    assert_eq!(a.add(b), ChunkId::new(-3, 7, 3));
    assert_eq!(a.sub(b), ChunkId::new(5, -3, 3));
    assert_eq!(a.add_ivec3(Int3::new(1, 1, 1)), ChunkId::new(2, 3, 4));
    let mut c = a;
    c.add_assign(b);
    assert_eq!(c, ChunkId::new(-3, 7, 3));
    c.add_assign_ivec3(Int3::new(3, -7, -3));
    assert_eq!(c, ChunkId::default());
    assert_eq!(ChunkId::new(-7, 7, 8).div(3), ChunkId::new(-2, 2, 2));
    assert_eq!(ChunkId::new(-7, 7, 8).div(-2), ChunkId::new(3, -3, -4));
    assert_eq!(a.chebyshev_distance(b), 5);
    assert_eq!(ChunkId::from_ivec3(Int3::new(9, 8, 7)), ChunkId::new(9, 8, 7));
}

#[test]
fn chunk_blocks_truncate_toward_zero() {
    let b = ChunkBlock::from_chunk_id(ChunkId::new(-4, 4, -2));
    assert_eq!(b, ChunkBlock(Int3::new(-1, 1, 0)));
    assert_eq!(ChunkId::new(-4, 4, -2).sub_block(b), ChunkId::new(-1, 1, -2));
    assert_eq!(b.world_pos(), Int3::new(-192, 192, 0));
}

#[test]
fn lookup_reads_back_what_was_registered() {
    let mut l = ChunkLookup::new(99);
    let a = ChunkId::new(1, 2, 3);
    let b = ChunkId::new(-1, 2, 3);
    assert_eq!(l.get(&a), None);
    l.insert(a, 10);
    l.insert(b, 11);
    assert_eq!(l.get(&a), Some(10));
    assert_eq!(l.get(&b), Some(11));
    l.insert(a, 12);
    assert_eq!(l.get(&a), Some(12));
    l.remove(&a);
    assert_eq!(l.get(&a), None);
    assert_eq!(l.get(&b), Some(11));
    assert_eq!(l.root(), 99);
    let extreme = ChunkId::new(i32::MIN, i32::MAX, 0);
    l.insert(extreme, 5);
    assert_eq!(l.get(&extreme), Some(5));
    assert_eq!(l.get(&ChunkId::new(i32::MAX, i32::MIN, 0)), None);
}

#[test]
fn chunk_insert_hook_spawns_or_reuses_block() {
    let mut l = ChunkLookup::new(1);
    let id = ChunkId::new(4, -1, 0);
    let p = id.on_insert(&mut l, 50, false);
    assert_eq!(
        p,
        Some(ChunkPlacement {
            translation: Int3::new(64, -64, 0),
            parent: ChunkParent::Spawn(ChunkBlock(Int3::new(1, 0, 0))),
        })
    );
    assert_eq!(l.get(&id), Some(50));
    let (root, t) = ChunkBlock(Int3::new(1, 0, 0)).on_insert(&mut l, 60, ChunkId::new(1, 0, 0));
    assert_eq!(root, 1);
    assert_eq!(t, Int3::new(128, 0, 0));
    assert_eq!(l.get_block(&ChunkId::new(5, 2, 1)), Some(60));
    let p2 = ChunkId::new(5, 0, 0).on_insert(&mut l, 51, false);
    assert_eq!(p2.unwrap().parent, ChunkParent::Existing(60));
    assert_eq!(ChunkId::new(9, 9, 9).on_insert(&mut l, 52, true), None);
    assert_eq!(l.get(&ChunkId::new(9, 9, 9)), None);
    id.on_remove(&mut l, true);
    assert_eq!(l.get(&id), Some(50));
    id.on_remove(&mut l, false);
    assert_eq!(l.get(&id), None);
    ChunkBlock(Int3::new(1, 0, 0)).on_remove(&mut l);
    assert_eq!(l.get_block(&ChunkId::new(5, 0, 0)), None);
}

#[test]
fn chunk_boxes_enumerate_in_order() {
    let v = chunks_in_box(Int3::new(-1, 0, -1), Int3::new(0, 0, 0));
    assert_eq!(v, vec![Int3::new(-1, 0, -1), Int3::new(-1, 0, 0), Int3::new(0, 0, -1), Int3::new(0, 0, 0)]);
    assert!(chunks_in_box(Int3::new(0, 0, 0), Int3::new(0, -1, 5)).is_empty());
    let edge = chunks_in_box(Int3::new(i32::MAX - 1, i32::MAX, 0), Int3::new(i32::MAX, i32::MAX, 0));
    assert_eq!(edge, vec![Int3::new(i32::MAX - 1, i32::MAX, 0), Int3::new(i32::MAX, i32::MAX, 0)]);
}

#[test]
fn map_descriptor_boxes() {
    let m = MapDescriptor::default();
    assert_eq!(m.seed, 0);
    assert_eq!(m.world_size, Int3::new(16, 0, 16));
    let init = m.initial_chunks();
    assert_eq!(init.len(), 32 * 1 * 32);
    assert_eq!(init[0], Int3::new(-16, 0, -16));
    assert_eq!(init[init.len() - 1], Int3::new(15, 0, 15));
    let regen = m.regeneration_chunks();
    assert_eq!(regen.len(), 33 * 1 * 33);
    assert!(m.keeps(Int3::new(16, 0, -16)));
    assert!(!m.keeps(Int3::new(17, 0, 0)));
    assert!(!m.keeps(Int3::new(0, 1, 0)));
    let wide = MapDescriptor { seed: 0, world_size: Int3::new(i32::MAX, 0, 0) };
    assert!(wide.keeps(Int3::new(i32::MAX, 0, 0)));
    assert!(wide.keeps(Int3::new(-i32::MAX, 0, 0)));
    assert!(!wide.keeps(Int3::new(i32::MIN, 0, 0)));
}

#[test]
fn lod_by_distance() {
    assert_eq!(lod_for_distance_sq(distance_sq(Int3::new(15, 0, 0))), LoD::LOD1);
    assert_eq!(lod_for_distance_sq(distance_sq(Int3::new(16, 0, 0))), LoD::LOD2);
    assert_eq!(lod_for_distance_sq(distance_sq(Int3::new(30, 20, 0))), LoD::LOD4);
    assert_eq!(lod_for_distance_sq(distance_sq(Int3::new(0, 0, -63))), LoD::LOD8);
    assert_eq!(lod_for_distance_sq(distance_sq(Int3::new(64, 0, 0))), LoD::LOD16);
    assert_eq!(distance_sq(Int3::new(i32::MIN, i32::MIN, i32::MIN)), 3 * (1u64 << 62));
}

#[test]
fn generation_step_decisions() {
    let s = generation_step(false, 0, 0, 250);
    assert!(s.announce_done && s.done && s.generate);
    let s = generation_step(true, 0, 0, 250);
    assert!(!s.announce_done && s.done);
    let s = generation_step(true, 3, 5, 250);
    assert!(!s.announce_done && !s.done && s.generate);
    let s = generation_step(false, 251, 0, 250);
    assert!(!s.generate && !s.done);
    assert!(LoD::LOD1.is_visible());
    assert!(!LoD::Empty.is_visible());
}
