use voxel_quest::blocks::Block;
use voxel_quest::chunk::ChunkData;
use voxel_quest::chunk_id::ChunkId;
use voxel_quest::geometry::Int3;
use voxel_quest::player::{block_location, shift_offset, world_shift, Grounded, MoveMode, RenderDistance};
use voxel_quest::queue::{compare_far_first, ChunkQueue};
use voxel_quest::raycast::{chebyshev_dist, get_block_type, ray_chunk, RayCursor, RaycastResult};
use core::cmp::Ordering;

#[test]
fn render_distance_defaults_and_compares() {
    let d = RenderDistance::default();
    assert_eq!(d, RenderDistance(10));
    assert!(d.eq_u32(&10));
    assert_eq!(d.partial_cmp_u32(&11), Some(Ordering::Less));
    assert_eq!(d.partial_cmp_u32(&10), Some(Ordering::Equal));
    assert_eq!(d.partial_cmp_u32(&3), Some(Ordering::Greater));
    assert!(d.shows(ChunkId::new(10, -10, 0), ChunkId::default()));
    assert!(!d.shows(ChunkId::new(11, 0, 0), ChunkId::default()));
    assert!(d.shows(ChunkId::new(11, 0, 0), ChunkId::new(5, 0, 0)));
    assert_eq!(MoveMode::default(), MoveMode::Fly);
}

#[test]
fn world_shifts_when_player_strays() {
    assert_eq!(world_shift(ChunkId::new(1, -1, 0)), None);
    assert_eq!(world_shift(ChunkId::new(2, 0, -5)), Some(Int3::new(1, 0, -1)));
    assert_eq!(world_shift(ChunkId::new(0, 3, 1)), Some(Int3::new(0, 1, 1)));
    assert_eq!(shift_offset(Int3::new(1, 0, -1)), Int3::new(64, 0, -64));
}

#[test]
fn block_locations_shift_half_a_chunk() {
    let (c, l) = block_location(Int3::new(0, 0, 0), ChunkId::default());
    assert_eq!(c, ChunkId::new(0, 0, 0));
    assert_eq!(l, (32, 32, 32));
    let (c, l) = block_location(Int3::new(-33, 31, 32), ChunkId::new(1, 1, 1));
    assert_eq!(c, ChunkId::new(0, 1, 2));
    assert_eq!(l, (63, 63, 0));
}

#[test]
fn grounded_operations() {
    assert!(Grounded(true).bitor(false));
    assert!(!Grounded(false).bitor(false));
    assert!(!Grounded(true).bitand(false));
    assert_eq!(Grounded::from_block(None), Grounded(true));
    assert_eq!(Grounded::from_block(Some(Block::Water)), Grounded(false));
    assert_eq!(Grounded::from_block(Some(Block::Dirt)), Grounded(true));
    assert_eq!(Grounded::default(), Grounded(false));
}

#[test]
fn queue_sorts_far_first_and_hands_out_nearest() {
    let mut q = ChunkQueue::new();
    q.que((5, 0, 0));
    q.que((1, 0, 0));
    q.que((-3, 0, 0));
    q.que((1, 0, 0));
    q.que((0, 2, 1));
    assert_eq!(q.len(), 4);
    let batch = q.take_batch((0, 0, 0), 2);
    assert_eq!(batch, vec![(1, 0, 0), (0, 2, 1)]);
    assert_eq!(q.len(), 2);
    let batch = q.take_batch((0, 0, 0), 10);
    assert_eq!(batch, vec![(-3, 0, 0), (5, 0, 0)]);
    assert!(q.is_empty());
    assert!(q.take_batch((0, 0, 0), 3).is_empty());
}

#[test]
fn queue_keeps_ties_in_insertion_order() {
    let mut q = ChunkQueue::new();
    q.que((2, 0, 0));
    q.que((0, 2, 0));
    q.que((0, 0, 2));
    q.sort_que((0, 0, 0));
    let batch = q.take_batch((0, 0, 0), 3);
    assert_eq!(batch, vec![(0, 0, 2), (0, 2, 0), (2, 0, 0)]);
    assert_eq!(compare_far_first(&(3, 0, 0), &(1, 0, 0), (0, 0, 0)), Ordering::Less);
    assert_eq!(compare_far_first(&(1, 0, 0), &(0, 1, 0), (0, 0, 0)), Ordering::Equal);
}

#[test]
fn queue_resorts_only_when_dirty() {
    let mut q = ChunkQueue::new();
    q.que((1, 0, 0));
    q.que((9, 0, 0));
    q.sort_que((0, 0, 0));
    // sorted far first around the origin: (9,0,0), (1,0,0)
    q.sort_que((10, 0, 0));
    let batch = q.take_batch((10, 0, 0), 1);
    assert_eq!(batch, vec![(1, 0, 0)]);
    q.que((2, 0, 0));
    q.set_dirty();
    let batch = q.take_batch((10, 0, 0), 1);
    assert_eq!(batch, vec![(9, 0, 0)]);
}

#[test]
fn ray_steps_through_blocks_and_chunks() {
    let mut ray = RayCursor::new(Int3::new(30, 0, 0), Int3::new(30, 0, 0), 5);
    assert_eq!(ray.chunk_id, ChunkId::new(0, 0, 0));
    assert_eq!(ray.get_local_coords(), (62, 32, 32));
    let empty = ChunkData::empty();
    assert_eq!(ray.visit(&empty, true, Int3::new(1, 0, 0)), RaycastResult::Next(ChunkId::new(0, 0, 0)));
    assert_eq!(ray.visit(&empty, true, Int3::new(1, 0, 0)), RaycastResult::Next(ChunkId::new(1, 0, 0)));
    assert_eq!(ray.current, Int3::new(32, 0, 0));
    ray.enter_chunk(ChunkId::new(1, 0, 0));
    let path = ray.drain_path();
    assert_eq!(path, vec![Int3::new(30, 0, 0), Int3::new(31, 0, 0)]);
    for _ in 0..3 {
        assert_eq!(ray.visit(&empty, true, Int3::new(1, 0, 0)), RaycastResult::Next(ChunkId::new(1, 0, 0)));
    }
    assert_eq!(ray.visit(&empty, true, Int3::new(1, 0, 0)), RaycastResult::Done);
    assert_eq!(ray.chunk_path.len(), 4);
}

#[test]
fn ray_stops_on_solid_blocks() {
    let mut data = ChunkData::empty();
    data.set_block(33, 32, 32, Block::Stone);
    let mut ray = RayCursor::new(Int3::new(0, 0, 0), Int3::new(0, 0, 0), 5);
    assert_eq!(ray.visit(&data, true, Int3::new(1, 0, 0)), RaycastResult::Next(ChunkId::new(0, 0, 0)));
    assert_eq!(ray.visit(&data, true, Int3::new(1, 0, 0)), RaycastResult::Hit(Int3::new(1, 0, 0)));
    let mut through = RayCursor::new(Int3::new(1, 0, 0), Int3::new(0, 0, 0), 5);
    assert_eq!(through.visit(&data, false, Int3::new(1, 0, 0)), RaycastResult::Next(ChunkId::new(0, 0, 0)));
    assert_eq!(through.current, Int3::new(2, 0, 0));
    assert_eq!(get_block_type(Some(&data), Int3::new(1, 0, 0)), Block::Stone);
    assert_eq!(get_block_type(None, Int3::new(1, 0, 0)), Block::Void);
    assert_eq!(ray_chunk(Int3::new(-33, 31, 32)), ChunkId::new(-1, 0, 1));
    assert_eq!(chebyshev_dist(Int3::new(0, 0, 0), Int3::new(-3, 7, 2)), 7);
}

#[test]
fn step_in_the_same_chunk_reports_that_chunk() {
    let mut ray = RayCursor::new(Int3::new(0, 0, 0), Int3::new(0, 0, 0), 5);
    assert_eq!(ray.step_ray(Int3::new(1, 1, 0)), Some((ChunkId::new(0, 0, 0), false)));
    assert_eq!(ray.step_ray(Int3::new(0, 0, 31)), Some((ChunkId::new(0, 0, 0), true)));
    let mut near_edge = RayCursor::new(Int3::new(31, 0, 0), Int3::new(31, 0, 0), 5);
    assert_eq!(near_edge.step_ray(Int3::new(1, 0, 0)), Some((ChunkId::new(1, 0, 0), false)));
}

#[test]
fn ray_path_stays_within_its_range() {
    let empty = ChunkData::empty();
    let origin = Int3::new(5, -3, 7);
    let mut ray = RayCursor::new(origin, origin, 2);
    let mut path = Vec::new();
    loop {
        match ray.visit(&empty, true, Int3::new(1, -1, 0)) {
            RaycastResult::Next(c) => ray.enter_chunk(c),
            RaycastResult::Done | RaycastResult::Hit(_) => break,
        }
        path.extend(ray.drain_path());
    }
    path.extend(ray.drain_path());
    assert_eq!(path, vec![Int3::new(5, -3, 7), Int3::new(6, -4, 7), Int3::new(7, -5, 7)]);
    assert!(path.iter().all(|b| chebyshev_dist(origin, *b) <= 2));
    assert_eq!(ray.max_chebyshev, 2);
    assert_eq!(ray.origin_block, origin);
}
