use voxel_quest::chunk::LoD;
use voxel_quest::mesh::{make_baked_mesh, make_baked_mesh_lod};

#[test]
fn full_detail_mesh_sizes() {
    let m = make_baked_mesh();
    assert_eq!(m.positions.len(), 3 * 64 * 8);
    assert_eq!(m.normals.len(), 3 * 64 * 8);
    assert_eq!(m.indices.len(), 3 * 64 * 12);
}

#[test]
fn full_detail_mesh_first_slab() {
    let m = make_baked_mesh();
    assert_eq!(m.positions[0], (0, 0, 0));
    assert_eq!(m.positions[1], (0, 64, 0));
    assert_eq!(m.positions[2], (64, 64, 0));
    assert_eq!(m.positions[3], (64, 0, 0));
    assert_eq!(m.positions[4], (0, 0, 1));
    assert_eq!(m.normals[0], (0, 0, -1));
    assert_eq!(m.normals[7], (0, 0, 1));
    assert_eq!(&m.indices[0..12], &[0, 1, 2, 0, 2, 3, 4, 6, 5, 4, 7, 6]);
}

#[test]
fn full_detail_mesh_x_and_y_slabs() {
    let m = make_baked_mesh();
    // first x slab starts after 64 z slabs
    assert_eq!(m.positions[512], (0, 0, 0));
    assert_eq!(m.positions[513], (0, 0, 64));
    assert_eq!(m.positions[516 + 8], (2, 0, 0));
    assert_eq!(m.normals[512], (-1, 0, 0));
    assert_eq!(m.indices[768], 512);
    // first y slab
    assert_eq!(m.positions[1024 + 1], (64, 0, 0));
    assert_eq!(m.positions[1024 + 3], (0, 0, 64));
    assert_eq!(m.normals[1024 + 5], (0, 1, 0));
    assert_eq!(m.indices[1536 + 12 * 63 + 11], 1024 + 63 * 8 + 6);
    // last z slab far plane
    assert_eq!(m.positions[63 * 8 + 4], (0, 0, 64));
    assert_eq!(m.positions[63 * 8], (0, 0, 63));
}

#[test]
fn lod_meshes_use_fewer_thicker_slabs() {
    let m = make_baked_mesh_lod(LoD::LOD4);
    assert_eq!(m.positions.len(), 3 * 16 * 8);
    assert_eq!(m.indices.len(), 3 * 16 * 12);
    assert_eq!(m.positions[8], (0, 0, 4));
    assert_eq!(m.positions[12], (0, 0, 8));
    let solid = make_baked_mesh_lod(LoD::Solid);
    let full = make_baked_mesh();
    assert_eq!(solid.positions, full.positions);
    assert_eq!(solid.indices, full.indices);
    let l16 = make_baked_mesh_lod(LoD::LOD16);
    assert_eq!(l16.positions.len(), 3 * 4 * 8);
    assert_eq!(l16.positions[4], (0, 0, 16));
    assert_eq!(l16.positions[3 * 4 * 8 - 1], (0, 64, 64));
    assert_eq!(LoD::LOD16.step(), 16);
    assert_eq!(LoD::Empty.step(), 1);
}
