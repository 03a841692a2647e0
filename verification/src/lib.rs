//! Verified core of a deterministic voxel world: block encoding, chunk storage,
//! chunk coordinates, baked chunk meshes, biome column generation, the chunk
//! generation queue, chunk lookup, menu navigation and the integer side of
//! voxel ray traversal.
pub mod blocks;
pub mod geometry;
pub mod chunk_id;
pub mod chunk;
pub mod mesh;
pub mod biomes;
pub mod queue;
pub mod lookup;
pub mod menu;
pub mod player;
pub mod raycast;
pub mod world;
