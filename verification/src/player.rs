use vstd::prelude::*;
use core::cmp::Ordering;
use crate::blocks::{spec_is_solid, Block};
use crate::chunk_id::{spec_chunk_of, spec_local_of, ChunkId};
use crate::geometry::{fits_i32, Int3, HALF_CHUNK};

verus! {

/// How the player moves.
#[derive(Clone, Copy, PartialEq, Eq, Hash, Debug, Structural)]
pub enum MoveMode {
    Fly,
    Walk,
}

impl Default for MoveMode {
    fn default() -> (r: MoveMode)
        ensures
            r == MoveMode::Fly,
    {
        MoveMode::Fly
    }
}

/// Why a block could not be read from the map.
#[derive(Clone, Copy, PartialEq, Eq, Debug, Structural)]
pub enum MapError {
    NoEntity,
    NoChunk,
    NoChunkData,
    NoBlock,
}

/// The distance, in chunks, at which chunks are shown.
#[derive(Clone, Copy, PartialEq, Eq, Debug, Structural)]
pub struct RenderDistance(pub u32);

impl Default for RenderDistance {
    fn default() -> (r: RenderDistance)
        ensures
            r == RenderDistance(10),
    {
        RenderDistance(10)
    }
}

impl RenderDistance {
    /// Compares with a plain distance.
    pub fn eq_u32(&self, other: &u32) -> (r: bool)
        ensures
            r == (self.0 == *other),
    {
        self.0 == *other
    }

    /// Orders against a plain distance.
    pub fn partial_cmp_u32(&self, other: &u32) -> (r: Option<Ordering>)
        ensures
            r == Some(
                if self.0 < *other {
                    Ordering::Less
                } else if self.0 == *other {
                    Ordering::Equal
                } else {
                    Ordering::Greater
                },
            ),
    {
        if self.0 < *other {
            Some(Ordering::Less)
        } else if self.0 == *other {
            Some(Ordering::Equal)
        } else {
            Some(Ordering::Greater)
        }
    }

    /// Whether a chunk is shown when the world is offset by `offset`: its
    /// Chebyshev distance from the offset is at most the render distance.
    pub fn shows(&self, chunk: ChunkId, offset: ChunkId) -> (r: bool)
        ensures
            r == (chunk.0.spec_chebyshev(offset.0) <= self.0),
    {
        let distance = chunk.chebyshev_distance(offset);
        !(self.0 < distance)
    }
}

/// Whether the player stands on something.
#[derive(Clone, Copy, PartialEq, Eq, Debug, Structural)]
pub struct Grounded(pub bool);

impl Default for Grounded {
    fn default() -> (r: Grounded)
        ensures
            r == Grounded(false),
    {
        Grounded(false)
    }
}

impl Grounded {
    pub fn bitor(self, rhs: bool) -> (r: bool)
        ensures
            r == (self.0 || rhs),
    {
        self.0 || rhs
    }

    pub fn bitand(self, rhs: bool) -> (r: bool)
        ensures
            r == (self.0 && rhs),
    {
        self.0 && rhs
    }

    /// Grounded when the block under the feet is solid, or when it cannot be
    /// read (the chunk is not loaded).
    pub fn from_block(block: Option<Block>) -> (r: Grounded)
        ensures
            r == Grounded(
                match block {
                    Some(b) => spec_is_solid(b),
                    None => true,
                },
            ),
    {
        match block {
            Some(b) => Grounded(b.is_solid()),
            None => Grounded(true),
        }
    }
}

/// Where a floored world position lies: world positions are shifted half a
/// chunk into chunk space, then split into the chunk (offset by the world
/// offset) and the block inside it.
pub fn block_location(floored: Int3, world_offset: ChunkId) -> (r: (ChunkId, (u8, u8, u8)))
    requires
        fits_i32(floored.x + 32) && fits_i32(floored.y + 32) && fits_i32(floored.z + 32),
        spec_chunk_of(floored.spec_add(Int3 { x: 32, y: 32, z: 32 })).add_fits(world_offset.0),
    ensures
        ({
            let p = floored.spec_add(Int3 { x: 32, y: 32, z: 32 });
            &&& r.0 == ChunkId(spec_chunk_of(p).spec_add(world_offset.0))
            &&& r.1 == spec_local_of(p)
        }),
{
    let p = floored.add(Int3::splat(HALF_CHUNK));
    let chunk = ChunkId::from_translation(p).add(world_offset);
    (chunk, crate::chunk_id::local_coords(p))
}

/// When the player has wandered more than one chunk from the origin on some
/// axis, the world must be shifted by the player's chunk, clamped to one chunk
/// per axis.
pub open spec fn spec_world_shift(pos: Int3) -> Option<Int3> {
    let clamp = |v: i32| if v < -1 { -1i32 } else if v > 1 { 1i32 } else { v };
    if pos.x < -1 || pos.x > 1 || pos.y < -1 || pos.y > 1 || pos.z < -1 || pos.z > 1 {
        Some(Int3 { x: clamp(pos.x), y: clamp(pos.y), z: clamp(pos.z) })
    } else {
        None
    }
}

fn clamp_unit(v: i32) -> (r: i32)
    ensures
        r == if v < -1 { -1i32 } else if v > 1 { 1i32 } else { v },
{
    if v < -1 {
        -1
    } else if v > 1 {
        1
    } else {
        v
    }
}

/// The shift the world must make for the player's current chunk, if any.
pub fn world_shift(pos: ChunkId) -> (r: Option<Int3>)
    ensures
        r == spec_world_shift(pos.0),
{
    let p = pos.0;
    if p.x < -1 || p.x > 1 || p.y < -1 || p.y > 1 || p.z < -1 || p.z > 1 {
        Some(Int3 { x: clamp_unit(p.x), y: clamp_unit(p.y), z: clamp_unit(p.z) })
    } else {
        None
    }
}

/// How far, in blocks, everything local moves back when the world shifts.
pub fn shift_offset(shift: Int3) -> (r: Int3)
    requires
        shift.scale_fits(64),
    ensures
        r == shift.spec_scale(64),
{
    shift.scale(64)
}

/// The world shifts exactly when the player's chunk is more than one chunk
/// from the origin in Chebyshev distance, whichever axis and direction that
/// is; the shift is the player's chunk clamped to one chunk per axis (each
/// component in `-1..=1`, keeping its sign, and unchanged where it already
/// lies in that range), so straying the opposite way shifts the opposite way.
pub proof fn lemma_world_shift_recenters(p: Int3)
    ensures
        spec_world_shift(p) is Some <==> p.spec_chebyshev(Int3 { x: 0, y: 0, z: 0 }) > 1,
        spec_world_shift(p) matches Some(r) ==> {
            &&& -1 <= r.x <= 1 && -1 <= r.y <= 1 && -1 <= r.z <= 1
            &&& (-1 <= p.x <= 1 ==> r.x == p.x) && (p.x > 1 ==> r.x == 1) && (p.x < -1 ==> r.x == -1)
            &&& (-1 <= p.y <= 1 ==> r.y == p.y) && (p.y > 1 ==> r.y == 1) && (p.y < -1 ==> r.y == -1)
            &&& (-1 <= p.z <= 1 ==> r.z == p.z) && (p.z > 1 ==> r.z == 1) && (p.z < -1 ==> r.z == -1)
        },
        p.x > i32::MIN && p.y > i32::MIN && p.z > i32::MIN ==> {
            let q = Int3 { x: -p.x as i32, y: -p.y as i32, z: -p.z as i32 };
            match (spec_world_shift(p), spec_world_shift(q)) {
                (Some(r), Some(t)) => t.x == -r.x && t.y == -r.y && t.z == -r.z,
                (None, None) => true,
                _ => false,
            }
        },
{
}

proof fn lemma_floor_div_shift(a: int, s: int)
    ensures
        (a - 64 * s) / 64 == a / 64 - s,
{
    assert(a == 64 * (a / 64) + a % 64);
    vstd::arithmetic::div_mod::lemma_fundamental_div_mod_converse(a - 64 * s, 64, a / 64 - s, a % 64);
}

/// Shifting the world keeps every position's global chunk: moving a local
/// position back by `shift` chunks while adding `shift` to the world offset
/// leaves its chunk plus the offset unchanged.
pub proof fn lemma_shift_keeps_global_chunk(p: Int3, shift: Int3, offset: Int3)
    requires
        fits_i32(p.x - 64 * shift.x),
        fits_i32(p.y - 64 * shift.y),
        fits_i32(p.z - 64 * shift.z),
    ensures
        spec_chunk_of(
            Int3 {
                x: (p.x - 64 * shift.x) as i32,
                y: (p.y - 64 * shift.y) as i32,
                z: (p.z - 64 * shift.z) as i32,
            },
        ).x + (offset.x + shift.x) == spec_chunk_of(p).x + offset.x,
        spec_chunk_of(
            Int3 {
                x: (p.x - 64 * shift.x) as i32,
                y: (p.y - 64 * shift.y) as i32,
                z: (p.z - 64 * shift.z) as i32,
            },
        ).y + (offset.y + shift.y) == spec_chunk_of(p).y + offset.y,
        spec_chunk_of(
            Int3 {
                x: (p.x - 64 * shift.x) as i32,
                y: (p.y - 64 * shift.y) as i32,
                z: (p.z - 64 * shift.z) as i32,
            },
        ).z + (offset.z + shift.z) == spec_chunk_of(p).z + offset.z,
{
    lemma_floor_div_shift(p.x as int, shift.x as int);
    lemma_floor_div_shift(p.y as int, shift.y as int);
    lemma_floor_div_shift(p.z as int, shift.z as int);
}

} // verus!
