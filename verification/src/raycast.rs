use vstd::prelude::*;
use crate::blocks::{spec_is_solid, Block};
use crate::chunk::ChunkData;
use crate::chunk_id::{local_coords, spec_chunk_of, spec_local_of, ChunkId};
use crate::geometry::{fits_i32, Int3, HALF_CHUNK};

verus! {

/// Whether a ray stops at the first solid block or passes through.
#[derive(Clone, Copy, PartialEq, Eq, Debug, Structural)]
pub enum SolidHitMode {
    StopOnSolid,
    ContinueThroughSolid,
}

/// What walking a ray through one chunk ended with.
#[derive(Clone, Copy, PartialEq, Eq, Debug, Structural)]
pub enum RaycastResult {
    /// The ray hit a solid block at this position.
    Hit(Int3),
    /// The ray goes on in this chunk: the one it just entered, or the same one.
    Next(ChunkId),
    /// The ray went past its distance limit.
    Done,
}

/// A block position shifted half a chunk, into the space chunks are cut from.
pub open spec fn spec_chunk_space(b: Int3) -> Int3 {
    b.spec_add(Int3 { x: HALF_CHUNK, y: HALF_CHUNK, z: HALF_CHUNK })
}

pub open spec fn chunk_space_fits(b: Int3) -> bool {
    fits_i32(b.x + 32) && fits_i32(b.y + 32) && fits_i32(b.z + 32)
}

/// The chunk a world block lies in.
pub open spec fn spec_ray_chunk(b: Int3) -> ChunkId {
    ChunkId(spec_chunk_of(spec_chunk_space(b)))
}

/// Chunks are centred on their origin: a world block lies in the chunk whose
/// center is within half a chunk of it, chunk `c` covering blocks
/// `64 c - 32` up to but not including `64 c + 32` on each axis.
pub proof fn lemma_ray_chunk_bounds(b: Int3)
    requires
        chunk_space_fits(b),
    ensures
        ({
            let c = spec_ray_chunk(b).0;
            &&& c.x * 64 - 32 <= b.x < c.x * 64 + 32
            &&& c.y * 64 - 32 <= b.y < c.y * 64 + 32
            &&& c.z * 64 - 32 <= b.z < c.z * 64 + 32
        }),
{
    crate::chunk_id::lemma_chunk_origin_plus_local(spec_chunk_space(b));
}

/// The integer side of a voxel ray walk: the block the ray is in, the chunk
/// being walked, the distance limit, and the blocks visited in this chunk.
pub struct RayCursor {
    pub current: Int3,
    pub chunk_id: ChunkId,
    pub origin_block: Int3,
    pub max_chebyshev: u32,
    pub current_chebyshev: u32,
    pub chunk_path: Vec<Int3>,
}

/// The block position in chunk space.
pub fn to_chunk_space_block(block: Int3) -> (r: Int3)
    requires
        chunk_space_fits(block),
    ensures
        r == spec_chunk_space(block),
{
    block.add(Int3::splat(HALF_CHUNK))
}

/// The chunk a world block lies in.
pub fn ray_chunk(block: Int3) -> (r: ChunkId)
    requires
        chunk_space_fits(block),
    ensures
        r == spec_ray_chunk(block),
{
    ChunkId::from_translation(to_chunk_space_block(block))
}

/// The block at a world position, read from the data of the chunk holding it;
/// `Void` when that chunk is not loaded.
pub fn get_block_type(chunk_data: Option<&ChunkData>, block: Int3) -> (r: Block)
    requires
        chunk_space_fits(block),
    ensures
        r == match chunk_data {
            Some(d) => {
                let l = spec_local_of(spec_chunk_space(block));
                d.spec_get(l.0, l.1, l.2)
            },
            None => Block::Void,
        },
{
    match chunk_data {
        None => Block::Void,
        Some(d) => {
            let l = local_coords(to_chunk_space_block(block));
            match d.get_block_checked(l.0, l.1, l.2) {
                Some(b) => b,
                None => Block::Void,
            }
        },
    }
}

impl RayCursor {
    /// The current block and every block visited in this chunk lie within the
    /// distance limit (in Chebyshev blocks) of the origin block.
    pub open spec fn in_range(&self) -> bool {
        &&& self.origin_block.spec_chebyshev(self.current) <= self.max_chebyshev
        &&& forall|i: int|
            0 <= i < self.chunk_path@.len() ==> self.origin_block.spec_chebyshev(
                #[trigger] self.chunk_path@[i],
            ) <= self.max_chebyshev
    }

    /// A ray starting in block `current`, measuring distance from
    /// `origin_block`, limited to `max_chebyshev` blocks.
    pub fn new(current: Int3, origin_block: Int3, max_chebyshev: u32) -> (r: RayCursor)
        requires
            chunk_space_fits(current),
        ensures
            r.current == current,
            r.chunk_id == spec_ray_chunk(current),
            r.origin_block == origin_block,
            r.max_chebyshev == max_chebyshev,
            r.current_chebyshev == 0,
            r.chunk_path@ == Seq::<Int3>::empty(),
            origin_block.spec_chebyshev(current) <= max_chebyshev ==> r.in_range(),
    {
        RayCursor {
            current,
            chunk_id: ray_chunk(current),
            origin_block,
            max_chebyshev,
            current_chebyshev: 0,
            chunk_path: Vec::new(),
        }
    }

    /// The chunk-local coordinates of the current block.
    pub fn get_local_coords(&self) -> (r: (u8, u8, u8))
        requires
            chunk_space_fits(self.current),
        ensures
            r == spec_local_of(spec_chunk_space(self.current)),
    {
        local_coords(to_chunk_space_block(self.current))
    }

    /// Moves to the next block by `step` and reports the chunk the walk goes on
    /// in: past the distance limit, the current chunk with `true`; otherwise the
    /// chunk of the new block with `false`, which is the current chunk when
    /// no chunk boundary was crossed.
    pub fn step_ray(&mut self, step: Int3) -> (r: Option<(ChunkId, bool)>)
        requires
            old(self).current.add_fits(step),
            chunk_space_fits(old(self).current.spec_add(step)),
        ensures
            final(self).current == old(self).current.spec_add(step),
            final(self).current_chebyshev as int == old(self).origin_block.spec_chebyshev(
                final(self).current,
            ),
            final(self).chunk_id == old(self).chunk_id,
            final(self).origin_block == old(self).origin_block,
            final(self).max_chebyshev == old(self).max_chebyshev,
            final(self).chunk_path@ == old(self).chunk_path@,
            r == if final(self).current_chebyshev > old(self).max_chebyshev {
                Some((old(self).chunk_id, true))
            } else if spec_ray_chunk(final(self).current) != old(self).chunk_id {
                Some((spec_ray_chunk(final(self).current), false))
            } else {
                Some((old(self).chunk_id, false))
            },
    {
        self.current = self.current.add(step);
        self.current_chebyshev = self.origin_block.chebyshev_distance(self.current);
        if self.current_chebyshev > self.max_chebyshev {
            return Some((self.chunk_id, true));
        }
        let new_chunk_id = ray_chunk(self.current);
        if new_chunk_id != self.chunk_id {
            Some((new_chunk_id, false))
        } else {
            Some((self.chunk_id, false))
        }
    }

    /// Visits the current block of the chunk being walked: records it, stops on
    /// it if it is solid and the ray stops on solids, else steps by `step` and
    /// says where the walk goes on: `Done` past its range, else `Next` of the
    /// chunk holding the new block (the same chunk when no boundary was
    /// crossed).
    pub fn visit(&mut self, chunk: &ChunkData, stop_on_solid: bool, step: Int3) -> (r: RaycastResult)
        requires
            chunk_space_fits(old(self).current),
            old(self).current.add_fits(step),
            chunk_space_fits(old(self).current.spec_add(step)),
        ensures
            final(self).chunk_path@ == old(self).chunk_path@.push(old(self).current),
            final(self).chunk_id == old(self).chunk_id,
            final(self).origin_block == old(self).origin_block,
            final(self).max_chebyshev == old(self).max_chebyshev,
            old(self).in_range() ==> forall|i: int|
                0 <= i < final(self).chunk_path@.len() ==> final(self).origin_block.spec_chebyshev(
                    #[trigger] final(self).chunk_path@[i],
                ) <= final(self).max_chebyshev,
            old(self).in_range() && !(r is Done) ==> final(self).in_range(),
            ({
                let l = spec_local_of(spec_chunk_space(old(self).current));
                let solid = spec_is_solid(chunk.spec_get(l.0, l.1, l.2));
                if solid && stop_on_solid {
                    &&& r == RaycastResult::Hit(old(self).current)
                    &&& final(self).current == old(self).current
                    &&& final(self).current_chebyshev == old(self).current_chebyshev
                } else {
                    &&& final(self).current == old(self).current.spec_add(step)
                    &&& final(self).current_chebyshev as int == old(self).origin_block.spec_chebyshev(
                        final(self).current,
                    )
                    &&& r == if final(self).current_chebyshev > old(self).max_chebyshev {
                        RaycastResult::Done
                    } else {
                        RaycastResult::Next(spec_ray_chunk(final(self).current))
                    }
                }
            }),
    {
        let (x, y, z) = self.get_local_coords();
        let block = match chunk.get_block_checked(x, y, z) {
            Some(b) => b,
            None => Block::Void,
        };
        self.chunk_path.push(self.current);
        if block.is_solid() && stop_on_solid {
            return RaycastResult::Hit(self.current);
        }
        match self.step_ray(step) {
            Some((next_chunk_id, exceeded)) => {
                if exceeded {
                    RaycastResult::Done
                } else {
                    RaycastResult::Next(next_chunk_id)
                }
            },
            None => RaycastResult::Done,
        }
    }

    /// Moves the walk into another chunk.
    pub fn enter_chunk(&mut self, next: ChunkId)
        ensures
            final(self).chunk_id == next,
            final(self).current == old(self).current,
            final(self).chunk_path@ == old(self).chunk_path@,
            final(self).origin_block == old(self).origin_block,
            final(self).max_chebyshev == old(self).max_chebyshev,
            final(self).current_chebyshev == old(self).current_chebyshev,
    {
        self.chunk_id = next;
    }

    /// Hands over the blocks visited in this chunk, leaving none.
    pub fn drain_path(&mut self) -> (r: Vec<Int3>)
        ensures
            r@ == old(self).chunk_path@,
            final(self).chunk_path@ == Seq::<Int3>::empty(),
            final(self).current == old(self).current,
            final(self).chunk_id == old(self).chunk_id,
            final(self).origin_block == old(self).origin_block,
            final(self).max_chebyshev == old(self).max_chebyshev,
            final(self).current_chebyshev == old(self).current_chebyshev,
            old(self).in_range() ==> final(self).in_range(),
    {
        let mut path = Vec::new();
        std::mem::swap(&mut path, &mut self.chunk_path);
        path
    }
}

/// Chebyshev distance between two blocks.
pub fn chebyshev_dist(a: Int3, b: Int3) -> (d: u32)
    ensures
        d as int == a.spec_chebyshev(b),
{
    a.chebyshev_distance(b)
}

} // verus!
