use vstd::prelude::*;
use crate::geometry::{abs_diff, div_floor_chunk, floor_div, fits_i32, rem_floor_chunk, trunc_div, Int3, CHUNK_BLOCK_SIZE};

verus! {

/// The position of a chunk, in chunks.
#[derive(Clone, Copy, PartialEq, Eq, Hash, Debug, Structural)]
pub struct ChunkId(pub Int3);

/// A group of `CHUNK_BLOCK_SIZE`³ chunks that share one parent, in chunk blocks.
#[derive(Clone, Copy, PartialEq, Eq, Hash, Debug, Structural)]
pub struct ChunkBlock(pub Int3);

/// Component-wise floor division by the chunk size.
pub open spec fn spec_chunk_of(pos: Int3) -> Int3 {
    Int3 {
        x: floor_div(pos.x as int, 64) as i32,
        y: floor_div(pos.y as int, 64) as i32,
        z: floor_div(pos.z as int, 64) as i32,
    }
}

/// Component-wise Euclidean remainder by the chunk size.
pub open spec fn spec_local_of(pos: Int3) -> (u8, u8, u8) {
    ((pos.x as int % 64) as u8, (pos.y as int % 64) as u8, (pos.z as int % 64) as u8)
}

/// The chunk block a chunk belongs to: each coordinate divided by
/// `CHUNK_BLOCK_SIZE`, rounding toward zero.
pub open spec fn spec_block_of(id: Int3) -> Int3 {
    Int3 {
        x: trunc_div(id.x as int, 3) as i32,
        y: trunc_div(id.y as int, 3) as i32,
        z: trunc_div(id.z as int, 3) as i32,
    }
}

/// `a / 3` rounding toward zero.
fn trunc_div_3(a: i32) -> (q: i32)
    ensures
        q as int == trunc_div(a as int, 3),
{
    if a >= 0 {
        a / 3
    } else if a == i32::MIN {
        -715827882
    } else {
        -((-a) / 3)
    }
}

/// `a / d` rounding toward zero.
fn trunc_div_i32(a: i32, d: i32) -> (q: i32)
    requires
        d != 0,
        !(a == i32::MIN && d == -1),
    ensures
        q as int == trunc_div(a as int, d as int),
{
    let na: i64 = if a >= 0 { a as i64 } else { -(a as i64) };
    let nd: i64 = if d >= 0 { d as i64 } else { -(d as i64) };
    let q: i64 = na / nd;
    proof {
        vstd::arithmetic::div_mod::lemma_div_is_ordered_by_denominator(na as int, 1, nd as int);
        vstd::arithmetic::div_mod::lemma_div_pos_is_pos(na as int, nd as int);
        if nd >= 2 {
            vstd::arithmetic::div_mod::lemma_div_is_ordered_by_denominator(na as int, 2, nd as int);
        }
    }
    let r: i64 = if (a >= 0) == (d > 0) { q } else { -q };
    r as i32
}

impl Default for ChunkId {
    fn default() -> (r: ChunkId)
        ensures
            r == ChunkId(Int3 { x: 0, y: 0, z: 0 }),
    {
        ChunkId(Int3 { x: 0, y: 0, z: 0 })
    }
}

impl ChunkId {
    pub fn new(x: i32, y: i32, z: i32) -> (r: ChunkId)
        ensures
            r == ChunkId(Int3 { x, y, z }),
    {
        ChunkId(Int3 { x, y, z })
    }

    pub fn from_ivec3(vec: Int3) -> (r: ChunkId)
        ensures
            r == ChunkId(vec),
    {
        ChunkId(vec)
    }

    /// The chunk holding a block position (the floored translation): each
    /// coordinate floor-divided by the chunk size.
    pub fn from_translation(floored: Int3) -> (r: ChunkId)
        ensures
            r == ChunkId(spec_chunk_of(floored)),
    {
        ChunkId(
            Int3 {
                x: div_floor_chunk(floored.x),
                y: div_floor_chunk(floored.y),
                z: div_floor_chunk(floored.z),
            },
        )
    }

    /// The block position of the chunk's origin corner.
    pub fn offset(&self) -> (r: Int3)
        requires
            self.0.scale_fits(64),
        ensures
            r == self.0.spec_scale(64),
    {
        self.0.scale(64)
    }

    /// Component-wise division rounding toward zero.
    pub fn div(self, rhs: i32) -> (r: ChunkId)
        requires
            rhs != 0,
            rhs == -1 ==> (self.0.x != i32::MIN && self.0.y != i32::MIN && self.0.z != i32::MIN),
        ensures
            r == ChunkId(
                Int3 {
                    x: trunc_div(self.0.x as int, rhs as int) as i32,
                    y: trunc_div(self.0.y as int, rhs as int) as i32,
                    z: trunc_div(self.0.z as int, rhs as int) as i32,
                },
            ),
    {
        ChunkId(
            Int3 {
                x: trunc_div_i32(self.0.x, rhs),
                y: trunc_div_i32(self.0.y, rhs),
                z: trunc_div_i32(self.0.z, rhs),
            },
        )
    }

    pub fn add(self, rhs: ChunkId) -> (r: ChunkId)
        requires
            self.0.add_fits(rhs.0),
        ensures
            r == ChunkId(self.0.spec_add(rhs.0)),
    {
        ChunkId(self.0.add(rhs.0))
    }

    pub fn add_assign(&mut self, rhs: ChunkId)
        requires
            old(self).0.add_fits(rhs.0),
        ensures
            *final(self) == ChunkId(old(self).0.spec_add(rhs.0)),
    {
        self.0 = self.0.add(rhs.0);
    }

    pub fn sub(self, rhs: ChunkId) -> (r: ChunkId)
        requires
            self.0.sub_fits(rhs.0),
        ensures
            r == ChunkId(self.0.spec_sub(rhs.0)),
    {
        ChunkId(self.0.sub(rhs.0))
    }

    /// Shift by a vector of chunks.
    pub fn add_ivec3(self, rhs: Int3) -> (r: ChunkId)
        requires
            self.0.add_fits(rhs),
        ensures
            r == ChunkId(self.0.spec_add(rhs)),
    {
        ChunkId(self.0.add(rhs))
    }

    pub fn add_assign_ivec3(&mut self, rhs: Int3)
        requires
            old(self).0.add_fits(rhs),
        ensures
            *final(self) == ChunkId(old(self).0.spec_add(rhs)),
    {
        self.0 = self.0.add(rhs);
    }

    /// The chunk's position within its chunk block: the chunk minus the
    /// block's origin chunk.
    pub fn sub_block(self, rhs: ChunkBlock) -> (r: ChunkId)
        requires
            rhs.0.scale_fits(3),
            self.0.sub_fits(rhs.0.spec_scale(3)),
        ensures
            r == ChunkId(self.0.spec_sub(rhs.0.spec_scale(3))),
    {
        let s = rhs.0.scale(CHUNK_BLOCK_SIZE);
        ChunkId::from_ivec3(self.0.sub(s))
    }

    pub fn chebyshev_distance(&self, other: ChunkId) -> (d: u32)
        ensures
            d as int == self.0.spec_chebyshev(other.0),
    {
        self.0.chebyshev_distance(other.0)
    }
}

/// The chunk-local coordinates of a block position: each coordinate's
/// Euclidean remainder by the chunk size.
pub fn local_coords(pos: Int3) -> (r: (u8, u8, u8))
    ensures
        r == spec_local_of(pos),
        r.0 < 64 && r.1 < 64 && r.2 < 64,
{
    (rem_floor_chunk(pos.x), rem_floor_chunk(pos.y), rem_floor_chunk(pos.z))
}

impl ChunkBlock {
    /// The chunk block containing a chunk.
    pub fn from_chunk_id(value: ChunkId) -> (r: ChunkBlock)
        ensures
            r == ChunkBlock(spec_block_of(value.0)),
    {
        ChunkBlock(
            Int3 {
                x: trunc_div_3(value.0.x),
                y: trunc_div_3(value.0.y),
                z: trunc_div_3(value.0.z),
            },
        )
    }

    /// The block position of the chunk block's origin corner.
    pub fn world_pos(&self) -> (r: Int3)
        requires
            self.0.scale_fits(192),
        ensures
            r == self.0.spec_scale(192),
    {
        self.0.scale(CHUNK_BLOCK_SIZE * 64)
    }
}

/// Splitting a block position into chunk and chunk-local part loses nothing:
/// the chunk's origin plus the local coordinates is the position, the local
/// coordinates lie in `0..64`, and no other chunk and local pair in range
/// gives the same position.
pub proof fn lemma_chunk_local_split(pos: Int3, c: Int3, l: (u8, u8, u8))
    requires
        l.0 < 64 && l.1 < 64 && l.2 < 64,
        c.x * 64 + l.0 == pos.x,
        c.y * 64 + l.1 == pos.y,
        c.z * 64 + l.2 == pos.z,
    ensures
        c == spec_chunk_of(pos),
        l == spec_local_of(pos),
{
    vstd::arithmetic::div_mod::lemma_fundamental_div_mod_converse(pos.x as int, 64, c.x as int, l.0 as int);
    vstd::arithmetic::div_mod::lemma_fundamental_div_mod_converse(pos.y as int, 64, c.y as int, l.1 as int);
    vstd::arithmetic::div_mod::lemma_fundamental_div_mod_converse(pos.z as int, 64, c.z as int, l.2 as int);
}

/// Every block position is the origin of its chunk plus its local coordinates.
pub proof fn lemma_chunk_origin_plus_local(pos: Int3)
    ensures
        spec_chunk_of(pos).x * 64 + spec_local_of(pos).0 == pos.x,
        spec_chunk_of(pos).y * 64 + spec_local_of(pos).1 == pos.y,
        spec_chunk_of(pos).z * 64 + spec_local_of(pos).2 == pos.z,
        spec_local_of(pos).0 < 64 && spec_local_of(pos).1 < 64 && spec_local_of(pos).2 < 64,
{
    assert(pos.x as int == 64 * (pos.x as int / 64) + pos.x as int % 64);
    assert(pos.y as int == 64 * (pos.y as int / 64) + pos.y as int % 64);
    assert(pos.z as int == 64 * (pos.z as int / 64) + pos.z as int % 64);
}

/// A chunk's position inside its chunk block lies strictly between -3 and 3 on
/// every axis, with the sign of the chunk's own coordinate, and adding it to the
/// block's origin chunk gives the chunk back.
pub proof fn lemma_chunk_block_split(id: Int3)
    ensures
        ({
            let b = spec_block_of(id);
            &&& b.x * 3 + (id.x - b.x * 3) == id.x
            &&& -3 < id.x - b.x * 3 < 3 && -3 < id.y - b.y * 3 < 3 && -3 < id.z - b.z * 3 < 3
            &&& (id.x >= 0 ==> id.x - b.x * 3 >= 0) && (id.x < 0 ==> id.x - b.x * 3 <= 0)
            &&& (id.y >= 0 ==> id.y - b.y * 3 >= 0) && (id.y < 0 ==> id.y - b.y * 3 <= 0)
            &&& (id.z >= 0 ==> id.z - b.z * 3 >= 0) && (id.z < 0 ==> id.z - b.z * 3 <= 0)
        }),
{
}

} // verus!
