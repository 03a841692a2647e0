use vstd::prelude::*;

verus! {

/// A voxel. The first eight kinds have fixed ids; `Other` carries a free byte.
#[derive(Clone, Copy, PartialEq, Eq, Hash, Debug, Structural)]
pub enum Block {
    Void,
    Grass,
    Dirt,
    Stone,
    BedRock,
    Snow,
    Sand,
    Water,
    Other(u8),
}

/// The wire id of a block.
pub open spec fn spec_block_id(b: Block) -> u32 {
    match b {
        Block::Void => 0,
        Block::Grass => 1,
        Block::Dirt => 2,
        Block::Stone => 3,
        Block::BedRock => 4,
        Block::Snow => 5,
        Block::Sand => 6,
        Block::Water => 7,
        Block::Other(v) => v as u32,
    }
}

/// The block a wire id decodes to: ids 0 to 6 name a kind, an id with the top
/// bit set is `Other` of its low byte, anything else is `Void`.
pub open spec fn spec_block_from_id(id: u32) -> Block {
    if id == 0 {
        Block::Void
    } else if id == 1 {
        Block::Grass
    } else if id == 2 {
        Block::Dirt
    } else if id == 3 {
        Block::Stone
    } else if id == 4 {
        Block::BedRock
    } else if id == 5 {
        Block::Snow
    } else if id == 6 {
        Block::Sand
    } else if id >= 0x8000_0000 {
        Block::Other((id % 256) as u8)
    } else {
        Block::Void
    }
}

/// Whether a block stops movement and rays.
pub open spec fn spec_is_solid(b: Block) -> bool {
    !(b is Void || b is Water)
}

impl Block {
    pub fn is_solid(&self) -> (r: bool)
        ensures
            r == spec_is_solid(*self),
    {
        match self {
            Block::Void | Block::Water => false,
            _ => true,
        }
    }

    pub fn id(&self) -> (r: u32)
        ensures
            r == spec_block_id(*self),
    {
        match self {
            Block::Void => 0,
            Block::Grass => 1,
            Block::Dirt => 2,
            Block::Stone => 3,
            Block::BedRock => 4,
            Block::Snow => 5,
            Block::Sand => 6,
            Block::Water => 7,
            Block::Other(val) => *val as u32,
        }
    }

    pub fn from_id(id: u32) -> (r: Block)
        ensures
            r == spec_block_from_id(id),
    {
        match id {
            0 => Block::Void,
            1 => Block::Grass,
            2 => Block::Dirt,
            3 => Block::Stone,
            4 => Block::BedRock,
            5 => Block::Snow,
            6 => Block::Sand,
            other => {
                if other & 0x8000_0000 != 0 {
                    assert(other & 0x8000_0000 != 0 <==> other >= 0x8000_0000) by (bit_vector);
                    assert((other & 0x7FFF_FFFF) as u8 == (other % 256) as u8) by (bit_vector);
                    Block::Other((other & 0x7FFF_FFFF) as u8)
                } else {
                    assert(other & 0x8000_0000 != 0 <==> other >= 0x8000_0000) by (bit_vector);
                    Block::Void
                }
            },
        }
    }

    /// The byte stored for this block in a chunk texture.
    pub fn block_type(&self) -> (r: u8)
        ensures
            r as u32 == spec_block_id(*self),
    {
        match self {
            Block::Void => 0,
            Block::Grass => 1,
            Block::Dirt => 2,
            Block::Stone => 3,
            Block::BedRock => 4,
            Block::Snow => 5,
            Block::Sand => 6,
            Block::Water => 7,
            Block::Other(id) => *id,
        }
    }
}

/// Only empty space and water can be walked or seen through: `Void` and
/// `Water` are the non-solid kinds, and every other kind, `Other` included,
/// is solid.
pub proof fn lemma_solid_kinds(b: Block)
    ensures
        spec_is_solid(b) <==> (b != Block::Void && b != Block::Water),
        spec_is_solid(Block::Grass) && spec_is_solid(Block::Dirt) && spec_is_solid(Block::Stone),
        spec_is_solid(Block::BedRock) && spec_is_solid(Block::Snow) && spec_is_solid(Block::Sand),
        b is Other ==> spec_is_solid(b),
        !spec_is_solid(Block::Void) && !spec_is_solid(Block::Water),
{
}

/// The byte each kind is stored as: the named kinds in declaration order from
/// 0 (`Void`) to 7 (`Water`), and `Other` its own byte.
pub proof fn lemma_block_bytes(b: Block)
    ensures
        spec_block_id(b) == match b {
            Block::Void => 0u32,
            Block::Grass => 1u32,
            Block::Dirt => 2u32,
            Block::Stone => 3u32,
            Block::BedRock => 4u32,
            Block::Snow => 5u32,
            Block::Sand => 6u32,
            Block::Water => 7u32,
            Block::Other(v) => v as u32,
        },
{
}

/// Ids that name no kind and lack the tag bit decode to `Void`, as does the
/// id of `Water`.
pub proof fn lemma_unknown_ids_are_void(id: u32)
    requires
        7 <= id < 0x8000_0000,
    ensures
        spec_block_from_id(id) == Block::Void,
{
}

/// Decoding the id of any of the kinds `Void` to `Sand` gives the kind back.
pub proof fn lemma_named_id_round_trip(b: Block)
    requires
        !(b is Water),
        !(b is Other),
    ensures
        spec_block_from_id(spec_block_id(b)) == b,
{
}

/// An id with the top bit set decodes to `Other` of its low byte, whatever that
/// byte is, and encodes back to that byte.
pub proof fn lemma_tagged_id_round_trip(v: u8)
    ensures
        spec_block_from_id((0x8000_0000u32 + v as u32) as u32) == Block::Other(v),
        spec_block_id(spec_block_from_id((0x8000_0000u32 + v as u32) as u32)) == v as u32,
{
}

/// `Water` does not survive the trip through its id: id 7 decodes to `Void`.
pub proof fn lemma_water_id_decodes_to_void()
    ensures
        spec_block_from_id(spec_block_id(Block::Water)) == Block::Void,
{
}

} // verus!
