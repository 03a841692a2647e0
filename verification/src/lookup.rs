use vstd::prelude::*;
use bevy::platform::collections::HashMap;
use bevy::platform::hash::FixedHasher;
use crate::geometry::Int3;
use crate::chunk_id::{spec_block_of, ChunkBlock, ChunkId};

verus! {

#[verifier::external_type_specification]
#[verifier::external_body]
#[verifier::reject_recursive_types(K)]
#[verifier::reject_recursive_types(V)]
#[verifier::reject_recursive_types(S)]
pub struct ExHashMap<K, V, S>(HashMap<K, V, S>);

#[verifier::external_type_specification]
#[verifier::external_body]
pub struct ExFixedHasher(FixedHasher);

/// The entries a bevy `HashMap` from keys to entity bits holds.
pub uninterp spec fn entity_map(m: HashMap<u128, u64>) -> Map<u128, u64>;

/// Calls bevy's `HashMap::new`: a map with no entries.
#[verifier::external_body]
fn map_new() -> (fresh: HashMap<u128, u64>)
    ensures
        entity_map(fresh).is_empty(),
{
    HashMap::new()
}

/// Calls bevy's `HashMap::insert`: the key now maps to the value, every other
/// entry is unchanged.
#[verifier::external_body]
fn map_insert(m: &mut HashMap<u128, u64>, k: u128, v: u64)
    ensures
        entity_map(*final(m)) == entity_map(*old(m)).insert(k, v),
{
    m.insert(k, v);
}

/// Calls bevy's `HashMap::remove`: the key maps to nothing, every other entry
/// is unchanged.
#[verifier::external_body]
fn map_remove(m: &mut HashMap<u128, u64>, k: u128)
    ensures
        entity_map(*final(m)) == entity_map(*old(m)).remove(k),
{
    m.remove(&k);
}

/// Calls bevy's `HashMap::get`: the value the key maps to, if any.
#[verifier::external_body]
fn map_get(m: &HashMap<u128, u64>, k: u128) -> (r: Option<u64>)
    ensures
        r == (if entity_map(*m).contains_key(k) {
            Some(entity_map(*m)[k])
        } else {
            None
        }),
{
    m.get(&k).copied()
}

/// Packs a vector into a `u128` map key: each coordinate shifted into
/// `0..2³²` and laid out in its own 32-bit lane.
pub open spec fn spec_key(c: Int3) -> int {
    (c.x as int + 0x8000_0000) * 0x1_0000_0000_0000_0000 + (c.y as int + 0x8000_0000)
        * 0x1_0000_0000 + (c.z as int + 0x8000_0000)
}

fn key_of(c: Int3) -> (k: u128)
    ensures
        k as int == spec_key(c),
{
    let x = (c.x as i64 + 0x8000_0000) as u128;
    let y = (c.y as i64 + 0x8000_0000) as u128;
    let z = (c.z as i64 + 0x8000_0000) as u128;
    assert(x * 0x1_0000_0000_0000_0000 + y * 0x1_0000_0000 + z <= u128::MAX) by (nonlinear_arith)
        requires
            x < 0x1_0000_0000,
            y < 0x1_0000_0000,
            z < 0x1_0000_0000,
    ;
    x * 0x1_0000_0000_0000_0000 + y * 0x1_0000_0000 + z
}

/// Distinct vectors have distinct keys.
pub proof fn lemma_key_injective(a: Int3, b: Int3)
    requires
        spec_key(a) == spec_key(b),
    ensures
        a == b,
{
    let ax = a.x as int + 0x8000_0000;
    let ay = a.y as int + 0x8000_0000;
    let az = a.z as int + 0x8000_0000;
    let bx = b.x as int + 0x8000_0000;
    let by_ = b.y as int + 0x8000_0000;
    let bz = b.z as int + 0x8000_0000;
    let k = spec_key(a);
    let lane = 0x1_0000_0000int;
    assert(k == (ax * lane + ay) * lane + az) by (nonlinear_arith)
        requires
            k == ax * 0x1_0000_0000_0000_0000 + ay * 0x1_0000_0000 + az,
            lane == 0x1_0000_0000,
    ;
    assert(k == (bx * lane + by_) * lane + bz) by (nonlinear_arith)
        requires
            k == bx * 0x1_0000_0000_0000_0000 + by_ * 0x1_0000_0000 + bz,
            lane == 0x1_0000_0000,
    ;
    vstd::arithmetic::div_mod::lemma_fundamental_div_mod_converse(k, lane, ax * lane + ay, az);
    vstd::arithmetic::div_mod::lemma_fundamental_div_mod_converse(k, lane, bx * lane + by_, bz);
    vstd::arithmetic::div_mod::lemma_fundamental_div_mod_converse(ax * lane + ay, lane, ax, ay);
    vstd::arithmetic::div_mod::lemma_fundamental_div_mod_converse(bx * lane + by_, lane, bx, by_);
}

/// Where a chunk entity goes when its id is set: its translation inside its
/// chunk block, and the chunk block entity to parent it to.
#[derive(Clone, Copy, PartialEq, Eq, Debug, Structural)]
pub enum ChunkParent {
    /// The chunk block already has an entity.
    Existing(u64),
    /// The chunk block has no entity yet; one must be spawned for it.
    Spawn(ChunkBlock),
}

#[derive(Clone, Copy, PartialEq, Eq, Debug, Structural)]
pub struct ChunkPlacement {
    pub translation: Int3,
    pub parent: ChunkParent,
}

/// Which entity stands for each loaded chunk and each chunk block, and the
/// entity all chunk blocks hang from. Entities are given by their bits.
pub struct ChunkLookup {
    map_root: u64,
    chunks: HashMap<u128, u64>,
    blocks: HashMap<u128, u64>,
}

impl ChunkLookup {
    /// The entity of the chunk at `c`, if one is registered.
    pub closed spec fn chunk_entity(&self, c: Int3) -> Option<u64> {
        if entity_map(self.chunks).contains_key(spec_key(c) as u128) {
            Some(entity_map(self.chunks)[spec_key(c) as u128])
        } else {
            None
        }
    }

    /// The entity of the chunk block at `b`, if one is registered.
    pub closed spec fn block_entity(&self, b: Int3) -> Option<u64> {
        if entity_map(self.blocks).contains_key(spec_key(b) as u128) {
            Some(entity_map(self.blocks)[spec_key(b) as u128])
        } else {
            None
        }
    }

    pub closed spec fn spec_root(&self) -> u64 {
        self.map_root
    }

    /// A lookup with nothing registered under the given root entity.
    pub fn new(map_root: u64) -> (r: ChunkLookup)
        ensures
            r.spec_root() == map_root,
            forall|c: Int3| #[trigger] r.chunk_entity(c) is None,
            forall|b: Int3| #[trigger] r.block_entity(b) is None,
    {
        ChunkLookup { map_root, chunks: map_new(), blocks: map_new() }
    }

    pub fn insert(&mut self, pos: ChunkId, entity: u64)
        ensures
            final(self).chunk_entity(pos.0) == Some(entity),
            forall|c: Int3| c != pos.0 ==> #[trigger] final(self).chunk_entity(c) == old(self).chunk_entity(c),
            forall|b: Int3| #[trigger] final(self).block_entity(b) == old(self).block_entity(b),
            final(self).spec_root() == old(self).spec_root(),
    {
        let k = key_of(pos.0);
        map_insert(&mut self.chunks, k, entity);
        assert forall|c: Int3| c != pos.0 implies #[trigger] self.chunk_entity(c) == old(self).chunk_entity(c) by {
            if spec_key(c) == spec_key(pos.0) {
                lemma_key_injective(c, pos.0);
            }
        }
    }

    pub fn remove(&mut self, pos: &ChunkId)
        ensures
            final(self).chunk_entity(pos.0) is None,
            forall|c: Int3| c != pos.0 ==> #[trigger] final(self).chunk_entity(c) == old(self).chunk_entity(c),
            forall|b: Int3| #[trigger] final(self).block_entity(b) == old(self).block_entity(b),
            final(self).spec_root() == old(self).spec_root(),
    {
        let k = key_of(pos.0);
        map_remove(&mut self.chunks, k);
        assert forall|c: Int3| c != pos.0 implies #[trigger] self.chunk_entity(c) == old(self).chunk_entity(c) by {
            if spec_key(c) == spec_key(pos.0) {
                lemma_key_injective(c, pos.0);
            }
        }
    }

    pub fn get(&self, pos: &ChunkId) -> (r: Option<u64>)
        ensures
            r == self.chunk_entity(pos.0),
    {
        let k = key_of(pos.0);
        map_get(&self.chunks, k)
    }

    pub fn add_block(&mut self, pos: ChunkBlock, entity: u64)
        ensures
            final(self).block_entity(pos.0) == Some(entity),
            forall|b: Int3| b != pos.0 ==> #[trigger] final(self).block_entity(b) == old(self).block_entity(b),
            forall|c: Int3| #[trigger] final(self).chunk_entity(c) == old(self).chunk_entity(c),
            final(self).spec_root() == old(self).spec_root(),
    {
        let k = key_of(pos.0);
        map_insert(&mut self.blocks, k, entity);
        assert forall|b: Int3| b != pos.0 implies #[trigger] self.block_entity(b) == old(self).block_entity(b) by {
            if spec_key(b) == spec_key(pos.0) {
                lemma_key_injective(b, pos.0);
            }
        }
    }

    pub fn remove_block(&mut self, pos: &ChunkBlock)
        ensures
            final(self).block_entity(pos.0) is None,
            forall|b: Int3| b != pos.0 ==> #[trigger] final(self).block_entity(b) == old(self).block_entity(b),
            forall|c: Int3| #[trigger] final(self).chunk_entity(c) == old(self).chunk_entity(c),
            final(self).spec_root() == old(self).spec_root(),
    {
        let k = key_of(pos.0);
        map_remove(&mut self.blocks, k);
        assert forall|b: Int3| b != pos.0 implies #[trigger] self.block_entity(b) == old(self).block_entity(b) by {
            if spec_key(b) == spec_key(pos.0) {
                lemma_key_injective(b, pos.0);
            }
        }
    }

    /// The entity of the chunk block that holds a chunk.
    pub fn get_block(&self, chunk: &ChunkId) -> (r: Option<u64>)
        ensures
            r == self.block_entity(spec_block_of(chunk.0)),
    {
        let block = ChunkBlock::from_chunk_id(*chunk);
        let k = key_of(block.0);
        map_get(&self.blocks, k)
    }

    pub fn root(&self) -> (r: u64)
        ensures
            r == self.spec_root(),
    {
        self.map_root
    }
}

/// The translation of a chunk inside its chunk block, in blocks: its position
/// within the block times the chunk size.
pub open spec fn spec_chunk_translation(id: Int3) -> Int3 {
    let b = spec_block_of(id);
    Int3 {
        x: ((id.x - b.x * 3) * 64) as i32,
        y: ((id.y - b.y * 3) * 64) as i32,
        z: ((id.z - b.z * 3) * 64) as i32,
    }
}

impl ChunkId {
    /// Registers a chunk entity whose id was just set, unless it is the
    /// player's: says where it goes inside its chunk block and which chunk
    /// block entity it hangs from (spawning one when the block has none yet).
    pub fn on_insert(self, lookup: &mut ChunkLookup, entity: u64, is_player: bool) -> (r: Option<
        ChunkPlacement,
    >)
        ensures
            is_player ==> r is None && *final(lookup) == *old(lookup),
            !is_player ==> r == Some(
                ChunkPlacement {
                    translation: spec_chunk_translation(self.0),
                    parent: match old(lookup).block_entity(spec_block_of(self.0)) {
                        Some(e) => ChunkParent::Existing(e),
                        None => ChunkParent::Spawn(ChunkBlock(spec_block_of(self.0))),
                    },
                },
            ),
            !is_player ==> final(lookup).chunk_entity(self.0) == Some(entity),
            !is_player ==> forall|c: Int3|
                c != self.0 ==> #[trigger] final(lookup).chunk_entity(c) == old(lookup).chunk_entity(c),
            forall|b: Int3| #[trigger] final(lookup).block_entity(b) == old(lookup).block_entity(b),
            final(lookup).spec_root() == old(lookup).spec_root(),
    {
        if is_player {
            return None;
        }
        let block = ChunkBlock::from_chunk_id(self);
        proof {
            crate::chunk_id::lemma_chunk_block_split(self.0);
        }
        let index = self.sub_block(block);
        let translation = index.offset();
        let parent = match lookup.get_block(&self) {
            Some(e) => ChunkParent::Existing(e),
            None => ChunkParent::Spawn(block),
        };
        lookup.insert(self, entity);
        Some(ChunkPlacement { translation, parent })
    }

    /// Forgets a chunk entity whose id is being removed, unless it is the
    /// player's: the player is never registered, so its removal leaves the
    /// chunk registered under the same id in place.
    pub fn on_remove(self, lookup: &mut ChunkLookup, is_player: bool)
        ensures
            is_player ==> *final(lookup) == *old(lookup),
            !is_player ==> final(lookup).chunk_entity(self.0) is None,
            forall|c: Int3| c != self.0 ==> #[trigger] final(lookup).chunk_entity(c) == old(lookup).chunk_entity(c),
            forall|b: Int3| #[trigger] final(lookup).block_entity(b) == old(lookup).block_entity(b),
            final(lookup).spec_root() == old(lookup).spec_root(),
    {
        if is_player {
            return;
        }
        lookup.remove(&self);
    }
}

impl ChunkBlock {
    /// Registers a chunk block entity just inserted; gives the root to parent
    /// it to and its translation relative to the world offset.
    pub fn on_insert(self, lookup: &mut ChunkLookup, entity: u64, world_offset: ChunkId) -> (r: (u64, Int3))
        requires
            self.0.scale_fits(192),
            world_offset.0.scale_fits(64),
            self.0.spec_scale(192).sub_fits(world_offset.0.spec_scale(64)),
        ensures
            r.0 == old(lookup).spec_root(),
            r.1 == self.0.spec_scale(192).spec_sub(world_offset.0.spec_scale(64)),
            final(lookup).block_entity(self.0) == Some(entity),
            forall|b: Int3| b != self.0 ==> #[trigger] final(lookup).block_entity(b) == old(lookup).block_entity(b),
            forall|c: Int3| #[trigger] final(lookup).chunk_entity(c) == old(lookup).chunk_entity(c),
            final(lookup).spec_root() == old(lookup).spec_root(),
    {
        lookup.add_block(self, entity);
        let root = lookup.root();
        let translation = self.world_pos().sub(world_offset.offset());
        (root, translation)
    }

    /// Forgets a chunk block entity being removed.
    pub fn on_remove(self, lookup: &mut ChunkLookup)
        ensures
            final(lookup).block_entity(self.0) is None,
            forall|b: Int3| b != self.0 ==> #[trigger] final(lookup).block_entity(b) == old(lookup).block_entity(b),
            forall|c: Int3| #[trigger] final(lookup).chunk_entity(c) == old(lookup).chunk_entity(c),
            final(lookup).spec_root() == old(lookup).spec_root(),
    {
        lookup.remove_block(&self);
    }
}

} // verus!
