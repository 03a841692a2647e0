use vstd::prelude::*;
use crate::blocks::Block;
use crate::chunk::{spec_index, ChunkData, CHUNK_VOLUME};
use crate::geometry::fits_i32;

verus! {

/// Which noise octave set a sample is drawn from.
#[derive(Clone, Copy, PartialEq, Eq, Debug, Structural)]
pub enum Quality {
    Low,
    Medium,
    High,
}

/// Which map parameter the debug biome draws as terrain height.
#[derive(Clone, Copy, PartialEq, Eq, Debug, Structural)]
pub enum DebugBiomeType {
    Height,
    Rainfall,
    Fertility,
    GroundHeight2,
    GroundHeight3,
    RainShadow,
}

/// A biome that renders one map parameter as a height field.
#[derive(Clone, Copy, PartialEq, Eq, Debug, Structural)]
pub struct DebugBiome {
    pub scale: u32,
    pub param: DebugBiomeType,
}

impl DebugBiome {
    pub fn new(param: DebugBiomeType, scale: u32) -> (r: DebugBiome)
        ensures
            r == (DebugBiome { param, scale }),
    {
        DebugBiome { param, scale }
    }

    /// The debug biome's priority: always the highest.
    pub fn priority(&self) -> (r: u8)
        ensures
            r == u8::MAX,
    {
        u8::MAX
    }
}

/// Biome `i` ranks before biome `j`: higher priority, or equal priority and
/// listed earlier.
pub open spec fn ranks_before(p: Seq<u8>, i: int, j: int) -> bool {
    p[i] > p[j] || (p[i] == p[j] && i < j)
}

/// Slot `k` of `r` is filled and holds biome `i`.
pub open spec fn holds(r: Seq<(usize, u8)>, k: int, i: int) -> bool {
    r[k].1 != 0 && r[k].0 == i
}

/// `r` holds the three best-ranked biomes with nonzero priority, best first, as
/// (index, priority); slots with no such biome left are (0, 0).
pub open spec fn is_top3(p: Seq<u8>, r: Seq<(usize, u8)>) -> bool {
    &&& r.len() == 3
    &&& forall|k: int| 0 <= k < 3 && r[k].1 == 0 ==> #[trigger] r[k] == (0usize, 0u8)
    &&& forall|k: int|
        0 <= k < 3 && r[k].1 != 0 ==> (r[k].0 < p.len() && p[r[k].0 as int] == #[trigger] r[k].1)
    &&& forall|k: int, l: int|
        0 <= k < l < 3 && #[trigger] r[l].1 != 0 ==> r[k].1 != 0 && ranks_before(
            p,
            #[trigger] r[k].0 as int,
            r[l].0 as int,
        )
    &&& forall|i: int|
        0 <= i < p.len() && #[trigger] p[i] != 0 && !holds(r, 0, i) && !holds(r, 1, i) && !holds(
            r,
            2,
            i,
        ) ==> (r[2].1 != 0 && ranks_before(p, r[0].0 as int, i) && ranks_before(
            p,
            r[1].0 as int,
            i,
        ) && ranks_before(p, r[2].0 as int, i))
}

/// Adding biome `n` with priority `v` to the ranking of the biomes before it
/// gives the ranking of the biomes up to it.
proof fn lemma_top3_step(q: Seq<u8>, q2: Seq<u8>, v: u8, o: Seq<(usize, u8)>, nt: Seq<(usize, u8)>)
    requires
        q2 == q.push(v),
        q.len() < usize::MAX,
        is_top3(q, o),
        nt.len() == 3,
        v != 0 && v > o[0].1 ==> nt[0] == (q.len() as usize, v) && nt[1] == o[0] && nt[2] == o[1],
        v != 0 && !(v > o[0].1) && v > o[1].1 ==> nt[0] == o[0] && nt[1] == (q.len() as usize, v)
            && nt[2] == o[1],
        v != 0 && !(v > o[0].1) && !(v > o[1].1) && v > o[2].1 ==> nt[0] == o[0] && nt[1] == o[1]
            && nt[2] == (q.len() as usize, v),
        v == 0 || (!(v > o[0].1) && !(v > o[1].1) && !(v > o[2].1)) ==> nt[0] == o[0] && nt[1]
            == o[1] && nt[2] == o[2],
    ensures
        is_top3(q2, nt),
{
    let n = q.len() as int;
    assert(forall|i: int| 0 <= i < n ==> q2[i] == q[i]);
    assert(q2[n] == v);
    assert(o[0].1 >= o[1].1 >= o[2].1) by {
        if o[1].1 != 0 {
            assert(ranks_before(q, o[0].0 as int, o[1].0 as int));
        }
        if o[2].1 != 0 {
            assert(ranks_before(q, o[1].0 as int, o[2].0 as int));
        }
    }
    assert(forall|k: int| 0 <= k < 3 && #[trigger] o[k].1 != 0 ==> o[k].0 < n);
    assert(forall|k: int|
        0 <= k < 3 && #[trigger] o[k].1 != 0 ==> q2[o[k].0 as int] == o[k].1);
    if o[1].1 != 0 {
        assert(ranks_before(q, o[0].0 as int, o[1].0 as int));
        assert(ranks_before(q2, o[0].0 as int, o[1].0 as int));
    }
    if o[2].1 != 0 {
        assert(ranks_before(q, o[1].0 as int, o[2].0 as int));
        assert(ranks_before(q2, o[1].0 as int, o[2].0 as int));
        assert(ranks_before(q, o[0].0 as int, o[2].0 as int));
        assert(ranks_before(q2, o[0].0 as int, o[2].0 as int));
    }
    assert forall|i: int|
        0 <= i < n && #[trigger] q[i] != 0 && !holds(o, 0, i) && !holds(o, 1, i) && !holds(o, 2, i)
        implies ranks_before(q2, o[0].0 as int, i) && ranks_before(q2, o[1].0 as int, i)
        && ranks_before(q2, o[2].0 as int, i) && q2[i] <= o[2].1 by {
        assert(q2[i] == q[i]);
        assert(ranks_before(q, o[0].0 as int, i));
        assert(ranks_before(q, o[1].0 as int, i));
        assert(ranks_before(q, o[2].0 as int, i));
    }
    assert(forall|i: int| 0 <= i < n ==> #[trigger] q2[i] == q[i]);
    let nn = n as usize;
    if v == 0 || v <= o[2].1 {
        assert forall|i: int|
            0 <= i < q2.len() && #[trigger] q2[i] != 0 && !holds(nt, 0, i) && !holds(nt, 1, i)
                && !holds(nt, 2, i) implies (nt[2].1 != 0 && ranks_before(q2, nt[0].0 as int, i)
            && ranks_before(q2, nt[1].0 as int, i) && ranks_before(q2, nt[2].0 as int, i)) by {
            if i < n {
                assert(q[i] != 0);
            }
        }
    } else if v > o[0].1 {
        assert(ranks_before(q2, nn as int, o[0].0 as int) || o[0].1 == 0);
        assert forall|i: int|
            0 <= i < q2.len() && #[trigger] q2[i] != 0 && !holds(nt, 0, i) && !holds(nt, 1, i)
                && !holds(nt, 2, i) implies (nt[2].1 != 0 && ranks_before(q2, nt[0].0 as int, i)
            && ranks_before(q2, nt[1].0 as int, i) && ranks_before(q2, nt[2].0 as int, i)) by {
            assert(i < n);
            assert(q[i] != 0);
            if holds(o, 2, i) {
            } else {
                assert(q2[i] <= o[2].1);
            }
        }
    } else if v > o[1].1 {
        assert forall|i: int|
            0 <= i < q2.len() && #[trigger] q2[i] != 0 && !holds(nt, 0, i) && !holds(nt, 1, i)
                && !holds(nt, 2, i) implies (nt[2].1 != 0 && ranks_before(q2, nt[0].0 as int, i)
            && ranks_before(q2, nt[1].0 as int, i) && ranks_before(q2, nt[2].0 as int, i)) by {
            assert(i < n);
            assert(q[i] != 0);
            if holds(o, 2, i) {
            } else {
                assert(q2[i] <= o[2].1);
            }
        }
    } else {
        assert forall|i: int|
            0 <= i < q2.len() && #[trigger] q2[i] != 0 && !holds(nt, 0, i) && !holds(nt, 1, i)
                && !holds(nt, 2, i) implies (nt[2].1 != 0 && ranks_before(q2, nt[0].0 as int, i)
            && ranks_before(q2, nt[1].0 as int, i) && ranks_before(q2, nt[2].0 as int, i)) by {
            assert(i < n);
            assert(q[i] != 0);
            if holds(o, 2, i) {
            } else {
                assert(q2[i] <= o[2].1);
            }
        }
    }
}

/// The biome ranked first has the highest priority of all, the three slots
/// come in falling priority, and the first slot is empty only when every
/// biome is ruled out.
pub proof fn lemma_top_biome_is_highest(p: Seq<u8>, r: Seq<(usize, u8)>)
    requires
        is_top3(p, r),
    ensures
        forall|i: int| 0 <= i < p.len() ==> #[trigger] p[i] <= r[0].1,
        r[0].1 >= r[1].1 && r[1].1 >= r[2].1,
        r[0].1 == 0 ==> forall|i: int| 0 <= i < p.len() ==> #[trigger] p[i] == 0,
{
    if r[1].1 != 0 {
        assert(ranks_before(p, r[0].0 as int, r[1].0 as int));
    }
    if r[2].1 != 0 {
        assert(ranks_before(p, r[1].0 as int, r[2].0 as int));
    }
    assert forall|i: int| 0 <= i < p.len() implies #[trigger] p[i] <= r[0].1 by {
        if p[i] != 0 {
            if holds(r, 0, i) {
            } else if holds(r, 1, i) {
            } else if holds(r, 2, i) {
            } else {
                assert(ranks_before(p, r[0].0 as int, i));
            }
        }
    }
}

/// The three highest-priority biomes for a point, given each biome's priority
/// there in list order; a priority of 0 rules a biome out.
pub fn top_biomes(priorities: &Vec<u8>) -> (r: [(usize, u8); 3])
    ensures
        is_top3(priorities@, r@),
{
    let ghost p = priorities@;
    let mut t0: (usize, u8) = (0, 0);
    let mut t1: (usize, u8) = (0, 0);
    let mut t2: (usize, u8) = (0, 0);
    let mut n: usize = 0;
    while n < priorities.len()
        invariant
            p == priorities@,
            n <= p.len(),
            is_top3(p.subrange(0, n as int), seq![t0, t1, t2]),
        decreases p.len() - n,
    {
        let v = priorities[n];
        let ghost q = p.subrange(0, n as int);
        let ghost old_t = seq![t0, t1, t2];
        if v != 0 {
            if v > t0.1 {
                t2 = t1;
                t1 = t0;
                t0 = (n, v);
            } else if v > t1.1 {
                t2 = t1;
                t1 = (n, v);
            } else if v > t2.1 {
                t2 = (n, v);
            }
        }
        proof {
            assert(p.subrange(0, n as int + 1) =~= q.push(v));
            lemma_top3_step(q, q.push(v), v, old_t, seq![t0, t1, t2]);
        }
        n += 1;
    }
    assert(p.subrange(0, p.len() as int) =~= p);
    let r = [t0, t1, t2];
    assert(r@ =~= seq![t0, t1, t2]);
    r
}

/// Height of a chunk column, in blocks.
pub const COLUMN_HEIGHT: usize = 64;

/// Block `y` of a column whose bottom sits at height `origin_y` lies under the
/// ground surface at height `ground`.
pub open spec fn under_ground(origin_y: int, ground: int, y: int) -> bool {
    origin_y <= ground && y < ground - origin_y
}

pub open spec fn spec_badland_column(origin_y: int, ground: int) -> Seq<Block> {
    Seq::new(
        64,
        |y: int|
            if under_ground(origin_y, ground, y) {
                Block::Other(127)
            } else {
                Block::Void
            },
    )
}

pub open spec fn spec_desert_column(origin_y: int, ground: int, sand_depth: int) -> Seq<Block> {
    Seq::new(
        64,
        |y: int|
            if under_ground(origin_y, ground, y) {
                if origin_y + y >= ground - sand_depth {
                    Block::Sand
                } else {
                    Block::Stone
                }
            } else {
                Block::Void
            },
    )
}

pub open spec fn spec_lake_column(origin_y: int, ground: int, water_depth: int) -> Seq<Block> {
    Seq::new(
        64,
        |y: int|
            if under_ground(origin_y, ground, y) {
                if origin_y + y == ground - 1 {
                    Block::Grass
                } else if origin_y + y > ground - water_depth {
                    Block::Water
                } else {
                    Block::Stone
                }
            } else {
                Block::Void
            },
    )
}

/// Layered ground: stone above the frost line, dirt within `soil_depth` of the
/// surface, stone below.
pub open spec fn mountain_layer(true_y: int, ground: int, soil_depth: int, frost_line: int) -> Block {
    if true_y > frost_line {
        Block::Stone
    } else if true_y > ground - soil_depth {
        Block::Dirt
    } else {
        Block::Stone
    }
}

/// The surface block of a mountain: snow above the snow line, grass below.
pub open spec fn mountain_top(ground: int, snow_line: int) -> Block {
    if ground > snow_line {
        Block::Snow
    } else {
        Block::Grass
    }
}

pub open spec fn spec_mountain_column(
    origin_y: int,
    ground: int,
    soil_depth: int,
    frost_line: int,
    snow_line: int,
) -> Seq<Block> {
    Seq::new(
        64,
        |y: int|
            if under_ground(origin_y, ground, y) {
                mountain_layer(origin_y + y, ground, soil_depth, frost_line)
            } else if origin_y <= ground && y == ground - origin_y {
                mountain_top(ground, snow_line)
            } else {
                Block::Void
            },
    )
}

pub open spec fn spec_plains_column(origin_y: int, ground: int, fertile: bool, soil_depth: int) -> Seq<
    Block,
> {
    Seq::new(
        64,
        |y: int|
            if under_ground(origin_y, ground, y) {
                if origin_y + y > ground - soil_depth {
                    Block::Dirt
                } else {
                    Block::Stone
                }
            } else if fertile && origin_y <= ground && y == ground - origin_y {
                Block::Grass
            } else {
                Block::Void
            },
    )
}

pub open spec fn spec_ocean_column(origin_y: int, ground: int) -> Seq<Block> {
    Seq::new(
        64,
        |y: int|
            if origin_y > 0 {
                Block::Void
            } else if origin_y + y > ground {
                Block::Water
            } else {
                Block::Stone
            },
    )
}

pub open spec fn spec_debug_column(height: int, level: int) -> Seq<Block> {
    Seq::new(
        64,
        |y: int|
            if y < height {
                Block::Other((level * 4) as u8)
            } else {
                Block::Void
            },
    )
}

/// `ground - origin_y` clamped to `0..=64`: how many blocks of the column lie
/// under the ground.
fn ground_span(origin_y: i32, ground: i32) -> (r: usize)
    requires
        fits_i32(ground - origin_y),
    ensures
        r <= 64,
        ground - origin_y <= 0 ==> r == 0,
        0 <= ground - origin_y <= 64 ==> r == ground - origin_y,
        ground - origin_y >= 64 ==> r == 64,
{
    let d = ground - origin_y;
    if d < 0 {
        0
    } else if d > 64 {
        64
    } else {
        d as usize
    }
}

/// Badlands: a solid fill of block 127 up to the ground.
pub fn badland_column(origin_y: i32, ground: i32) -> (r: [Block; 64])
    requires
        fits_i32(ground - origin_y),
    ensures
        r@ == spec_badland_column(origin_y as int, ground as int),
{
    let r_ground = ground_span(origin_y, ground);
    let mut data = [Block::Void; 64];
    if origin_y > ground {
        assert(data@ =~= spec_badland_column(origin_y as int, ground as int));
        return data;
    }
    let mut y: usize = 0;
    while y < r_ground
        invariant
            y <= r_ground <= 64,
            origin_y <= ground,
            r_ground as int == if ground - origin_y > 64 { 64 } else { ground - origin_y },
            forall|i: int| 0 <= i < 64 ==> #[trigger] data@[i] == if i < y {
                Block::Other(127)
            } else {
                Block::Void
            },
        decreases r_ground - y,
    {
        data[y] = Block::Other(127);
        y += 1;
    }
    assert(data@ =~= spec_badland_column(origin_y as int, ground as int));
    data
}

/// Desert: sand within `sand_depth` of the surface, stone below.
pub fn desert_column(origin_y: i32, ground: i32, sand_depth: i32) -> (r: [Block; 64])
    requires
        fits_i32(ground - origin_y),
        origin_y <= ground ==> fits_i32(ground - sand_depth),
    ensures
        r@ == spec_desert_column(origin_y as int, ground as int, sand_depth as int),
{
    let r_ground = ground_span(origin_y, ground);
    let mut data = [Block::Void; 64];
    if origin_y > ground {
        assert(data@ =~= spec_desert_column(origin_y as int, ground as int, sand_depth as int));
        return data;
    }
    let ghost target = spec_desert_column(origin_y as int, ground as int, sand_depth as int);
    let mut y: usize = 0;
    while y < r_ground
        invariant
            y <= r_ground <= 64,
            origin_y <= ground,
            fits_i32(ground - sand_depth),
            target == spec_desert_column(origin_y as int, ground as int, sand_depth as int),
            r_ground as int == if ground - origin_y > 64 { 64 } else { ground - origin_y },
            forall|i: int| 0 <= i < 64 ==> #[trigger] data@[i] == if i < y {
                target[i]
            } else {
                Block::Void
            },
        decreases r_ground - y,
    {
        let true_y = origin_y + y as i32;
        let block = if true_y >= ground - sand_depth {
            Block::Sand
        } else {
            Block::Stone
        };
        data[y] = block;
        y += 1;
    }
    assert(data@ =~= target);
    data
}

/// Lake: a grass rim at the surface, water within `water_depth` of it, stone
/// below.
pub fn lake_column(origin_y: i32, ground: i32, water_depth: i32) -> (r: [Block; 64])
    requires
        origin_y <= ground ==> fits_i32(ground - origin_y),
        origin_y <= ground ==> fits_i32(ground - water_depth),
    ensures
        r@ == spec_lake_column(origin_y as int, ground as int, water_depth as int),
{
    let mut data = [Block::Void; 64];
    if origin_y > ground {
        assert(data@ =~= spec_lake_column(origin_y as int, ground as int, water_depth as int));
        return data;
    }
    let r_ground = ground_span(origin_y, ground);
    let ghost target = spec_lake_column(origin_y as int, ground as int, water_depth as int);
    let mut y: usize = 0;
    while y < r_ground
        invariant
            y <= r_ground <= 64,
            origin_y <= ground,
            fits_i32(ground - water_depth),
            target == spec_lake_column(origin_y as int, ground as int, water_depth as int),
            r_ground as int == if ground - origin_y > 64 { 64 } else { ground - origin_y },
            forall|i: int| 0 <= i < 64 ==> #[trigger] data@[i] == if i < y {
                target[i]
            } else {
                Block::Void
            },
        decreases r_ground - y,
    {
        let true_y = origin_y + y as i32;
        if true_y == ground - 1 {
            data[y] = Block::Grass;
            y += 1;
            continue;
        }
        let block = if true_y > ground - water_depth {
            Block::Water
        } else {
            Block::Stone
        };
        data[y] = block;
        y += 1;
    }
    assert(data@ =~= target);
    data
}

/// Mountain: layered ground, capped when the surface lies in the column by
/// snow above the snow line and grass below it.
pub fn mountain_column(origin_y: i32, ground: i32, soil_depth: i32, frost_line: i32, snow_line: i32) -> (r: [Block; 64])
    requires
        fits_i32(ground - origin_y),
        origin_y <= ground ==> fits_i32(ground - 64),
        origin_y <= ground ==> fits_i32(ground - soil_depth),
    ensures
        r@ == spec_mountain_column(origin_y as int, ground as int, soil_depth as int, frost_line as int, snow_line as int),
{
    let r_ground = ground_span(origin_y, ground);
    let mut data = [Block::Void; 64];
    let ghost target = spec_mountain_column(
        origin_y as int,
        ground as int,
        soil_depth as int,
        frost_line as int,
        snow_line as int,
    );
    if origin_y > ground {
        assert(data@ =~= target);
        return data;
    }
    if origin_y > ground - 64 {
        data[r_ground] = if ground > snow_line {
            Block::Snow
        } else {
            Block::Grass
        };
    }
    let mut y: usize = 0;
    while y < r_ground
        invariant
            y <= r_ground <= 64,
            origin_y <= ground,
            fits_i32(ground - soil_depth),
            target == spec_mountain_column(
                origin_y as int,
                ground as int,
                soil_depth as int,
                frost_line as int,
                snow_line as int,
            ),
            r_ground as int == if ground - origin_y > 64 { 64 } else { ground - origin_y },
            forall|i: int| 0 <= i < 64 ==> #[trigger] data@[i] == if i < y || i == r_ground {
                target[i]
            } else {
                Block::Void
            },
        decreases r_ground - y,
    {
        let true_y = origin_y + y as i32;
        let block = if true_y > frost_line {
            Block::Stone
        } else if true_y > ground - soil_depth {
            Block::Dirt
        } else {
            Block::Stone
        };
        data[y] = block;
        y += 1;
    }
    assert(data@ =~= target);
    data
}

/// Plains: dirt within `soil_depth` of the surface, stone below, and grass on
/// the surface when it lies in the column and the ground is fertile.
pub fn plains_column(origin_y: i32, ground: i32, fertile: bool, soil_depth: i32) -> (r: [Block; 64])
    requires
        fits_i32(ground - origin_y),
        origin_y <= ground ==> fits_i32(ground - 64),
        origin_y <= ground ==> fits_i32(ground - soil_depth),
    ensures
        r@ == spec_plains_column(origin_y as int, ground as int, fertile, soil_depth as int),
{
    let r_ground = ground_span(origin_y, ground);
    let mut data = [Block::Void; 64];
    let ghost target = spec_plains_column(origin_y as int, ground as int, fertile, soil_depth as int);
    if origin_y > ground {
        assert(data@ =~= target);
        return data;
    }
    if origin_y > ground - 64 && fertile {
        data[r_ground] = Block::Grass;
    }
    let mut y: usize = 0;
    while y < r_ground
        invariant
            y <= r_ground <= 64,
            origin_y <= ground,
            fits_i32(ground - soil_depth),
            target == spec_plains_column(origin_y as int, ground as int, fertile, soil_depth as int),
            r_ground as int == if ground - origin_y > 64 { 64 } else { ground - origin_y },
            forall|i: int| 0 <= i < 64 ==> #[trigger] data@[i] == if i < y || i == r_ground {
                target[i]
            } else {
                Block::Void
            },
        decreases r_ground - y,
    {
        let true_y = origin_y + y as i32;
        let block = if true_y > ground - soil_depth {
            Block::Dirt
        } else {
            Block::Stone
        };
        data[y] = block;
        y += 1;
    }
    assert(data@ =~= target);
    data
}

/// Ocean: below sea level, water above the ground and stone below it.
pub fn ocean_column(origin_y: i32, ground: i32) -> (r: [Block; 64])
    ensures
        r@ == spec_ocean_column(origin_y as int, ground as int),
{
    let mut data = [Block::Void; 64];
    let ghost target = spec_ocean_column(origin_y as int, ground as int);
    if origin_y > 0 {
        assert(data@ =~= target);
        return data;
    }
    let mut y: usize = 0;
    while y < 64
        invariant
            y <= 64,
            origin_y <= 0,
            target == spec_ocean_column(origin_y as int, ground as int),
            forall|i: int| 0 <= i < 64 ==> #[trigger] data@[i] == if i < y {
                target[i]
            } else {
                Block::Void
            },
        decreases 64 - y,
    {
        if origin_y + y as i32 > ground {
            data[y] = Block::Water;
        } else {
            data[y] = Block::Stone;
        }
        y += 1;
    }
    assert(data@ =~= target);
    data
}

impl DebugBiome {
    /// The debug column: `height` blocks of shade `level * 4`, then air.
    pub fn column(&self, height: usize, level: u8) -> (r: [Block; 64])
        requires
            level as int * 4 <= u8::MAX,
        ensures
            r@ == spec_debug_column(height as int, level as int),
    {
        let mut data = [Block::Void; 64];
        let ghost target = spec_debug_column(height as int, level as int);
        let mut y: usize = 0;
        while y < 64
            invariant
                y <= 64,
                level as int * 4 <= u8::MAX,
                target == spec_debug_column(height as int, level as int),
                forall|i: int| 0 <= i < 64 ==> #[trigger] data@[i] == if i < y {
                    target[i]
                } else {
                    Block::Void
                },
            decreases 64 - y,
        {
            if height > y {
                data[y] = Block::Other(level * 4);
            } else {
                data[y] = Block::Void;
            }
            y += 1;
        }
        assert(data@ =~= target);
        data
    }
}

/// Every terrain column is laid by world height, not by position in the
/// column: block `y` of a column whose bottom is at `origin_y` sits at height
/// `origin_y + y`, and what it holds depends on that height and the ground
/// level alone. Below the ground lies the biome's fill, at the ground level
/// the surface block where the biome has one, above it nothing.
pub proof fn lemma_columns_follow_world_height(
    origin_y: int,
    ground: int,
    depth: int,
    frost_line: int,
    snow_line: int,
    fertile: bool,
    y: int,
)
    requires
        0 <= y < 64,
    ensures
        ({
            let h = origin_y + y;
            &&& spec_badland_column(origin_y, ground)[y] == if h < ground {
                Block::Other(127)
            } else {
                Block::Void
            }
            &&& spec_desert_column(origin_y, ground, depth)[y] == if h >= ground {
                Block::Void
            } else if h >= ground - depth {
                Block::Sand
            } else {
                Block::Stone
            }
            &&& spec_lake_column(origin_y, ground, depth)[y] == if h >= ground {
                Block::Void
            } else if h == ground - 1 {
                Block::Grass
            } else if h > ground - depth {
                Block::Water
            } else {
                Block::Stone
            }
            &&& spec_plains_column(origin_y, ground, fertile, depth)[y] == if h > ground {
                Block::Void
            } else if h == ground {
                if fertile {
                    Block::Grass
                } else {
                    Block::Void
                }
            } else if h > ground - depth {
                Block::Dirt
            } else {
                Block::Stone
            }
            &&& spec_mountain_column(origin_y, ground, depth, frost_line, snow_line)[y] == if h
                > ground {
                Block::Void
            } else if h == ground {
                if ground > snow_line {
                    Block::Snow
                } else {
                    Block::Grass
                }
            } else if h > frost_line {
                Block::Stone
            } else if h > ground - depth {
                Block::Dirt
            } else {
                Block::Stone
            }
            &&& spec_ocean_column(origin_y, ground)[y] == if origin_y > 0 {
                Block::Void
            } else if h > ground {
                Block::Water
            } else {
                Block::Stone
            }
        }),
{
}

/// Moving a column and every height it is laid by (the ground, and for a
/// mountain its frost and snow lines) up or down by the same amount leaves the
/// column unchanged.
pub proof fn lemma_columns_shift_with_the_ground(
    origin_y: int,
    ground: int,
    depth: int,
    frost_line: int,
    snow_line: int,
    fertile: bool,
    d: int,
)
    ensures
        spec_badland_column(origin_y + d, ground + d) == spec_badland_column(origin_y, ground),
        spec_desert_column(origin_y + d, ground + d, depth) == spec_desert_column(origin_y, ground, depth),
        spec_lake_column(origin_y + d, ground + d, depth) == spec_lake_column(origin_y, ground, depth),
        spec_plains_column(origin_y + d, ground + d, fertile, depth) == spec_plains_column(
            origin_y,
            ground,
            fertile,
            depth,
        ),
        spec_mountain_column(origin_y + d, ground + d, depth, frost_line + d, snow_line + d)
            == spec_mountain_column(origin_y, ground, depth, frost_line, snow_line),
{
    assert(spec_badland_column(origin_y + d, ground + d) =~= spec_badland_column(origin_y, ground));
    assert(spec_desert_column(origin_y + d, ground + d, depth) =~= spec_desert_column(origin_y, ground, depth));
    assert(spec_lake_column(origin_y + d, ground + d, depth) =~= spec_lake_column(origin_y, ground, depth));
    assert(spec_plains_column(origin_y + d, ground + d, fertile, depth) =~= spec_plains_column(
        origin_y,
        ground,
        fertile,
        depth,
    ));
    assert(spec_mountain_column(origin_y + d, ground + d, depth, frost_line + d, snow_line + d)
        =~= spec_mountain_column(origin_y, ground, depth, frost_line, snow_line));
}

/// The debug column is a bar `height` blocks tall, shaded `level * 4`, with
/// air above: its solid part grows with the height and never with anything
/// else.
pub proof fn lemma_debug_column_is_a_bar(height: int, level: int, y: int)
    requires
        0 <= y < 64,
        0 <= level * 4 <= 255,
    ensures
        (spec_debug_column(height, level)[y] is Other) <==> y < height,
        y < height ==> spec_debug_column(height, level)[y] == Block::Other((level * 4) as u8),
        y >= height ==> spec_debug_column(height, level)[y] == Block::Void,
        height <= y ==> spec_debug_column(height + 1, level)[y] == (if y == height {
            Block::Other((level * 4) as u8)
        } else {
            Block::Void
        }),
{
}

} // verus!
