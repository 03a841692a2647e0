use vstd::prelude::*;
use crate::chunk::{spec_lod_step, LoD};
use crate::geometry::Int3;

verus! {

/// `a` comes before `b` in x, then y, then z order.
pub open spec fn lex_lt(a: Int3, b: Int3) -> bool {
    a.x < b.x || (a.x == b.x && (a.y < b.y || (a.y == b.y && a.z < b.z)))
}

/// `c` is before the position `(x, y, z)` in x, then y, then z order.
pub open spec fn before(c: Int3, x: int, y: int, z: int) -> bool {
    c.x < x || (c.x == x && (c.y < y || (c.y == y && c.z < z)))
}

/// `c` lies in the box from `lo` to `hi`, both corners included.
pub open spec fn in_box(c: Int3, lo: Int3, hi: Int3) -> bool {
    lo.x <= c.x <= hi.x && lo.y <= c.y <= hi.y && lo.z <= c.z <= hi.z
}

/// `s` lists every position of the box exactly once, in x, then y, then z order.
pub open spec fn lists_box(s: Seq<Int3>, lo: Int3, hi: Int3) -> bool {
    &&& forall|i: int, j: int| 0 <= i < j < s.len() ==> lex_lt(#[trigger] s[i], #[trigger] s[j])
    &&& forall|c: Int3| s.contains(c) <==> in_box(c, lo, hi)
}

/// Every chunk position in the box from `lo` to `hi`, both corners included,
/// in x, then y, then z order.
pub fn chunks_in_box(lo: Int3, hi: Int3) -> (r: Vec<Int3>)
    ensures
        lists_box(r@, lo, hi),
{
    let mut r: Vec<Int3> = Vec::new();
    if lo.x > hi.x || lo.y > hi.y || lo.z > hi.z {
        assert forall|c: Int3| r@.contains(c) <==> in_box(c, lo, hi) by {}
        return r;
    }
    let mut x: i64 = lo.x as i64;
    while x <= hi.x as i64
        invariant
            lo.x <= x <= hi.x + 1,
            lo.y <= hi.y,
            lo.z <= hi.z,
            forall|i: int, j: int| 0 <= i < j < r@.len() ==> lex_lt(#[trigger] r@[i], #[trigger] r@[j]),
            forall|i: int| 0 <= i < r@.len() ==> before(#[trigger] r@[i], x as int, lo.y as int, lo.z as int),
            forall|c: Int3| r@.contains(c) <==> (in_box(c, lo, hi) && before(c, x as int, lo.y as int, lo.z as int)),
        decreases hi.x + 1 - x,
    {
        let xi = x as i32;
        let mut y: i64 = lo.y as i64;
        while y <= hi.y as i64
            invariant
                lo.x <= xi <= hi.x,
                x == xi,
                lo.y <= y <= hi.y + 1,
                lo.z <= hi.z,
                forall|i: int, j: int| 0 <= i < j < r@.len() ==> lex_lt(#[trigger] r@[i], #[trigger] r@[j]),
                forall|i: int| 0 <= i < r@.len() ==> before(#[trigger] r@[i], xi as int, y as int, lo.z as int),
                forall|c: Int3| r@.contains(c) <==> (in_box(c, lo, hi) && before(c, xi as int, y as int, lo.z as int)),
            decreases hi.y + 1 - y,
        {
            let yi = y as i32;
            let mut z: i64 = lo.z as i64;
            while z <= hi.z as i64
                invariant
                    lo.x <= xi <= hi.x,
                    lo.y <= yi <= hi.y,
                    x == xi,
                    y == yi,
                    lo.z <= z <= hi.z + 1,
                    forall|i: int, j: int| 0 <= i < j < r@.len() ==> lex_lt(#[trigger] r@[i], #[trigger] r@[j]),
                    forall|i: int| 0 <= i < r@.len() ==> before(#[trigger] r@[i], xi as int, yi as int, z as int),
                    forall|c: Int3| r@.contains(c) <==> (in_box(c, lo, hi) && before(c, xi as int, yi as int, z as int)),
                decreases hi.z + 1 - z,
            {
                let ghost prev = r@;
                let p = Int3 { x: xi, y: yi, z: z as i32 };
                r.push(p);
                z += 1;
                assert forall|c: Int3| r@.contains(c) <==> (in_box(c, lo, hi) && before(c, xi as int, yi as int, z as int)) by {
                    if r@.contains(c) {
                        let k = choose|k: int| 0 <= k < r@.len() && r@[k] == c;
                        if k < prev.len() {
                            assert(prev.contains(c));
                        }
                    }
                    if in_box(c, lo, hi) && before(c, xi as int, yi as int, z as int) {
                        if c == p {
                            assert(r@[prev.len() as int] == c);
                        } else {
                            assert(prev.contains(c));
                            let k = choose|k: int| 0 <= k < prev.len() && prev[k] == c;
                            assert(r@[k] == c);
                        }
                    }
                }
            }
            y += 1;
            assert forall|c: Int3| r@.contains(c) <==> (in_box(c, lo, hi) && before(c, xi as int, y as int, lo.z as int)) by {}
        }
        x += 1;
        assert forall|c: Int3| r@.contains(c) <==> (in_box(c, lo, hi) && before(c, x as int, lo.y as int, lo.z as int)) by {}
    }
    assert forall|c: Int3| r@.contains(c) <==> in_box(c, lo, hi) by {}
    r
}

/// The size and seed of the generated world.
#[derive(Clone, Copy, PartialEq, Eq, Debug, Structural)]
pub struct MapDescriptor {
    pub seed: u32,
    pub world_size: Int3,
}

impl Default for MapDescriptor {
    fn default() -> (r: MapDescriptor)
        ensures
            r == (MapDescriptor { seed: 0, world_size: Int3 { x: 16, y: 0, z: 16 } }),
    {
        MapDescriptor { seed: 0, world_size: Int3 { x: 16, y: 0, z: 16 } }
    }
}

impl MapDescriptor {
    /// Every axis of the size can be negated.
    pub open spec fn size_ok(&self) -> bool {
        self.world_size.x > i32::MIN && self.world_size.y > i32::MIN && self.world_size.z > i32::MIN
    }

    pub open spec fn neg_size(&self) -> Int3 {
        Int3 { x: -self.world_size.x as i32, y: -self.world_size.y as i32, z: -self.world_size.z as i32 }
    }

    /// The chunks queued at start-up: `-size..size` across x and z, `-size..=size`
    /// up and down.
    pub fn initial_chunks(&self) -> (r: Vec<Int3>)
        requires
            self.size_ok(),
        ensures
            lists_box(
                r@,
                self.neg_size(),
                Int3 { x: (self.world_size.x - 1) as i32, y: self.world_size.y, z: (self.world_size.z - 1) as i32 },
            ),
    {
        let w = self.world_size;
        chunks_in_box(Int3 { x: -w.x, y: -w.y, z: -w.z }, Int3 { x: w.x - 1, y: w.y, z: w.z - 1 })
    }

    /// The chunks kept when the map is regenerated: `-size..=size` on every axis.
    pub fn regeneration_chunks(&self) -> (r: Vec<Int3>)
        requires
            self.size_ok(),
        ensures
            lists_box(r@, self.neg_size(), self.world_size),
    {
        let w = self.world_size;
        chunks_in_box(Int3 { x: -w.x, y: -w.y, z: -w.z }, w)
    }

    /// Whether a chunk survives regeneration: it lies in `-size..=size` on every
    /// axis.
    pub fn keeps(&self, chunk: Int3) -> (r: bool)
        requires
            self.size_ok(),
        ensures
            r == in_box(chunk, self.neg_size(), self.world_size),
    {
        let w = self.world_size;
        -w.x <= chunk.x && chunk.x <= w.x && -w.y <= chunk.y && chunk.y <= w.y && -w.z <= chunk.z
            && chunk.z <= w.z
    }
}

/// The map boxes: regeneration keeps every chunk from `-size` to `size` on
/// each axis, corners included, and nothing one chunk further out; start-up
/// queues `-size` up to but not including `size` across x and z, and the full
/// `-size..=size` up and down. Boxes are listed with x slowest and z fastest.
pub proof fn lemma_map_boxes(w: Int3, c: Int3)
    requires
        0 <= w.x < i32::MAX && 0 <= w.y < i32::MAX && 0 <= w.z < i32::MAX,
    ensures
        ({
            let neg = Int3 { x: -w.x as i32, y: -w.y as i32, z: -w.z as i32 };
            let init_hi = Int3 { x: (w.x - 1) as i32, y: w.y, z: (w.z - 1) as i32 };
            &&& in_box(c, neg, w) <==> (-w.x <= c.x <= w.x && -w.y <= c.y <= w.y && -w.z <= c.z <= w.z)
            &&& in_box(w, neg, w) && in_box(neg, neg, w)
            &&& !in_box(Int3 { x: (w.x + 1) as i32, y: 0, z: 0 }, neg, w)
            &&& in_box(c, neg, init_hi) <==> (-w.x <= c.x < w.x && -w.y <= c.y <= w.y && -w.z <= c.z < w.z)
            &&& w.x > 0 && w.z > 0 ==> in_box(neg, neg, init_hi) && !in_box(w, neg, init_hi)
        }),
        lex_lt(Int3 { x: 0, y: 5, z: 5 }, Int3 { x: 1, y: 0, z: 0 }),
        lex_lt(Int3 { x: 0, y: 0, z: 5 }, Int3 { x: 0, y: 1, z: 0 }),
        lex_lt(Int3 { x: 0, y: 0, z: 0 }, Int3 { x: 0, y: 0, z: 1 }),
        !lex_lt(c, c),
{
}

/// The level of detail for a chunk whose squared distance from the origin, in
/// chunks, is `d2`: under 16 chunks away full detail, then halving at 32, 48
/// and 64 chunks.
pub open spec fn spec_lod_for_distance_sq(d2: int) -> LoD {
    if d2 < 256 {
        LoD::LOD1
    } else if d2 < 1024 {
        LoD::LOD2
    } else if d2 < 2304 {
        LoD::LOD4
    } else if d2 < 4096 {
        LoD::LOD8
    } else {
        LoD::LOD16
    }
}

/// Detail falls off with distance from the origin: full detail within 16
/// chunks, at most two blocks per slab within 32, four within 48, eight within
/// 64, and sixteen beyond; a farther chunk never gets finer detail than a
/// nearer one.
pub proof fn lemma_lod_by_distance(d2: int, e2: int)
    requires
        0 <= d2 <= e2,
    ensures
        spec_lod_step(spec_lod_for_distance_sq(d2)) <= spec_lod_step(spec_lod_for_distance_sq(e2)),
        spec_lod_step(spec_lod_for_distance_sq(d2)) == 1 <==> d2 < 16 * 16,
        spec_lod_step(spec_lod_for_distance_sq(d2)) <= 2 <==> d2 < 32 * 32,
        spec_lod_step(spec_lod_for_distance_sq(d2)) <= 4 <==> d2 < 48 * 48,
        spec_lod_step(spec_lod_for_distance_sq(d2)) <= 8 <==> d2 < 64 * 64,
        spec_lod_step(spec_lod_for_distance_sq(d2)) == 16 <==> d2 >= 64 * 64,
{
}

pub fn lod_for_distance_sq(d2: u64) -> (r: LoD)
    ensures
        r == spec_lod_for_distance_sq(d2 as int),
{
    if d2 < 256 {
        LoD::LOD1
    } else if d2 < 1024 {
        LoD::LOD2
    } else if d2 < 2304 {
        LoD::LOD4
    } else if d2 < 4096 {
        LoD::LOD8
    } else {
        LoD::LOD16
    }
}

/// The squared distance of a chunk from the origin, in chunks.
pub fn distance_sq(c: Int3) -> (d2: u64)
    ensures
        d2 as int == c.x * c.x + c.y * c.y + c.z * c.z,
{
    let x = c.x as i64;
    let y = c.y as i64;
    let z = c.z as i64;
    assert(x * x <= 0x4000_0000_0000_0000 && y * y <= 0x4000_0000_0000_0000 && z * z
        <= 0x4000_0000_0000_0000) by (nonlinear_arith)
        requires
            -0x8000_0000 <= x <= 0x7fff_ffff,
            -0x8000_0000 <= y <= 0x7fff_ffff,
            -0x8000_0000 <= z <= 0x7fff_ffff,
    ;
    assert(x * x >= 0 && y * y >= 0 && z * z >= 0) by (nonlinear_arith);
    (x * x) as u64 + (y * y) as u64 + (z * z) as u64
}

/// What the chunk generator does after collecting finished chunks.
#[derive(Clone, Copy, PartialEq, Eq, Debug, Structural)]
pub struct GenerationStep {
    /// Say that every chunk is generated.
    pub announce_done: bool,
    /// Whether everything is generated, for the next round.
    pub done: bool,
    /// Start generating more chunks.
    pub generate: bool,
}

/// Decides the generator's next step: announce completion once, when nothing
/// is running or queued; forget completion when chunks are queued; start more
/// work unless more than `max_tasks` are running.
pub fn generation_step(done: bool, running: usize, queued: usize, max_tasks: usize) -> (r: GenerationStep)
    ensures
        r.announce_done == (running == 0 && !done && queued == 0),
        r.done == if queued != 0 {
            false
        } else {
            done || running == 0
        },
        r.generate == (running <= max_tasks),
{
    let mut d = done;
    let mut announce = false;
    if running == 0 && !d && queued == 0 {
        announce = true;
        d = true;
    }
    if queued != 0 {
        d = false;
    }
    GenerationStep { announce_done: announce, done: d, generate: !(running > max_tasks) }
}

impl LoD {
    /// Whether chunks with this hint are drawn: all but empty ones.
    pub fn is_visible(&self) -> (r: bool)
        ensures
            r == (*self != LoD::Empty),
    {
        !matches!(self, LoD::Empty)
    }
}

} // verus!
