use vstd::prelude::*;

verus! {

/// Edge length of a cubic chunk, in blocks.
pub const CHUNK_SIZE: usize = 64;

/// Edge length of a chunk block (a group of chunks sharing one parent), in chunks.
pub const CHUNK_BLOCK_SIZE: i32 = 3;

/// Half a chunk, the shift between world block coordinates and chunk space.
pub const HALF_CHUNK: i32 = 32;

/// An integer 3-vector: a block position, a chunk position or an offset.
#[derive(Clone, Copy, PartialEq, Eq, Hash, Debug, Structural)]
pub struct Int3 {
    pub x: i32,
    pub y: i32,
    pub z: i32,
}

/// Whether an integer fits an `i32`.
pub open spec fn fits_i32(v: int) -> bool {
    i32::MIN <= v <= i32::MAX
}

/// Floor division by a positive divisor (the Euclidean quotient).
pub open spec fn floor_div(a: int, b: int) -> int
    recommends
        b > 0,
{
    a / b
}

/// Division rounding toward zero, as `/` on `i32` does.
pub open spec fn trunc_div(a: int, b: int) -> int
    recommends
        b != 0,
{
    if a >= 0 {
        if b > 0 { a / b } else { -(a / (-b)) }
    } else {
        if b > 0 { -((-a) / b) } else { (-a) / (-b) }
    }
}

/// `|a - b|`.
pub open spec fn abs_diff(a: int, b: int) -> int {
    if a >= b { a - b } else { b - a }
}

pub open spec fn max3(a: int, b: int, c: int) -> int {
    if a >= b && a >= c { a } else if b >= c { b } else { c }
}

/// Floor division of an `i32` by 64.
pub fn div_floor_chunk(a: i32) -> (q: i32)
    ensures
        q as int == floor_div(a as int, 64),
{
    if a >= 0 {
        a / 64
    } else {
        let n: i32 = -(a + 1);
        let r: i32 = n / 64;
        assert(floor_div(a as int, 64) == -(n as int / 64) - 1) by {
            assert(n as int == -(a as int) - 1);
            let qq = n as int / 64;
            assert(n as int == 64 * qq + n as int % 64);
            assert(0 <= n as int % 64 < 64);
            assert(a as int == 64 * (-qq - 1) + (63 - n as int % 64));
            vstd::arithmetic::div_mod::lemma_fundamental_div_mod_converse(
                a as int,
                64,
                -qq - 1,
                63 - n as int % 64,
            );
        }
        -r - 1
    }
}

/// The Euclidean remainder of an `i32` by 64, in `0..64`.
pub fn rem_floor_chunk(a: i32) -> (r: u8)
    ensures
        r as int == a as int % 64,
        r < 64,
{
    let q: i32 = div_floor_chunk(a);
    assert(a as int == 64 * (a as int / 64) + a as int % 64);
    let r: i64 = a as i64 - 64 * q as i64;
    r as u8
}

/// `|a - b|` as the `u32` it always fits.
pub fn abs_diff_i32(a: i32, b: i32) -> (d: u32)
    ensures
        d as int == abs_diff(a as int, b as int),
{
    if a >= b {
        (a as i64 - b as i64) as u32
    } else {
        (b as i64 - a as i64) as u32
    }
}

impl Int3 {
    pub fn new(x: i32, y: i32, z: i32) -> (r: Int3)
        ensures
            r == (Int3 { x, y, z }),
    {
        Int3 { x, y, z }
    }

    /// The vector with all three components equal to `v`.
    pub fn splat(v: i32) -> (r: Int3)
        ensures
            r == (Int3 { x: v, y: v, z: v }),
    {
        Int3 { x: v, y: v, z: v }
    }

    pub open spec fn spec_add(self, o: Int3) -> Int3 {
        Int3 {
            x: (self.x + o.x) as i32,
            y: (self.y + o.y) as i32,
            z: (self.z + o.z) as i32,
        }
    }

    pub open spec fn spec_sub(self, o: Int3) -> Int3 {
        Int3 {
            x: (self.x - o.x) as i32,
            y: (self.y - o.y) as i32,
            z: (self.z - o.z) as i32,
        }
    }

    pub open spec fn add_fits(self, o: Int3) -> bool {
        fits_i32(self.x + o.x) && fits_i32(self.y + o.y) && fits_i32(self.z + o.z)
    }

    pub open spec fn sub_fits(self, o: Int3) -> bool {
        fits_i32(self.x - o.x) && fits_i32(self.y - o.y) && fits_i32(self.z - o.z)
    }

    pub open spec fn scale_fits(self, k: int) -> bool {
        fits_i32(self.x * k) && fits_i32(self.y * k) && fits_i32(self.z * k)
    }

    pub open spec fn spec_scale(self, k: int) -> Int3 {
        Int3 { x: (self.x * k) as i32, y: (self.y * k) as i32, z: (self.z * k) as i32 }
    }

    pub fn add(self, o: Int3) -> (r: Int3)
        requires
            self.add_fits(o),
        ensures
            r == self.spec_add(o),
    {
        Int3 { x: self.x + o.x, y: self.y + o.y, z: self.z + o.z }
    }

    pub fn sub(self, o: Int3) -> (r: Int3)
        requires
            self.sub_fits(o),
        ensures
            r == self.spec_sub(o),
    {
        Int3 { x: self.x - o.x, y: self.y - o.y, z: self.z - o.z }
    }

    /// Component-wise product with `k`.
    pub fn scale(self, k: i32) -> (r: Int3)
        requires
            self.scale_fits(k as int),
        ensures
            r == self.spec_scale(k as int),
    {
        Int3 { x: self.x * k, y: self.y * k, z: self.z * k }
    }

    /// Chebyshev distance: the largest component-wise distance.
    pub open spec fn spec_chebyshev(self, o: Int3) -> int {
        max3(abs_diff(self.x as int, o.x as int), abs_diff(self.y as int, o.y as int),
            abs_diff(self.z as int, o.z as int))
    }

    /// Manhattan distance: the sum of the component-wise distances.
    pub open spec fn spec_manhattan(self, o: Int3) -> int {
        abs_diff(self.x as int, o.x as int) + abs_diff(self.y as int, o.y as int) + abs_diff(
            self.z as int,
            o.z as int,
        )
    }

    pub fn chebyshev_distance(self, o: Int3) -> (d: u32)
        ensures
            d as int == self.spec_chebyshev(o),
    {
        let dx = abs_diff_i32(self.x, o.x);
        let dy = abs_diff_i32(self.y, o.y);
        let dz = abs_diff_i32(self.z, o.z);
        if dx >= dy && dx >= dz {
            dx
        } else if dy >= dz {
            dy
        } else {
            dz
        }
    }

    /// Manhattan distance, as a `u32`: the sum must fit one.
    pub fn manhattan_distance(self, o: Int3) -> (d: u32)
        requires
            self.spec_manhattan(o) <= u32::MAX,
        ensures
            d as int == self.spec_manhattan(o),
    {
        abs_diff_i32(self.x, o.x) + abs_diff_i32(self.y, o.y) + abs_diff_i32(self.z, o.z)
    }
}

/// Vector arithmetic works axis by axis where it fits: the sum, difference and
/// scaled vector have the sums, differences and products of the coordinates;
/// the Chebyshev distance is the largest of the per-axis distances and the
/// Manhattan distance their sum.
pub proof fn lemma_vector_laws(a: Int3, b: Int3, k: int)
    ensures
        a.add_fits(b) ==> a.spec_add(b).x == a.x + b.x && a.spec_add(b).y == a.y + b.y
            && a.spec_add(b).z == a.z + b.z,
        a.sub_fits(b) ==> a.spec_sub(b).x == a.x - b.x && a.spec_sub(b).y == a.y - b.y
            && a.spec_sub(b).z == a.z - b.z,
        a.scale_fits(k) ==> a.spec_scale(k).x == a.x * k && a.spec_scale(k).y == a.y * k
            && a.spec_scale(k).z == a.z * k,
        ({
            let dx = if a.x >= b.x { a.x - b.x } else { b.x - a.x };
            let dy = if a.y >= b.y { a.y - b.y } else { b.y - a.y };
            let dz = if a.z >= b.z { a.z - b.z } else { b.z - a.z };
            &&& a.spec_chebyshev(b) >= dx && a.spec_chebyshev(b) >= dy && a.spec_chebyshev(b) >= dz
            &&& (a.spec_chebyshev(b) == dx || a.spec_chebyshev(b) == dy || a.spec_chebyshev(b) == dz)
            &&& a.spec_manhattan(b) == dx + dy + dz
        }),
        a.spec_chebyshev(b) == b.spec_chebyshev(a),
{
}

/// Floor division by a positive divisor leaves a remainder in `0..b`, and
/// division toward zero leaves one of the dividend's sign, smaller than the
/// divisor in size.
pub proof fn lemma_division_laws(a: int, b: int)
    requires
        b > 0,
    ensures
        floor_div(a, b) * b <= a < floor_div(a, b) * b + b,
        a >= 0 ==> 0 <= a - trunc_div(a, b) * b < b,
        a < 0 ==> -b < a - trunc_div(a, b) * b <= 0,
{
    vstd::arithmetic::div_mod::lemma_fundamental_div_mod(a, b);
    vstd::arithmetic::div_mod::lemma_fundamental_div_mod(-a, b);
    assert(a / b * b == b * (a / b)) by (nonlinear_arith);
    assert((-a) / b * b == b * ((-a) / b)) by (nonlinear_arith);
    assert(-((-a) / b) * b == -(b * ((-a) / b))) by (nonlinear_arith);
}

} // verus!
