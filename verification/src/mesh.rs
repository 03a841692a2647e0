use vstd::prelude::*;
use crate::chunk::{spec_lod_step, LoD};

verus! {

/// A chunk mesh of axis-aligned slabs, with positions on a grid: coordinate `k`
/// (0 to 64) stands for `k / 32 - 1`, so the mesh spans the cube `[-1, 1]³`.
/// Normals are unit axis vectors.
pub struct GridMesh {
    pub positions: Vec<(u8, u8, u8)>,
    pub normals: Vec<(i8, i8, i8)>,
    pub indices: Vec<u16>,
}

/// The two in-plane grid coordinates of slab corner `c`, walked
/// (0,0), (0,64), (64,64), (64,0).
pub open spec fn corner_a(c: int) -> (int, int) {
    if c == 0 {
        (0, 0)
    } else if c == 1 {
        (0, 64)
    } else if c == 2 {
        (64, 64)
    } else {
        (64, 0)
    }
}

/// The two in-plane grid coordinates of slab corner `c`, walked
/// (0,0), (64,0), (64,64), (0,64).
pub open spec fn corner_b(c: int) -> (int, int) {
    if c == 0 {
        (0, 0)
    } else if c == 1 {
        (64, 0)
    } else if c == 2 {
        (64, 64)
    } else {
        (0, 64)
    }
}

/// Corner `c` of a square in the plane `plane` across `axis`: axis 0 is z
/// (corners over x, y), axis 1 is x (corners over y, z), axis 2 is y (corners
/// over x, z, the other way round).
pub open spec fn slab_corner(axis: int, plane: int, c: int) -> (u8, u8, u8) {
    if axis == 0 {
        (corner_a(c).0 as u8, corner_a(c).1 as u8, plane as u8)
    } else if axis == 1 {
        (plane as u8, corner_a(c).0 as u8, corner_a(c).1 as u8)
    } else {
        (corner_b(c).0 as u8, plane as u8, corner_b(c).1 as u8)
    }
}

/// Vertex `j` (0 to 7) of slab `i` across `axis` when a slab spans `step` blocks:
/// the first four lie on the slab's near plane, the last four on its far plane.
pub open spec fn mesh_vertex(axis: int, i: int, step: int, j: int) -> (u8, u8, u8) {
    let plane = if j < 4 {
        i * step
    } else {
        (i + 1) * step
    };
    slab_corner(axis, plane, j % 4)
}

/// Normal of vertex `j` of a slab across `axis`: pointing back for the near
/// plane, forward for the far plane.
pub open spec fn mesh_normal(axis: int, j: int) -> (i8, i8, i8) {
    let s: i8 = if j < 4 {
        -1i8
    } else {
        1i8
    };
    if axis == 0 {
        (0, 0, s)
    } else if axis == 1 {
        (s, 0, 0)
    } else {
        (0, s, 0)
    }
}

/// Index pattern of one slab: two triangles on each plane, the far pair wound
/// the other way.
pub open spec fn slab_pattern(j: int) -> int {
    if j == 0 {
        0
    } else if j == 1 {
        1
    } else if j == 2 {
        2
    } else if j == 3 {
        0
    } else if j == 4 {
        2
    } else if j == 5 {
        3
    } else if j == 6 {
        4
    } else if j == 7 {
        6
    } else if j == 8 {
        5
    } else if j == 9 {
        4
    } else if j == 10 {
        7
    } else {
        6
    }
}

pub open spec fn axis_positions(axis: int, stride: int, step: int) -> Seq<(u8, u8, u8)> {
    Seq::new((8 * stride) as nat, |k: int| mesh_vertex(axis, k / 8, step, k % 8))
}

pub open spec fn axis_normals(axis: int, stride: int) -> Seq<(i8, i8, i8)> {
    Seq::new((8 * stride) as nat, |k: int| mesh_normal(axis, k % 8))
}

pub open spec fn axis_indices(axis: int, stride: int) -> Seq<u16> {
    Seq::new(
        (12 * stride) as nat,
        |k: int| (axis * stride * 8 + (k / 12) * 8 + slab_pattern(k % 12)) as u16,
    )
}

/// The mesh of `stride` slabs per axis, each `step` blocks thick: z slabs, then
/// x slabs, then y slabs.
pub open spec fn spec_slab_mesh(stride: int, step: int) -> (
    Seq<(u8, u8, u8)>,
    Seq<(i8, i8, i8)>,
    Seq<u16>,
) {
    (
        axis_positions(0, stride, step) + axis_positions(1, stride, step) + axis_positions(
            2,
            stride,
            step,
        ),
        axis_normals(0, stride) + axis_normals(1, stride) + axis_normals(2, stride),
        axis_indices(0, stride) + axis_indices(1, stride) + axis_indices(2, stride),
    )
}

impl GridMesh {
    pub open spec fn spec_parts(&self) -> (Seq<(u8, u8, u8)>, Seq<(i8, i8, i8)>, Seq<u16>) {
        (self.positions@, self.normals@, self.indices@)
    }
}

fn corner(axis: u8, plane: u8, c: u8) -> (r: (u8, u8, u8))
    requires
        axis < 3,
        c < 4,
    ensures
        r == slab_corner(axis as int, plane as int, c as int),
{
    let (p, q): (u8, u8) = if axis == 2 {
        if c == 0 {
            (0, 0)
        } else if c == 1 {
            (64, 0)
        } else if c == 2 {
            (64, 64)
        } else {
            (0, 64)
        }
    } else {
        if c == 0 {
            (0, 0)
        } else if c == 1 {
            (0, 64)
        } else if c == 2 {
            (64, 64)
        } else {
            (64, 0)
        }
    };
    if axis == 0 {
        (p, q, plane)
    } else if axis == 1 {
        (plane, p, q)
    } else {
        (p, plane, q)
    }
}

proof fn lemma_div_mod_8(i: int, j: int)
    requires
        0 <= j < 8,
        0 <= i,
    ensures
        (8 * i + j) / 8 == i,
        (8 * i + j) % 8 == j,
{
    vstd::arithmetic::div_mod::lemma_fundamental_div_mod_converse(8 * i + j, 8, i, j);
}

proof fn lemma_div_mod_12(i: int, j: int)
    requires
        0 <= j < 12,
        0 <= i,
    ensures
        (12 * i + j) / 12 == i,
        (12 * i + j) % 12 == j,
{
    vstd::arithmetic::div_mod::lemma_fundamental_div_mod_converse(12 * i + j, 12, i, j);
}

/// Appends the twelve indices of the slab whose vertices start at `offset`.
fn push_slab_indices(v: &mut Vec<u16>, offset: u16)
    requires
        offset as int + 7 <= u16::MAX,
    ensures
        final(v)@ == old(v)@ + Seq::new(12, |c: int| (offset + slab_pattern(c)) as u16),
{
    v.push(offset);
    v.push(offset + 1);
    v.push(offset + 2);
    v.push(offset);
    v.push(offset + 2);
    v.push(offset + 3);
    v.push(offset + 4);
    v.push(offset + 6);
    v.push(offset + 5);
    v.push(offset + 4);
    v.push(offset + 7);
    v.push(offset + 6);
    assert(final(v)@ =~= old(v)@ + Seq::new(12, |c: int| (offset + slab_pattern(c)) as u16));
}

/// Appends the slabs across one axis.
fn push_axis(mesh: &mut GridMesh, axis: u8, stride: u8, step: u8)
    requires
        axis < 3,
        1 <= step,
        stride as int * step as int == 64,
        old(mesh).positions@.len() == 8 * stride * axis,
        old(mesh).normals@.len() == 8 * stride * axis,
    ensures
        final(mesh).positions@ == old(mesh).positions@ + axis_positions(
            axis as int,
            stride as int,
            step as int,
        ),
        final(mesh).normals@ == old(mesh).normals@ + axis_normals(axis as int, stride as int),
        final(mesh).indices@ == old(mesh).indices@ + axis_indices(axis as int, stride as int),
{
    let ghost p0 = mesh.positions@;
    let ghost n0 = mesh.normals@;
    let ghost i0 = mesh.indices@;
    assert(stride <= 64) by (nonlinear_arith)
        requires
            stride as int * step as int == 64,
            1 <= step,
    ;
    let mut i: u8 = 0;
    while i < stride
        invariant
            axis < 3,
            1 <= step,
            stride <= 64,
            stride as int * step as int == 64,
            i <= stride,
            mesh.positions@ == p0 + Seq::new(
                (8 * i) as nat,
                |k: int| mesh_vertex(axis as int, k / 8, step as int, k % 8),
            ),
            mesh.normals@ == n0 + Seq::new((8 * i) as nat, |k: int| mesh_normal(axis as int, k % 8)),
            mesh.indices@ == i0,
        decreases stride - i,
    {
        assert((i as int + 1) * step as int <= 64 && i as int * step as int <= 64) by (nonlinear_arith)
            requires
                i < stride,
                stride as int * step as int == 64,
                1 <= step,
        ;
        let near: u8 = i * step;
        let far: u8 = (i + 1) * step;
        let ghost pp = mesh.positions@;
        let ghost nn = mesh.normals@;
        let mut j: u8 = 0;
        while j < 8
            invariant
                axis < 3,
                j <= 8,
                near as int == i * step,
                far as int == (i + 1) * step,
                mesh.positions@ == pp + Seq::new(
                    j as nat,
                    |c: int| mesh_vertex(axis as int, i as int, step as int, c),
                ),
                mesh.normals@ == nn + Seq::new(j as nat, |c: int| mesh_normal(axis as int, c)),
                mesh.indices@ == i0,
            decreases 8 - j,
        {
            let plane = if j < 4 {
                near
            } else {
                far
            };
            let v = corner(axis, plane, j % 4);
            mesh.positions.push(v);
            let s: i8 = if j < 4 {
                -1
            } else {
                1
            };
            let n = if axis == 0 {
                (0i8, 0i8, s)
            } else if axis == 1 {
                (s, 0i8, 0i8)
            } else {
                (0i8, s, 0i8)
            };
            mesh.normals.push(n);
            j += 1;
            assert(mesh.positions@ =~= pp + Seq::new(
                j as nat,
                |c: int| mesh_vertex(axis as int, i as int, step as int, c),
            ));
            assert(mesh.normals@ =~= nn + Seq::new(j as nat, |c: int| mesh_normal(axis as int, c)));
        }
        proof {
            let f = |k: int| mesh_vertex(axis as int, k / 8, step as int, k % 8);
            let g = |k: int| mesh_normal(axis as int, k % 8);
            assert forall|c: int| 0 <= c < 8 implies f(8 * i + c) == mesh_vertex(
                axis as int,
                i as int,
                step as int,
                c,
            ) && g(8 * i + c) == mesh_normal(axis as int, c) by {
                lemma_div_mod_8(i as int, c);
            }
            assert(Seq::new((8 * (i + 1)) as nat, f) =~= Seq::new((8 * i) as nat, f) + Seq::new(
                8,
                |c: int| mesh_vertex(axis as int, i as int, step as int, c),
            ));
            assert(Seq::new((8 * (i + 1)) as nat, g) =~= Seq::new((8 * i) as nat, g) + Seq::new(
                8,
                |c: int| mesh_normal(axis as int, c),
            ));
        }
        i += 1;
        assert(mesh.positions@ =~= p0 + Seq::new(
            (8 * i) as nat,
            |k: int| mesh_vertex(axis as int, k / 8, step as int, k % 8),
        ));
        assert(mesh.normals@ =~= n0 + Seq::new(
            (8 * i) as nat,
            |k: int| mesh_normal(axis as int, k % 8),
        ));
    }
    assert(8 * stride as int * axis as int <= 1024) by (nonlinear_arith)
        requires
            stride <= 64,
            axis < 3,
    ;
    let base: u16 = 8 * stride as u16 * axis as u16;
    let mut i: u8 = 0;
    while i < stride
        invariant
            axis < 3,
            stride <= 64,
            i <= stride,
            base as int == 8 * stride * axis,
            mesh.positions@ == p0 + axis_positions(axis as int, stride as int, step as int),
            mesh.normals@ == n0 + axis_normals(axis as int, stride as int),
            mesh.indices@ == i0 + Seq::new(
                (12 * i) as nat,
                |k: int| (axis * stride * 8 + (k / 12) * 8 + slab_pattern(k % 12)) as u16,
            ),
        decreases stride - i,
    {
        assert(base as int + i as int * 8 + 7 <= 1600) by (nonlinear_arith)
            requires
                base as int == 8 * stride * axis,
                axis < 3,
                stride <= 64,
                i < stride,
        ;
        let offset: u16 = base + i as u16 * 8;
        let ghost ii = mesh.indices@;
        push_slab_indices(&mut mesh.indices, offset);
        proof {
            let f = |k: int| (axis * stride * 8 + (k / 12) * 8 + slab_pattern(k % 12)) as u16;
            assert(axis * stride * 8 == base) by (nonlinear_arith)
                requires
                    base as int == 8 * stride * axis,
            ;
            assert forall|c: int| 0 <= c < 12 implies f(12 * i + c) == (offset + slab_pattern(
                c,
            )) as u16 by {
                lemma_div_mod_12(i as int, c);
            }
            assert(Seq::new((12 * (i + 1)) as nat, f) =~= Seq::new((12 * i) as nat, f) + Seq::new(
                12,
                |c: int| (offset + slab_pattern(c)) as u16,
            ));
        }
        i += 1;
    }
    assert(mesh.indices@ =~= i0 + axis_indices(axis as int, stride as int));
}

/// Builds the slab mesh with `stride` slabs per axis, each `step` blocks thick.
fn slab_mesh(stride: u8, step: u8) -> (r: GridMesh)
    requires
        1 <= step,
        stride as int * step as int == 64,
    ensures
        r.spec_parts() == spec_slab_mesh(stride as int, step as int),
{
    let mut mesh = GridMesh { positions: Vec::new(), normals: Vec::new(), indices: Vec::new() };
    push_axis(&mut mesh, 0, stride, step);
    push_axis(&mut mesh, 1, stride, step);
    push_axis(&mut mesh, 2, stride, step);
    assert(mesh.positions@ =~= spec_slab_mesh(stride as int, step as int).0);
    assert(mesh.normals@ =~= spec_slab_mesh(stride as int, step as int).1);
    assert(mesh.indices@ =~= spec_slab_mesh(stride as int, step as int).2);
    mesh
}

/// The full-detail chunk mesh: 64 one-block slabs across each axis.
pub fn make_baked_mesh() -> (r: GridMesh)
    ensures
        r.spec_parts() == spec_slab_mesh(64, 1),
{
    slab_mesh(64, 1)
}

/// The chunk mesh for a level of detail: `64 / step` slabs across each axis,
/// each `step` blocks thick.
pub fn make_baked_mesh_lod(lod: LoD) -> (r: GridMesh)
    ensures
        r.spec_parts() == spec_slab_mesh(64int / spec_lod_step(lod) as int, spec_lod_step(lod) as int),
{
    if lod == LoD::LOD1 {
        assert(64int / spec_lod_step(lod) as int == 64);
        return make_baked_mesh();
    }
    let step = lod.step() as u8;
    assert(step == 1 || step == 2 || step == 4 || step == 8 || step == 16);
    let stride: u8 = 64 / step;
    proof {
        let sp = spec_lod_step(lod) as int;
        assert(sp == step as int);
        if step == 1 {
            assert(sp == 1);
            assert(64int / 1int == 64);
        } else if step == 2 {
            assert(sp == 2);
            assert(64int / 2int == 32);
        } else if step == 4 {
            assert(sp == 4);
            assert(64int / 4int == 16);
        } else if step == 8 {
            assert(sp == 8);
            assert(64int / 8int == 8);
        } else {
            assert(sp == 16);
            assert(64int / 16int == 4);
        }
    }
    slab_mesh(stride, step)
}

/// Every index of a slab mesh names one of its vertices, and every vertex lies
/// on the grid of the cube, coordinates 0 to 64.
pub proof fn lemma_slab_mesh_well_formed(stride: int, step: int)
    requires
        1 <= step,
        stride * step == 64,
    ensures
        ({
            let (pos, nor, idx) = spec_slab_mesh(stride, step);
            &&& pos.len() == 24 * stride
            &&& nor.len() == pos.len()
            &&& forall|k: int| 0 <= k < idx.len() ==> (#[trigger] idx[k] as int) < pos.len()
            &&& forall|k: int|
                0 <= k < pos.len() ==> (#[trigger] pos[k]).0 <= 64 && pos[k].1 <= 64 && pos[k].2 <= 64
        }),
{
    let (pos, nor, idx) = spec_slab_mesh(stride, step);
    assert(1 <= stride <= 64) by (nonlinear_arith)
        requires
            stride * step == 64,
            1 <= step,
    ;
    assert forall|k: int| 0 <= k < idx.len() implies (#[trigger] idx[k] as int) < pos.len() by {
        let a = if k < 12 * stride {
            0
        } else if k < 24 * stride {
            1
        } else {
            2
        };
        let kk = k - 12 * stride * a;
        assert(0 <= kk < 12 * stride);
        let slab = kk / 12;
        assert(0 <= slab < stride) by {
            vstd::arithmetic::div_mod::lemma_div_is_ordered(kk, 12 * stride - 1, 12);
            vstd::arithmetic::div_mod::lemma_fundamental_div_mod_converse(12 * stride - 1, 12, stride - 1, 11);
        }
        assert(0 <= kk % 12 < 12);
        assert(idx[k] == axis_indices(a, stride)[kk]);
        assert(a * stride * 8 + slab * 8 + 7 < 24 * stride) by (nonlinear_arith)
            requires
                0 <= a < 3,
                0 <= slab < stride,
        ;
        assert(0 <= a * stride * 8 + slab * 8) by (nonlinear_arith)
            requires
                0 <= a,
                0 <= slab,
                0 <= stride,
        ;
    }
    assert forall|k: int|
        0 <= k < pos.len() implies (#[trigger] pos[k]).0 <= 64 && pos[k].1 <= 64 && pos[k].2 <= 64 by {
        let a = if k < 8 * stride {
            0
        } else if k < 16 * stride {
            1
        } else {
            2
        };
        let kk = k - 8 * stride * a;
        assert(0 <= kk < 8 * stride);
        let slab = kk / 8;
        assert(0 <= slab < stride) by {
            vstd::arithmetic::div_mod::lemma_div_is_ordered(kk, 8 * stride - 1, 8);
            vstd::arithmetic::div_mod::lemma_fundamental_div_mod_converse(8 * stride - 1, 8, stride - 1, 7);
        }
        assert(pos[k] == axis_positions(a, stride, step)[kk]);
        assert(0 <= slab * step && slab * step <= 64 && (slab + 1) * step <= 64) by (nonlinear_arith)
            requires
                0 <= slab < stride,
                stride * step == 64,
                1 <= step,
        ;
        let j = kk % 8;
        assert(0 <= j < 8);
        let plane = if j < 4 {
            slab * step
        } else {
            (slab + 1) * step
        };
        assert(0 <= plane <= 64);
        assert(pos[k] == slab_corner(a, plane, j % 4));
    }
}

/// Position of vertex `j` (0 to 7) of slab `s` across `axis` in a mesh of
/// `stride` slabs per axis.
pub open spec fn vertex_at(axis: int, stride: int, s: int, j: int) -> int {
    axis * (8 * stride) + 8 * s + j
}

/// Slab `s` of a mesh is a pair of squares `step` blocks apart along its axis,
/// its four near-plane vertices facing back along the axis and its four
/// far-plane vertices facing forward.
pub open spec fn slab_faces_outward(
    pos: Seq<(u8, u8, u8)>,
    nor: Seq<(i8, i8, i8)>,
    stride: int,
    step: int,
    s: int,
    c: int,
) -> bool {
                    &&& nor[vertex_at(0, stride, s, c)] == (0i8, 0i8, -1i8)
                    &&& nor[vertex_at(0, stride, s, c + 4)] == (0i8, 0i8, 1i8)
                    &&& nor[vertex_at(1, stride, s, c)] == (-1i8, 0i8, 0i8)
                    &&& nor[vertex_at(1, stride, s, c + 4)] == (1i8, 0i8, 0i8)
                    &&& nor[vertex_at(2, stride, s, c)] == (0i8, -1i8, 0i8)
                    &&& nor[vertex_at(2, stride, s, c + 4)] == (0i8, 1i8, 0i8)
                    &&& pos[vertex_at(0, stride, s, c + 4)].2 == pos[vertex_at(0, stride, s, c)].2 + step
                    &&& pos[vertex_at(0, stride, s, c + 4)].0 == pos[vertex_at(0, stride, s, c)].0
                    &&& pos[vertex_at(0, stride, s, c + 4)].1 == pos[vertex_at(0, stride, s, c)].1
                    &&& pos[vertex_at(1, stride, s, c + 4)].0 == pos[vertex_at(1, stride, s, c)].0 + step
                    &&& pos[vertex_at(1, stride, s, c + 4)].1 == pos[vertex_at(1, stride, s, c)].1
                    &&& pos[vertex_at(1, stride, s, c + 4)].2 == pos[vertex_at(1, stride, s, c)].2
                    &&& pos[vertex_at(2, stride, s, c + 4)].1 == pos[vertex_at(2, stride, s, c)].1 + step
                    &&& pos[vertex_at(2, stride, s, c + 4)].0 == pos[vertex_at(2, stride, s, c)].0
                    &&& pos[vertex_at(2, stride, s, c + 4)].2 == pos[vertex_at(2, stride, s, c)].2
}

/// Every slab is a pair of squares `step` blocks apart along its axis: z slabs
/// first, then x slabs, then y slabs. The four near-plane vertices face back
/// along the axis and the four far-plane vertices face forward: the far plane
/// of an x slab faces +x, of a y slab +y, of a z slab +z, and each far normal
/// is the negation of the matching near one.
pub proof fn lemma_slab_faces_point_outward(stride: int, step: int)
    requires
        1 <= step,
        stride * step == 64,
    ensures
        forall|s: int, c: int|
            0 <= s < stride && 0 <= c < 4 ==> #[trigger] slab_faces_outward(
                spec_slab_mesh(stride, step).0,
                spec_slab_mesh(stride, step).1,
                stride,
                step,
                s,
                c,
            ),
{
    let (pos, nor, idx) = spec_slab_mesh(stride, step);
    assert forall|s: int, c: int| 0 <= s < stride && 0 <= c < 4 implies #[trigger] slab_faces_outward(
        pos,
        nor,
        stride,
        step,
        s,
        c,
    ) by {
        lemma_div_mod_8(s, c);
        lemma_div_mod_8(s, c + 4);
        assert(0 <= s * step && (s + 1) * step <= 64) by (nonlinear_arith)
            requires
                0 <= s < stride,
                stride * step == 64,
                1 <= step,
        ;
        assert((s + 1) * step == s * step + step) by (nonlinear_arith);
        assert(pos[vertex_at(0, stride, s, c)] == axis_positions(0, stride, step)[8 * s + c]);
        assert(pos[vertex_at(0, stride, s, c + 4)] == axis_positions(0, stride, step)[8 * s + c + 4]);
        assert(pos[vertex_at(1, stride, s, c)] == axis_positions(1, stride, step)[8 * s + c]);
        assert(pos[vertex_at(1, stride, s, c + 4)] == axis_positions(1, stride, step)[8 * s + c + 4]);
        assert(pos[vertex_at(2, stride, s, c)] == axis_positions(2, stride, step)[8 * s + c]);
        assert(pos[vertex_at(2, stride, s, c + 4)] == axis_positions(2, stride, step)[8 * s + c + 4]);
        assert(nor[vertex_at(0, stride, s, c)] == axis_normals(0, stride)[8 * s + c]);
        assert(nor[vertex_at(0, stride, s, c + 4)] == axis_normals(0, stride)[8 * s + c + 4]);
        assert(nor[vertex_at(1, stride, s, c)] == axis_normals(1, stride)[8 * s + c]);
        assert(nor[vertex_at(1, stride, s, c + 4)] == axis_normals(1, stride)[8 * s + c + 4]);
        assert(nor[vertex_at(2, stride, s, c)] == axis_normals(2, stride)[8 * s + c]);
        assert(nor[vertex_at(2, stride, s, c + 4)] == axis_normals(2, stride)[8 * s + c + 4]);
    }
}

/// Position of index `t` (0 to 11) of slab `s` across `axis` in the index
/// list of a mesh of `stride` slabs per axis.
pub open spec fn index_at(axis: int, stride: int, s: int, t: int) -> int {
    axis * (12 * stride) + 12 * s + t
}

/// Index `t` of slab `s` across `axis`, as a corner number (0 to 7) of that
/// slab.
pub open spec fn slab_corner_of(idx: Seq<u16>, axis: int, stride: int, s: int, t: int) -> int {
    idx[index_at(axis, stride, s, t)] as int - vertex_at(axis, stride, s, 0)
}

/// The twelve indices of slab `s` across `axis`: two triangles over the four
/// distinct near-plane corners, then the same two triangles on the far plane
/// wound the other way, so each plane shows toward the side its normals face.
pub open spec fn slab_triangles(idx: Seq<u16>, axis: int, stride: int, s: int) -> bool {
    let v0 = slab_corner_of(idx, axis, stride, s, 0);
    let v1 = slab_corner_of(idx, axis, stride, s, 1);
    let v2 = slab_corner_of(idx, axis, stride, s, 2);
    let v3 = slab_corner_of(idx, axis, stride, s, 3);
    let v4 = slab_corner_of(idx, axis, stride, s, 4);
    let v5 = slab_corner_of(idx, axis, stride, s, 5);
    &&& 0 <= v0 < 4 && 0 <= v1 < 4 && 0 <= v2 < 4 && 0 <= v3 < 4 && 0 <= v4 < 4 && 0 <= v5 < 4
    &&& v0 != v1 && v1 != v2 && v0 != v2
    &&& v3 != v4 && v4 != v5 && v3 != v5
    &&& (v0 == 0 || v1 == 0 || v2 == 0 || v3 == 0 || v4 == 0 || v5 == 0)
    &&& (v0 == 1 || v1 == 1 || v2 == 1 || v3 == 1 || v4 == 1 || v5 == 1)
    &&& (v0 == 2 || v1 == 2 || v2 == 2 || v3 == 2 || v4 == 2 || v5 == 2)
    &&& (v0 == 3 || v1 == 3 || v2 == 3 || v3 == 3 || v4 == 3 || v5 == 3)
    &&& slab_corner_of(idx, axis, stride, s, 6) == v0 + 4
    &&& slab_corner_of(idx, axis, stride, s, 7) == v2 + 4
    &&& slab_corner_of(idx, axis, stride, s, 8) == v1 + 4
    &&& slab_corner_of(idx, axis, stride, s, 9) == v3 + 4
    &&& slab_corner_of(idx, axis, stride, s, 10) == v5 + 4
    &&& slab_corner_of(idx, axis, stride, s, 11) == v4 + 4
}

proof fn lemma_slab_index(stride: int, a: int, s: int, t: int)
    requires
        1 <= stride <= 64,
        0 <= a < 3,
        0 <= s < stride,
        0 <= t < 12,
    ensures
        slab_corner_of(spec_slab_mesh(stride, 1).2, a, stride, s, t) == slab_pattern(t),
{
    let idx = spec_slab_mesh(stride, 1).2;
    lemma_div_mod_12(s, t);
    assert(a * stride * 8 + s * 8 + slab_pattern(t) < 65536) by (nonlinear_arith)
        requires
            0 <= a < 3,
            0 <= s < stride,
            stride <= 64,
            0 <= slab_pattern(t) < 8,
    ;
    assert(0 <= a * stride * 8 + s * 8) by (nonlinear_arith)
        requires
            0 <= a,
            0 <= s,
            0 <= stride,
    ;
    assert(a * (8 * stride) == a * stride * 8) by (nonlinear_arith);
    if a == 0 {
        assert(idx[index_at(a, stride, s, t)] == axis_indices(0, stride)[12 * s + t]);
    } else if a == 1 {
        assert(idx[index_at(a, stride, s, t)] == axis_indices(1, stride)[12 * s + t]);
    } else {
        assert(idx[index_at(a, stride, s, t)] == axis_indices(2, stride)[12 * s + t]);
    }
}

/// Every slab of a mesh is drawn as two triangles on each of its planes, the
/// far plane's wound opposite to the near plane's.
pub proof fn lemma_slab_triangles(stride: int, step: int)
    requires
        1 <= step,
        stride * step == 64,
    ensures
        forall|a: int, s: int|
            0 <= a < 3 && 0 <= s < stride ==> #[trigger] slab_triangles(spec_slab_mesh(stride, step).2, a, stride, s),
{
    assert(1 <= stride <= 64) by (nonlinear_arith)
        requires
            stride * step == 64,
            1 <= step,
    ;
    assert(spec_slab_mesh(stride, step).2 == spec_slab_mesh(stride, 1).2);
    assert forall|a: int, s: int| 0 <= a < 3 && 0 <= s < stride implies #[trigger] slab_triangles(
        spec_slab_mesh(stride, step).2,
        a,
        stride,
        s,
    ) by {
        lemma_slab_index(stride, a, s, 0);
        lemma_slab_index(stride, a, s, 1);
        lemma_slab_index(stride, a, s, 2);
        lemma_slab_index(stride, a, s, 3);
        lemma_slab_index(stride, a, s, 4);
        lemma_slab_index(stride, a, s, 5);
        lemma_slab_index(stride, a, s, 6);
        lemma_slab_index(stride, a, s, 7);
        lemma_slab_index(stride, a, s, 8);
        lemma_slab_index(stride, a, s, 9);
        lemma_slab_index(stride, a, s, 10);
        lemma_slab_index(stride, a, s, 11);
    }
}

/// The full-detail mesh is also what the `Solid` and `Empty` hints get.
pub proof fn lemma_unit_step_lods_share_mesh(lod: LoD)
    requires
        lod == LoD::LOD1 || lod == LoD::Solid || lod == LoD::Empty,
    ensures
        spec_slab_mesh(64int / spec_lod_step(lod) as int, spec_lod_step(lod) as int) == spec_slab_mesh(64, 1),
{
}

} // verus!
