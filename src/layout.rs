use vstd::prelude::*;

use vstd::arithmetic::div_mod::{lemma_fundamental_div_mod, lemma_fundamental_div_mod_converse};

use crate::indexer::{effective_subdivisions, PhysicalIndexer, StackType, XYQuarter, ZHalf};
use crate::options::{BoxMeshOptions, MeshError, MAX_SUBDIVISIONS};
use crate::triangles::triangles_valid;
use crate::unwrap::UvCoords;

verus! {

/// What one physical vertex stands for: a point of the logical grid, and the
/// corner of the core box that the fillet around it is attached to.
///
/// Its normal is the unit vector at polar angle `logical_stack` quarter
/// turns `/ (2 subdivisions)` from the top and azimuth `logical_sector`
/// quarter turns `/ subdivisions`; its position is the radius times the
/// normal plus half the core size, signed by `z_half` in z and, when
/// `stretch_xy`, by `quarter` in x and y.
#[derive(Copy, Clone, Debug, PartialEq, Eq, Structural)]
pub struct VertexSample {
    pub logical_sector: u32,
    pub logical_stack: u32,
    pub quarter: XYQuarter,
    pub z_half: ZHalf,
    pub stretch_xy: bool,
}

impl PhysicalIndexer {
    /// The decoded grid point, quadrant, half and stretch of a vertex.
    pub open spec fn sample_spec(self, sector: int, stack: int) -> VertexSample {
        let s = self.decode_sector_spec(sector, stack);
        let t = self.decode_stack_spec(stack);
        VertexSample {
            logical_sector: s.0 as u32,
            logical_stack: t.0 as u32,
            quarter: s.1,
            z_half: t.1,
            stretch_xy: self.stretch_xy_spec(stack),
        }
    }

    /// What vertex `sector` of physical stack `stack` stands for.
    pub fn sample(&self, sector: u32, stack: u32) -> (r: VertexSample)
        requires
            self.wf(),
            stack < self.stacks,
            sector < self.sectors_spec(stack as int),
        ensures
            r == self.sample_spec(sector as int, stack as int),
            r.logical_sector <= 4 * self.subdivisions,
            r.logical_stack <= 2 * self.subdivisions,
            r.quarter.0 < 4,
    {
        let (logical_stack, z_half) = self.decode_stack(stack);
        let (logical_sector, quarter) = self.decode_sector(sector, stack);
        VertexSample {
            logical_sector,
            logical_stack,
            quarter,
            z_half,
            stretch_xy: self.stretch_xy(stack),
        }
    }

    /// The attributes stored at the physical index of vertex `sector` of
    /// stack `stack` are the ones it stands for.
    pub open spec fn slot_holds(
        self,
        verts: Seq<VertexSample>,
        uvs: Seq<UvCoords>,
        faces: Seq<u32>,
        with_uv: bool,
        with_face: bool,
        sector: int,
        stack: int,
    ) -> bool {
        let i = self.stack_start(stack) + sector;
        &&& 0 <= i < verts.len()
        &&& verts[i] == self.sample_spec(sector, stack)
        &&& with_uv ==> i < uvs.len() && uvs[i] == self.uv_coords_spec(sector, stack)
        &&& with_face ==> i < faces.len() && faces[i] == self.face_spec(sector, stack)
    }

    /// `verts` holds, at the physical index of each vertex, what it stands for.
    pub open spec fn samples_laid_out(self, verts: Seq<VertexSample>) -> bool {
        &&& verts.len() == self.total_vertices_spec()
        &&& forall|stack: int, sector: int|
            0 <= stack < self.stacks && 0 <= sector < self.sectors_spec(stack)
                ==> verts[self.stack_start(stack) + sector] == #[trigger] self.sample_spec(
                sector,
                stack,
            )
    }

    /// `faces` holds, at the physical index of each vertex, its face.
    pub open spec fn faces_laid_out(self, faces: Seq<u32>) -> bool {
        &&& faces.len() == self.total_vertices_spec()
        &&& forall|stack: int, sector: int|
            0 <= stack < self.stacks && 0 <= sector < self.sectors_spec(stack)
                ==> faces[self.stack_start(stack) + sector] == #[trigger] self.face_spec(
                sector,
                stack,
            )
    }

    /// `uvs` holds, at the physical index of each vertex, its texture point.
    pub open spec fn uvs_laid_out(self, uvs: Seq<UvCoords>) -> bool {
        &&& uvs.len() == self.total_vertices_spec()
        &&& forall|stack: int, sector: int|
            0 <= stack < self.stacks && 0 <= sector < self.sectors_spec(stack)
                ==> uvs[self.stack_start(stack) + sector] == #[trigger] self.uv_coords_spec(
                sector,
                stack,
            )
    }

    /// The attributes of every physical vertex, in the order of their
    /// indices: top pole, top corners, the full rings, bottom corners, bottom
    /// pole. Texture points and face ids come only where the options ask.
    pub fn vertex_attributes(&self, options: BoxMeshOptions) -> (r: (
        Vec<VertexSample>,
        Option<Vec<UvCoords>>,
        Option<Vec<u32>>,
    ))
        requires
            self.wf(),
            self.split() == options.split_faces(),
        ensures
            self.samples_laid_out(r.0@),
            r.1 is Some <==> options.generate_uv,
            r.1 is Some ==> self.uvs_laid_out(r.1->Some_0@),
            r.2 is Some <==> options.generate_face,
            r.2 is Some ==> self.faces_laid_out(r.2->Some_0@),
    {
        let generate_uv = options.is_generate_uv();
        let generate_face = options.is_generate_face();
        let mut verts: Vec<VertexSample> = Vec::new();
        let mut uvs: Vec<UvCoords> = Vec::new();
        let mut faces: Vec<u32> = Vec::new();
        let mut stack: u32 = 0;
        while stack < self.stacks
            invariant
                self.wf(),
                self.split() == options.split_faces(),
                generate_uv == options.generate_uv,
                generate_face == options.generate_face,
                stack <= self.stacks,
                verts.len() == self.stack_start(stack as int),
                generate_uv ==> uvs.len() == verts.len(),
                generate_face ==> faces.len() == verts.len(),
                forall|st: int, sc: int|
                    0 <= st < stack && 0 <= sc < self.sectors_spec(st) ==> #[trigger] self.slot_holds(
                        verts@,
                        uvs@,
                        faces@,
                        generate_uv,
                        generate_face,
                        sc,
                        st,
                    ),
            decreases self.stacks - stack,
        {
            proof {
                self.lemma_stack_step(stack as int);
            }
            let count = self.sectors(stack);
            let ghost start = self.stack_start(stack as int);
            let mut sector: u32 = 0;
            while sector < count
                invariant
                    self.wf(),
                    self.split() == options.split_faces(),
                    generate_uv == options.generate_uv,
                    generate_face == options.generate_face,
                    stack < self.stacks,
                    count == self.sectors_spec(stack as int),
                    start == self.stack_start(stack as int),
                    start + count == self.stack_start(stack as int + 1),
                    self.stack_start(stack as int + 1) <= self.total_vertices_spec(),
                    sector <= count,
                    verts.len() == start + sector,
                    generate_uv ==> uvs.len() == verts.len(),
                    generate_face ==> faces.len() == verts.len(),
                    forall|st: int, sc: int|
                        0 <= st < stack && 0 <= sc < self.sectors_spec(st) ==> #[trigger] self.slot_holds(
                            verts@,
                            uvs@,
                            faces@,
                            generate_uv,
                            generate_face,
                            sc,
                            st,
                        ),
                    forall|sc: int|
                        0 <= sc < sector ==> #[trigger] self.slot_holds(
                            verts@,
                            uvs@,
                            faces@,
                            generate_uv,
                            generate_face,
                            sc,
                            stack as int,
                        ),
                decreases count - sector,
            {
                let ghost (v0, u0, f0) = (verts@, uvs@, faces@);
                verts.push(self.sample(sector, stack));
                if generate_uv {
                    uvs.push(self.uv_coords(sector, stack));
                }
                if generate_face {
                    faces.push(self.face(sector, stack));
                }
                proof {
                    assert forall|st: int, sc: int|
                        0 <= st < stack && 0 <= sc < self.sectors_spec(st) implies #[trigger] self.slot_holds(
                        verts@,
                        uvs@,
                        faces@,
                        generate_uv,
                        generate_face,
                        sc,
                        st,
                    ) by {
                        assert(self.slot_holds(v0, u0, f0, generate_uv, generate_face, sc, st));
                    }
                    assert forall|sc: int| 0 <= sc <= sector implies #[trigger] self.slot_holds(
                        verts@,
                        uvs@,
                        faces@,
                        generate_uv,
                        generate_face,
                        sc,
                        stack as int,
                    ) by {
                        if sc < sector {
                            assert(self.slot_holds(v0, u0, f0, generate_uv, generate_face, sc, stack as int));
                        }
                    }
                }
                sector += 1;
            }
            proof {
                assert forall|st: int, sc: int|
                    0 <= st < stack + 1 && 0 <= sc < self.sectors_spec(st) implies #[trigger] self.slot_holds(
                    verts@,
                    uvs@,
                    faces@,
                    generate_uv,
                    generate_face,
                    sc,
                    st,
                ) by {}
            }
            stack += 1;
        }
        proof {
            self.lemma_stack_step(self.stacks - 1);
            assert forall|st: int, sc: int|
                0 <= st < self.stacks && 0 <= sc < self.sectors_spec(st) implies verts@[self.stack_start(st) + sc]
                    == #[trigger] self.sample_spec(sc, st) && (generate_uv ==> uvs@[self.stack_start(st) + sc]
                    == self.uv_coords_spec(sc, st)) && (generate_face ==> faces@[self.stack_start(st) + sc]
                    == self.face_spec(sc, st)) by {
                assert(self.slot_holds(verts@, uvs@, faces@, generate_uv, generate_face, sc, st));
            }
            if generate_uv {
                assert forall|st: int, sc: int|
                    0 <= st < self.stacks && 0 <= sc < self.sectors_spec(st) implies uvs@[self.stack_start(st) + sc]
                        == #[trigger] self.uv_coords_spec(sc, st) by {
                    assert(self.slot_holds(verts@, uvs@, faces@, generate_uv, generate_face, sc, st));
                }
            }
            if generate_face {
                assert forall|st: int, sc: int|
                    0 <= st < self.stacks && 0 <= sc < self.sectors_spec(st) implies faces@[self.stack_start(st) + sc]
                        == #[trigger] self.face_spec(sc, st) by {
                    assert(self.slot_holds(verts@, uvs@, faces@, generate_uv, generate_face, sc, st));
                }
            }
        }
        let uvs = if generate_uv {
            Some(uvs)
        } else {
            None
        };
        let faces = if generate_face {
            Some(faces)
        } else {
            None
        };
        (verts, uvs, faces)
    }
}

/// The number of vertices for `n` (effective) subdivisions: a pole and four
/// corners at each end, and full rings of `4 n + 4` sectors (`4 n + 8` with
/// split faces) in between.
pub open spec fn vertex_count(n: int, split: bool) -> int {
    if split {
        8 * n * n + 24 * n + 26
    } else {
        8 * n * n + 8 * n + 10
    }
}

/// The number of triangle indices for `n` (effective) subdivisions.
pub open spec fn index_count(n: int) -> int {
    3 * (16 * n * n + 16 * n + 16)
}

impl PhysicalIndexer {
    /// The vertex and index counts are polynomials in the number of
    /// subdivisions.
    pub proof fn lemma_counts_closed_form(self)
        requires
            self.wf(),
        ensures
            self.total_vertices_spec() == vertex_count(self.subdivisions as int, self.split()),
            self.total_indices_spec() == index_count(self.subdivisions as int),
    {
        let n = self.subdivisions as int;
        let sc = self.sectors as int;
        let t = self.stacks as int;
        if self.split() {
            assert(sc * (t - 4) + 10 == 8 * n * n + 24 * n + 26) by (nonlinear_arith)
                requires sc == 4 * n + 8, t == 2 * n + 6;
            assert(6 * ((sc - 4) * (t - 5) - 4 * (n - 1)) == 3 * (16 * n * n + 16 * n + 16))
                by (nonlinear_arith)
                requires sc == 4 * n + 8, t == 2 * n + 6;
        } else {
            assert(sc * (t - 4) + 10 == 8 * n * n + 8 * n + 10) by (nonlinear_arith)
                requires sc == 4 * n + 4, t == 2 * n + 4;
            assert(6 * (sc * (t - 3) - 4 * (n - 1)) == 3 * (16 * n * n + 16 * n + 16))
                by (nonlinear_arith)
                requires sc == 4 * n + 4, t == 2 * n + 4;
        }
    }
}

impl PhysicalIndexer {
    /// A quarter turn about the vertical axis maps every ring onto itself:
    /// the vertex one quadrant further on stands for the grid point a
    /// quarter turn further on, attached to the next quadrant's corner, at
    /// the same height.
    pub proof fn lemma_quarter_turn(self, sector: int, stack: int)
        requires
            self.wf(),
            0 <= stack < self.stacks,
            !(self.stack_type_spec(stack) is Ultimate),
            0 <= sector,
            sector + self.sectors_spec(stack) / 4 < self.sectors_spec(stack),
        ensures
            ({
                let a = self.sample_spec(sector, stack);
                let b = self.sample_spec(sector + self.sectors_spec(stack) / 4, stack);
                &&& b.logical_sector == a.logical_sector + self.subdivisions
                &&& b.quarter.0 == a.quarter.0 + 1
                &&& b.logical_stack == a.logical_stack
                &&& b.z_half == a.z_half
                &&& b.stretch_xy == a.stretch_xy
            }),
    {
        if self.stack_type_spec(stack) is Ordinary {
            let e = self.extra_levels as int;
            let d = self.band_len();
            let q = self.quarter();
            assert(d * e == q && d >= 2 && d - 1 == self.subdivisions as int / e) by {
                if e == 1 {
                    assert(q / 1 == q);
                } else {
                    assert(q / 2 == self.subdivisions as int / 2 + 1);
                }
            }
            lemma_fundamental_div_mod(sector, d);
            let b = sector / d;
            let r = sector % d;
            assert(sector + q == (b + e) * d + r) by (nonlinear_arith)
                requires sector == d * b + r, d * e == q;
            lemma_fundamental_div_mod_converse(sector + q, d, b + e, r);
            lemma_fundamental_div_mod(b, e);
            lemma_fundamental_div_mod_converse(b + e, e, b / e + 1, b % e);
            assert(q - e == self.subdivisions) by (nonlinear_arith)
                requires d * e == q, d - 1 == self.subdivisions as int / e, e == 1 || (e == 2
                    && self.subdivisions % 2 == 0);
            assert(0 <= b < 4 * e) by (nonlinear_arith)
                requires sector == d * b + r, 0 <= r < d, 0 <= sector, sector + q < 4 * q, d * e
                    == q, d >= 2;
            assert(sector - b <= 4 * self.subdivisions) by (nonlinear_arith)
                requires sector == d * b + r, 0 <= r < d, d - 1 == self.subdivisions as int / e,
                    d * e == q, b < 4 * e, e >= 1, sector + q < 4 * q;
            assert(0 <= b / e < 4) by {
                if e == 1 {
                    assert(b / 1 == b);
                }
            }
            assert(b <= sector) by (nonlinear_arith)
                requires sector == d * b + r, 0 <= r, d >= 2, b >= 0;
        } else {
            let n = self.subdivisions as int;
            assert((sector + 1) * n == sector * n + n) by (nonlinear_arith);
            assert(0 <= sector * n <= 4 * n) by (nonlinear_arith)
                requires 0 <= sector < 4, n >= 0;
        }
    }

    /// Mirroring top and bottom maps the stacks onto each other: the stack
    /// as far from the bottom as `stack` is from the top stands for the
    /// mirrored latitude, in the other half.
    pub proof fn lemma_pole_mirror(self, stack: int)
        requires
            self.wf(),
            0 <= stack < self.stacks,
        ensures
            ({
                let a = self.decode_stack_spec(stack);
                let b = self.decode_stack_spec(self.stacks - 1 - stack);
                &&& b.0 == 2 * self.subdivisions - a.0
                &&& (a.1 == ZHalf::Top <==> b.1 == ZHalf::Bottom)
            }),
    {
        let e = self.extra_levels as int;
        let d = self.band_len();
        let q = self.quarter();
        let t = self.stacks as int;
        assert(d * e == q && d >= 2 && d - 1 == self.subdivisions as int / e) by {
            if e == 1 {
                assert(q / 1 == q);
            } else {
                assert(q / 2 == self.subdivisions as int / 2 + 1);
            }
        }
        assert(q - e == self.subdivisions) by (nonlinear_arith)
            requires d * e == q, d - 1 == self.subdivisions as int / e, e == 1 || (e == 2
                && self.subdivisions % 2 == 0);
        if stack == 0 || stack == t - 1 {
            lemma_fundamental_div_mod_converse(0, d, 0, 0);
            assert(2 * q == (2 * e) * d) by (nonlinear_arith)
                requires d * e == q;
            lemma_fundamental_div_mod_converse(2 * q, d, 2 * e, 0);
            lemma_fundamental_div_mod_converse(2 * e, e, 2, 0);
            lemma_fundamental_div_mod_converse(0, e, 0, 0);
        } else {
            let c = stack - 1;
            lemma_fundamental_div_mod(c, d);
            let b = c / d;
            let r = c % d;
            assert(0 <= b < 2 * e) by (nonlinear_arith)
                requires c == d * b + r, 0 <= r < d, 0 <= c < 2 * q, d * e == q, d >= 2;
            assert(2 * q - 1 - c == (2 * e - 1 - b) * d + (d - 1 - r)) by (nonlinear_arith)
                requires c == d * b + r, d * e == q;
            lemma_fundamental_div_mod_converse(2 * q - 1 - c, d, 2 * e - 1 - b, d - 1 - r);
            if e == 1 {
                assert(b / 1 == b && (1 - b) / 1 == 1 - b);
            } else {
                assert(b / 2 == 0 <==> (3 - b) / 2 == 1);
            }
        }
    }
}

/// The integer layout of a rounded-box mesh: what each vertex stands for,
/// its optional texture point and face id, and the triangle index list.
#[derive(Debug)]
pub struct MeshLayout {
    pub indexer: PhysicalIndexer,
    pub vertices: Vec<VertexSample>,
    pub uvs: Option<Vec<UvCoords>>,
    pub faces: Option<Vec<u32>>,
    pub indices: Vec<u32>,
}

impl MeshLayout {
    /// Everything a layout for `subdivisions` and `options` is made of.
    pub open spec fn built_for(self, subdivisions: nat, options: BoxMeshOptions) -> bool {
        let p = self.indexer;
        let n = effective_subdivisions(subdivisions, options.split_faces());
        &&& p.wf()
        &&& p.subdivisions == n
        &&& p.split() == options.split_faces()
        &&& p.samples_laid_out(self.vertices@)
        &&& (self.uvs is Some <==> options.generate_uv)
        &&& (self.uvs is Some ==> p.uvs_laid_out(self.uvs->Some_0@))
        &&& (self.faces is Some <==> options.generate_face)
        &&& (self.faces is Some ==> p.faces_laid_out(self.faces->Some_0@))
        &&& self.indices@ == p.triangle_indices_spec()
        &&& self.vertices@.len() == vertex_count(n as int, options.split_faces())
        &&& self.indices@.len() == index_count(n as int)
        &&& triangles_valid(self.indices@, self.vertices@.len() as int)
    }
}

/// The layout of a rounded box with `subdivisions` per fillet. Zero
/// subdivisions, or more than `MAX_SUBDIVISIONS`, are refused.
pub fn mesh_layout(subdivisions: usize, options: BoxMeshOptions) -> (r: Result<MeshLayout, MeshError>)
    ensures
        subdivisions == 0 <==> r == Err::<MeshLayout, MeshError>(MeshError::ZeroSubdivisions),
        subdivisions > MAX_SUBDIVISIONS <==> r == Err::<MeshLayout, MeshError>(
            MeshError::TooManySubdivisions,
        ),
        1 <= subdivisions <= MAX_SUBDIVISIONS ==> r is Ok,
        r is Ok ==> r->Ok_0.built_for(subdivisions as nat, options),
{
    let indexer = match PhysicalIndexer::new(subdivisions, options) {
        Ok(p) => p,
        Err(e) => {
            return Err(e);
        },
    };
    let (vertices, uvs, faces) = indexer.vertex_attributes(options);
    let indices = indexer.triangle_indices();
    proof {
        indexer.lemma_triangles_valid();
        indexer.lemma_triangle_count();
        indexer.lemma_counts_closed_form();
    }
    Ok(MeshLayout { indexer, vertices, uvs, faces, indices })
}

} // verus!
