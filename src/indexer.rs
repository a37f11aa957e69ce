use vstd::prelude::*;
use vstd::arithmetic::div_mod::{
    lemma_div_is_ordered_by_denominator, lemma_fundamental_div_mod,
    lemma_fundamental_div_mod_converse,
};

use crate::options::{BoxMeshOptions, MeshError, MAX_SUBDIVISIONS};

verus! {

/// One of the four quadrants around the vertical axis; the field is taken
/// modulo four.
#[derive(Copy, Clone, Debug, PartialEq, Eq, Structural)]
pub struct XYQuarter(pub u32);

/// The signs of the x and y axes in quadrant `k` (counted modulo four).
pub open spec fn quarter_signs(k: u32) -> (int, int) {
    if k % 4 == 0 {
        (1, 1)
    } else if k % 4 == 1 {
        (-1, 1)
    } else if k % 4 == 2 {
        (-1, -1)
    } else {
        (1, -1)
    }
}

impl XYQuarter {
    /// The signs of x and y in this quadrant.
    pub fn coords(self) -> (r: (i32, i32))
        ensures
            (r.0 as int, r.1 as int) == quarter_signs(self.0),
    {
        let k = self.0 % 4;
        if k == 0 {
            (1, 1)
        } else if k == 1 {
            (-1, 1)
        } else if k == 2 {
            (-1, -1)
        } else {
            (1, -1)
        }
    }
}

/// The half of the box, above or below the equator, that a stack belongs to.
#[derive(Copy, Clone, Debug, PartialEq, Eq, Structural)]
pub enum ZHalf {
    Top,
    Bottom,
}

impl ZHalf {
    /// Band `0` of the stacks is the top half, every later band the bottom.
    pub open spec fn from_spec(n: u32) -> ZHalf {
        if n == 0 {
            ZHalf::Top
        } else {
            ZHalf::Bottom
        }
    }

    /// The first band of stacks is the top half; every later one the bottom.
    pub fn from(n: u32) -> (r: ZHalf)
        ensures
            r == Self::from_spec(n),
    {
        if n == 0 {
            ZHalf::Top
        } else {
            ZHalf::Bottom
        }
    }

    /// The sign of the z axis in this half.
    pub fn coord(self) -> (r: i32)
        ensures
            r == (if self == ZHalf::Top { 1i32 } else { -1i32 }),
    {
        match self {
            ZHalf::Top => 1,
            ZHalf::Bottom => -1,
        }
    }
}

/// The class of a physical stack: the pole itself, the ring of four corners
/// next to it, or a full ring.
#[derive(Copy, Clone, Debug, PartialEq, Eq, Structural)]
pub enum StackType {
    Ultimate(ZHalf),
    Penultimate(ZHalf),
    Ordinary,
}

/// Maps the logical sector/stack grid of a rounded box onto a dense range of
/// physical vertex indices.
///
/// Physical stack `0` is the top pole, stack `1` the ring of the four top
/// corners, stacks `2 ..= stacks - 3` full rings of `sectors` vertices, then
/// the four bottom corners and the bottom pole. With `extra_levels == 2` the
/// seams between faces get vertices of their own.
#[derive(Copy, Clone, Debug, PartialEq, Eq, Structural)]
pub struct PhysicalIndexer {
    pub subdivisions: u32,
    pub extra_levels: u32,
    pub sectors: u32,
    pub stacks: u32,
}

/// Vertices in a pole stack.
pub const ULTIMATE_SECTORS: u32 = 1;

/// Vertices in the ring of corners next to a pole.
pub const PENULTIMATE_SECTORS: u32 = 4;

/// Vertices at one end: the pole and its ring of corners.
pub const TOTAL_END_SECTORS: u32 = ULTIMATE_SECTORS + PENULTIMATE_SECTORS;

/// Stacks at one end: the pole and its ring of corners.
pub const END_STACKS: u32 = 2;

/// Stacks at both ends.
pub const BOTH_END_STACKS: u32 = 2 * END_STACKS;

/// The number of subdivisions used: with split faces it is rounded up to an
/// even number, so that each corner has a middle sector and stack.
pub open spec fn effective_subdivisions(n: nat, split: bool) -> nat {
    if split {
        n + n % 2
    } else {
        n
    }
}

impl PhysicalIndexer {
    /// A full ring has `4 (subdivisions + extra_levels)` sectors, and the
    /// poles, the corner rings and the full rings make
    /// `2 (subdivisions + extra_levels) + 2` stacks.
    pub open spec fn wf(self) -> bool {
        &&& 1 <= self.subdivisions <= MAX_SUBDIVISIONS
        &&& (self.extra_levels == 1 || (self.extra_levels == 2 && self.subdivisions % 2 == 0))
        &&& self.sectors == 4 * self.subdivisions + 4 * self.extra_levels
        &&& self.stacks == 2 * self.subdivisions + 2 + 2 * self.extra_levels
    }

    /// Whether the faces have vertices of their own along the seams.
    pub open spec fn split(self) -> bool {
        self.extra_levels == 2
    }

    /// Physical sectors in one quadrant of a full ring.
    pub open spec fn quarter(self) -> int {
        self.subdivisions + self.extra_levels
    }

    /// Half the number of subdivisions, rounded down.
    pub open spec fn half(self) -> int {
        (self.subdivisions / 2) as int
    }

    /// Consecutive physical sectors, or stacks, that lie between two seams
    /// and so share one direction of the flat faces.
    pub open spec fn band_len(self) -> int {
        self.quarter() / self.extra_levels as int
    }

    /// Each band of `band_len` physical stacks after the pole repeats the
    /// latitude at which the previous band ended.
    pub open spec fn decode_stack_spec(self, stack: int) -> (int, ZHalf) {
        let clamped = if stack == 0 { 0 } else { stack - 1 };
        let band = clamped / self.band_len();
        (clamped - band, ZHalf::from_spec((band / self.extra_levels as int) as u32))
    }

    /// The logical stack (from `0` at the top pole to `2 * subdivisions` at
    /// the bottom pole) that physical stack `stack` stands for, and the half
    /// of the core box it is attached to.
    pub fn decode_stack(&self, stack: u32) -> (r: (u32, ZHalf))
        requires
            self.wf(),
            stack < self.stacks,
        ensures
            r.0 == self.decode_stack_spec(stack as int).0,
            r.1 == self.decode_stack_spec(stack as int).1,
            r.0 <= 2 * self.subdivisions,
    {
        let clamped: u32 = if stack == 0 { 0 } else { stack - 1 };
        let quarter: u32 = (self.stacks - 2) / 2;
        let band_len: u32 = quarter / self.extra_levels;
        proof {
            self.lemma_band_len();
            let d = self.band_len();
            let e = self.extra_levels as int;
            let bound = 2 * self.quarter();
            assert(bound == (2 * e) * d) by (nonlinear_arith)
                requires d * e == self.quarter(), bound == 2 * self.quarter();
            assert((2 * e) * d / d == 2 * e) by {
                vstd::arithmetic::div_mod::lemma_div_multiples_vanish(2 * e, d);
            }
            self.lemma_decode_bound(clamped as int, bound);
        }
        let band: u32 = clamped / band_len;
        (clamped - band, ZHalf::from(band / self.extra_levels))
    }

    proof fn lemma_band_len(self)
        requires
            self.wf(),
        ensures
            self.band_len() >= 2,
            self.band_len() * self.extra_levels == self.quarter(),
            self.band_len() - 1 == self.subdivisions as int / self.extra_levels as int,
    {
        if self.extra_levels == 1 {
            assert(self.quarter() / 1 == self.quarter());
        } else {
            assert(self.quarter() / 2 == self.subdivisions / 2 + 1);
        }
    }

    /// Removing one for each completed band keeps a coordinate within the
    /// logical grid: `x - x / band_len <= bound - bound / band_len`.
    proof fn lemma_decode_bound(self, x: int, bound: int)
        requires
            self.wf(),
            0 <= x <= bound,
            bound == (bound / self.band_len()) * self.band_len(),
        ensures
            0 <= x / self.band_len() <= x,
            x - x / self.band_len() <= bound - bound / self.band_len(),
    {
        self.lemma_band_len();
        let d = self.band_len();
        let b = x / d;
        let m = bound / d;
        lemma_fundamental_div_mod(x, d);
        lemma_div_is_ordered_by_denominator(x, 1, d);
        assert(x / 1 == x);
        if b < m {
            assert(x < (b + 1) * d) by (nonlinear_arith)
                requires x == d * b + x % d, x % d < d;
            assert(x - b <= m * d - m) by (nonlinear_arith)
                requires x < (b + 1) * d, b < m, d >= 2;
        } else {
            assert(b <= m) by {
                vstd::arithmetic::div_mod::lemma_div_is_ordered(x, bound, d);
            }
        }
    }

    /// The corner ring stands at the four quadrant directions; in a full ring
    /// each band of `band_len` sectors repeats the azimuth at which the
    /// previous band ended.
    pub open spec fn decode_sector_spec(self, sector: int, stack: int) -> (int, XYQuarter) {
        match self.stack_type_spec(stack) {
            StackType::Ultimate(_) => (0, XYQuarter(0)),
            StackType::Penultimate(_) => (sector * self.subdivisions, XYQuarter(sector as u32)),
            StackType::Ordinary => {
                let band = sector / self.band_len();
                (sector - band, XYQuarter((band / self.extra_levels as int) as u32))
            },
        }
    }

    /// The logical sector (from `0` to `4 * subdivisions` around the vertical
    /// axis) that physical vertex `sector` of stack `stack` stands for, and
    /// the quadrant whose corner of the core box it is attached to.
    pub fn decode_sector(&self, sector: u32, stack: u32) -> (r: (u32, XYQuarter))
        requires
            self.wf(),
            stack < self.stacks,
            sector < self.sectors_spec(stack as int),
        ensures
            r.0 == self.decode_sector_spec(sector as int, stack as int).0,
            r.1 == self.decode_sector_spec(sector as int, stack as int).1,
            r.0 <= 4 * self.subdivisions,
            r.1.0 < 4,
    {
        let quarter: u32 = self.sectors / 4;
        match self.stack_type(stack) {
            StackType::Ultimate(_) => (0, XYQuarter(0)),
            StackType::Penultimate(_) => {
                assert(sector * self.subdivisions <= 4 * self.subdivisions) by (nonlinear_arith)
                    requires sector < 4;
                (sector * self.subdivisions, XYQuarter(sector))
            },
            StackType::Ordinary => {
                let band_len: u32 = quarter / self.extra_levels;
                proof {
                    self.lemma_band_len();
                    let d = self.band_len();
                    let e = self.extra_levels as int;
                    let x = sector as int;
                    let n = self.subdivisions as int;
                    let total = self.sectors as int;
                    assert(total == 4 * e * d) by (nonlinear_arith)
                        requires d * e == self.quarter(), total == 4 * self.quarter();
                    assert((4 * e) * d / d == 4 * e) by {
                        vstd::arithmetic::div_mod::lemma_div_multiples_vanish(4 * e, d);
                    }
                    assert(4 * e * d == (4 * e) * d) by (nonlinear_arith);
                    self.lemma_decode_bound(x, total);
                    assert(x / d < 4 * e) by {
                        lemma_fundamental_div_mod(x, d);
                        assert(x / d < 4 * e) by (nonlinear_arith)
                            requires x == d * (x / d) + x % d, x % d >= 0, x < 4 * e * d, d >= 2;
                    }
                    assert(4 * e * d - 4 * e == 4 * n) by (nonlinear_arith)
                        requires d - 1 == n / e, e == 1 || (e == 2 && n % 2 == 0);
                    let b = x / d;
                    if e == 1 {
                        assert(b / 1 == b);
                    } else {
                        assert(b / 2 < 4);
                    }
                }
                let band: u32 = sector / band_len;
                (sector - band, XYQuarter(band / self.extra_levels))
            },
        }
    }

    /// The first physical index of stack `stack`; for `stack == stacks` the
    /// number of physical vertices.
    pub open spec fn stack_start(self, stack: int) -> int {
        if stack == 0 {
            0
        } else if stack == 1 {
            1
        } else if stack <= self.stacks - 2 {
            5 + (stack - 2) * self.sectors
        } else if stack == self.stacks - 1 {
            9 + (self.stacks - 4) * self.sectors
        } else {
            10 + (self.stacks - 4) * self.sectors
        }
    }

    /// Where a sector of the full ring falls in stack `stack`: every sector
    /// meets the pole at one vertex, and each quadrant meets the ring next to
    /// the pole at its corner.
    pub open spec fn ring_position(self, sector: int, stack: int) -> int {
        match self.stack_type_spec(stack) {
            StackType::Ultimate(_) => 0,
            StackType::Penultimate(_) => (sector / self.quarter()) % 4,
            StackType::Ordinary => sector % self.sectors as int,
        }
    }

    /// The physical index of full-ring sector `sector` in stack `stack`.
    pub open spec fn index_spec(self, sector: int, stack: int) -> int {
        self.stack_start(stack) + self.ring_position(sector, stack)
    }

    /// Full rings between the corner rings, plus a pole and four corners at
    /// each end.
    pub open spec fn total_vertices_spec(self) -> int {
        self.sectors * (self.stacks - 4) + 10
    }

    /// Three indices for each triangle left once collapsed and seam-crossing
    /// quads are dropped.
    pub open spec fn total_indices_spec(self) -> int {
        6 * ((self.sectors - 4 * (self.extra_levels - 1)) * (self.stacks - 3 - 2 * (
        self.extra_levels - 1)) - 4 * (self.subdivisions - 1))
    }

    /// Bounds on the products that the index arithmetic forms.
    pub proof fn lemma_products(self)
        requires
            self.wf(),
        ensures
            forall|k: int|
                0 <= k <= self.stacks - 4 ==> #[trigger] (k * self.sectors) <= (self.stacks - 4)
                    * self.sectors,
            forall|k: int| 0 <= k < self.stacks - 4 ==> #[trigger] (k * self.sectors) + self.sectors
                <= (self.stacks - 4) * self.sectors,
            (self.stacks - 4) * self.sectors <= 16386 * 32776,
            self.sectors * (self.stacks - 4) == (self.stacks - 4) * self.sectors,
            0 <= 4 * (self.subdivisions - 1) <= (self.sectors - 4 * (self.extra_levels - 1)) * (
            self.stacks - 3 - 2 * (self.extra_levels - 1)),
            (self.sectors - 4 * (self.extra_levels - 1)) * (self.stacks - 3 - 2 * (self.extra_levels
                - 1)) <= 32776 * 16387,
    {
        let t = self.stacks - 4;
        let sc = self.sectors as int;
        assert forall|k: int| 0 <= k <= t implies #[trigger] (k * sc) <= t * sc by {
            assert(k * sc <= t * sc) by (nonlinear_arith)
                requires k <= t, sc >= 0;
        }
        assert forall|k: int| 0 <= k < t implies #[trigger] (k * sc) + sc <= t * sc by {
            assert(k * sc + sc <= t * sc) by (nonlinear_arith)
                requires k + 1 <= t, sc >= 0;
        }
        assert(sc * t == t * sc) by (nonlinear_arith);
        assert(t * sc <= 16386 * 32776) by (nonlinear_arith)
            requires 0 <= t <= 16386, 0 <= sc <= 32776;
        let a = self.sectors - 4 * (self.extra_levels - 1);
        let b = self.stacks - 3 - 2 * (self.extra_levels - 1);
        assert(4 * (self.subdivisions - 1) <= a * b) by (nonlinear_arith)
            requires a >= 4 * self.subdivisions, b >= 1;
        assert(a * b <= 32776 * 16387) by (nonlinear_arith)
            requires 0 <= a <= 32776, 0 <= b <= 16387;
    }

    /// Every stack starts where the one above it ends.
    pub proof fn lemma_stack_step(self, stack: int)
        requires
            self.wf(),
            0 <= stack < self.stacks,
        ensures
            self.stack_start(stack) + self.sectors_spec(stack) == self.stack_start(stack + 1),
            self.stack_start(stack + 1) <= self.total_vertices_spec(),
    {
        self.lemma_products();
        let sc = self.sectors as int;
        if 2 <= stack <= self.stacks - 3 {
            assert((stack - 2) * sc + sc == (stack + 1 - 2) * sc) by (nonlinear_arith);
        }
        if stack == 1 {
            assert(0 * sc == 0);
        }
    }

    /// Every index of a vertex of the full ring, or of the sector after the
    /// last, is a physical index.
    pub proof fn lemma_index_bound(self, sector: int, stack: int)
        requires
            self.wf(),
            0 <= stack < self.stacks,
            0 <= sector <= self.sectors,
        ensures
            0 <= self.index_spec(sector, stack) < self.total_vertices_spec(),
            self.stack_start(stack) <= self.index_spec(sector, stack) < self.stack_start(stack + 1),
    {
        self.lemma_stack_step(stack);
        let q = self.quarter();
        if self.stack_type_spec(stack) is Penultimate {
            vstd::arithmetic::div_mod::lemma_div_pos_is_pos(sector, q);
        }
    }

    /// The physical index of the vertex at `sector` of the full ring, in stack
    /// `stack`; `sector == sectors` wraps round to the first sector.
    pub fn index(&self, sector: u32, stack: u32) -> (r: u32)
        requires
            self.wf(),
            stack < self.stacks,
            sector <= self.sectors,
        ensures
            r == self.index_spec(sector as int, stack as int),
            r < self.total_vertices_spec(),
    {
        let quarter: u32 = self.sectors / PENULTIMATE_SECTORS;
        proof {
            self.lemma_products();
            self.lemma_index_bound(sector as int, stack as int);
        }
        match self.stack_type(stack) {
            StackType::Ultimate(ZHalf::Top) => 0,
            StackType::Penultimate(ZHalf::Top) => {
                ULTIMATE_SECTORS + ((sector / quarter) % PENULTIMATE_SECTORS)
            },
            StackType::Ordinary => {
                assert(((stack - 2) as int) * self.sectors + self.sectors <= (self.stacks - 4)
                    * self.sectors);
                TOTAL_END_SECTORS + (stack - END_STACKS) * self.sectors + (sector % self.sectors)
            },
            StackType::Penultimate(ZHalf::Bottom) => {
                assert(((self.stacks - 4) as int) * self.sectors <= (self.stacks - 4) * self.sectors);
                TOTAL_END_SECTORS + (self.stacks - BOTH_END_STACKS) * self.sectors + ((sector
                    / quarter) % PENULTIMATE_SECTORS)
            },
            StackType::Ultimate(ZHalf::Bottom) => {
                TOTAL_END_SECTORS + PENULTIMATE_SECTORS + (self.stacks - BOTH_END_STACKS)
                    * self.sectors
            },
        }
    }

    /// The number of physical vertices.
    pub fn total_vertices(&self) -> (r: usize)
        requires
            self.wf(),
        ensures
            r == self.total_vertices_spec(),
    {
        proof {
            self.lemma_products();
        }
        (self.sectors * (self.stacks - BOTH_END_STACKS) + 2 * TOTAL_END_SECTORS) as usize
    }

    /// The number of entries of the triangle index buffer.
    pub fn total_indices(&self) -> (r: usize)
        requires
            self.wf(),
        ensures
            r == self.total_indices_spec(),
    {
        proof {
            self.lemma_products();
        }
        (6 * ((self.sectors - PENULTIMATE_SECTORS * (self.extra_levels - 1)) * (self.stacks - (
        BOTH_END_STACKS - 1) - 2 * (self.extra_levels - 1)) - (PENULTIMATE_SECTORS * (
        self.subdivisions - 1)))) as usize
    }

    /// Caps above the middle stack of the top fillet and below that of the
    /// bottom one; between them, the side that the sector turns into.
    pub open spec fn face_spec(self, sector: int, stack: int) -> int {
        let h = self.half();
        if stack < 2 + h {
            0
        } else if stack > self.stacks - 3 - h {
            5
        } else {
            1 + ((sector + self.sectors - h - 1) / self.quarter()) % 4
        }
    }

    /// The face of vertex `sector` of stack `stack`: `0` and `5` are the top
    /// and bottom caps, `1` to `4` the sides. The caps reach down to the
    /// middle stack of each fillet, and the sides from the middle sector of
    /// one vertical fillet to that of the next.
    pub fn face(&self, sector: u32, stack: u32) -> (r: u32)
        requires
            self.wf(),
            stack < self.stacks,
            sector < self.sectors_spec(stack as int),
        ensures
            r == self.face_spec(sector as int, stack as int),
            r < 6,
    {
        let half_subdivisions: u32 = self.subdivisions / 2;
        if stack < END_STACKS + half_subdivisions {
            0
        } else if stack > self.stacks - END_STACKS - half_subdivisions - 1 {
            5
        } else {
            1 + ((sector + self.sectors - half_subdivisions - 1) / (self.sectors / 4)) % 4
        }
    }

    /// An indexer for `subdivisions` per fillet, with the seams split when the
    /// options ask for texture coordinates or face ids.
    pub fn new(subdivisions: usize, options: BoxMeshOptions) -> (r: Result<PhysicalIndexer, MeshError>)
        ensures
            subdivisions == 0 ==> r == Err::<PhysicalIndexer, MeshError>(MeshError::ZeroSubdivisions),
            subdivisions > MAX_SUBDIVISIONS ==> r == Err::<PhysicalIndexer, MeshError>(
                MeshError::TooManySubdivisions,
            ),
            1 <= subdivisions <= MAX_SUBDIVISIONS ==> r is Ok,
            r is Ok ==> {
                let p = r->Ok_0;
                &&& p.wf()
                &&& p.subdivisions == effective_subdivisions(
                    subdivisions as nat,
                    options.split_faces(),
                )
                &&& p.split() == options.split_faces()
            },
    {
        if subdivisions == 0 {
            return Err(MeshError::ZeroSubdivisions);
        }
        if subdivisions > MAX_SUBDIVISIONS {
            return Err(MeshError::TooManySubdivisions);
        }
        let split = options.is_split_faces();
        let n: u32 = if split {
            (subdivisions + subdivisions % 2) as u32
        } else {
            subdivisions as u32
        };
        let extra_levels: u32 = if split { 2 } else { 1 };
        Ok(PhysicalIndexer {
            subdivisions: n,
            extra_levels,
            sectors: 4 * n + 4 * extra_levels,
            stacks: 2 * n + 2 + 2 * extra_levels,
        })
    }

    /// Stacks `0` and `stacks - 1` are the poles, the next ones inward the
    /// corner rings, all others full rings.
    pub open spec fn stack_type_spec(self, stack: int) -> StackType {
        if stack == 0 {
            StackType::Ultimate(ZHalf::Top)
        } else if stack == self.stacks - 1 {
            StackType::Ultimate(ZHalf::Bottom)
        } else if stack == 1 {
            StackType::Penultimate(ZHalf::Top)
        } else if stack == self.stacks - 2 {
            StackType::Penultimate(ZHalf::Bottom)
        } else {
            StackType::Ordinary
        }
    }

    /// The class of physical stack `stack`.
    pub fn stack_type(&self, stack: u32) -> (r: StackType)
        requires
            self.wf(),
            stack < self.stacks,
        ensures
            r == self.stack_type_spec(stack as int),
    {
        if stack == 0 {
            StackType::Ultimate(ZHalf::Top)
        } else if stack == self.stacks - 1 {
            StackType::Ultimate(ZHalf::Bottom)
        } else if stack == 1 {
            StackType::Penultimate(ZHalf::Top)
        } else if stack == self.stacks - 2 {
            StackType::Penultimate(ZHalf::Bottom)
        } else {
            StackType::Ordinary
        }
    }

    /// The number of physical vertices in a stack of each class.
    pub open spec fn sectors_spec(self, stack: int) -> int {
        match self.stack_type_spec(stack) {
            StackType::Ultimate(_) => ULTIMATE_SECTORS as int,
            StackType::Penultimate(_) => PENULTIMATE_SECTORS as int,
            StackType::Ordinary => self.sectors as int,
        }
    }

    /// The number of physical vertices in stack `stack`.
    pub fn sectors(&self, stack: u32) -> (r: u32)
        requires
            self.wf(),
            stack < self.stacks,
        ensures
            r == self.sectors_spec(stack as int),
    {
        match self.stack_type(stack) {
            StackType::Ultimate(_) => ULTIMATE_SECTORS,
            StackType::Penultimate(_) => PENULTIMATE_SECTORS,
            StackType::Ordinary => self.sectors,
        }
    }

    /// All stacks but the poles are pushed out to the core box in x and y.
    pub open spec fn stretch_xy_spec(self, stack: int) -> bool {
        !(self.stack_type_spec(stack) is Ultimate)
    }

    /// Whether the vertices of stack `stack` are pushed out to the flat faces
    /// of the core box in x and y: all but the two poles are.
    pub fn stretch_xy(&self, stack: u32) -> (r: bool)
        requires
            self.wf(),
            stack < self.stacks,
        ensures
            r == self.stretch_xy_spec(stack as int),
    {
        match self.stack_type(stack) {
            StackType::Ultimate(_) => false,
            StackType::Penultimate(_) | StackType::Ordinary => true,
        }
    }
}

} // verus!
