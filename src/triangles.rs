use vstd::prelude::*;
use vstd::arithmetic::div_mod::{
    lemma_fundamental_div_mod, lemma_fundamental_div_mod_converse, lemma_mod_self_0,
    lemma_small_mod,
};

use crate::indexer::{PhysicalIndexer, END_STACKS};

verus! {

/// Triangle `t` of the index list `s` has three different corners.
pub open spec fn corners_distinct(s: Seq<u32>, t: int) -> bool {
    &&& s[3 * t] != s[3 * t + 1]
    &&& s[3 * t] != s[3 * t + 2]
    &&& s[3 * t + 1] != s[3 * t + 2]
}

/// `s` is a list of whole triangles, none degenerate, over vertices below
/// `bound`.
pub open spec fn triangles_valid(s: Seq<u32>, bound: int) -> bool {
    &&& s.len() % 3 == 0
    &&& forall|i: int| 0 <= i < s.len() ==> s[i] < bound
    &&& forall|t: int| 0 <= t < s.len() / 3 ==> #[trigger] corners_distinct(s, t)
}

pub open spec fn distinct3(a: int, b: int, c: int) -> bool {
    a != b && a != c && b != c
}

/// The triangle `(a, b, c)`, or nothing where two of its corners coincide.
pub open spec fn triangle_if_proper(a: int, b: int, c: int) -> Seq<u32> {
    if distinct3(a, b, c) {
        seq![a as u32, b as u32, c as u32]
    } else {
        Seq::empty()
    }
}

/// Joining two valid triangle lists gives a valid one.
pub proof fn lemma_triangles_concat(a: Seq<u32>, b: Seq<u32>, bound: int)
    requires
        triangles_valid(a, bound),
        triangles_valid(b, bound),
    ensures
        triangles_valid(a + b, bound),
{
    let s = a + b;
    let m = a.len() / 3;
    assert(s.len() / 3 == m + b.len() / 3);
    assert forall|i: int| 0 <= i < s.len() implies s[i] < bound by {
        if i >= a.len() {
            assert(s[i] == b[i - a.len()]);
        }
    }
    assert forall|t: int| 0 <= t < s.len() / 3 implies #[trigger] corners_distinct(s, t) by {
        if t < m {
            assert(corners_distinct(a, t));
        } else {
            assert(corners_distinct(b, t - m));
            assert(3 * t - a.len() == 3 * (t - m));
        }
    }
}

/// A triangle kept only where its corners differ is a valid list.
pub proof fn lemma_triangle_if_proper(a: int, b: int, c: int, bound: int)
    requires
        0 <= a < bound,
        0 <= b < bound,
        0 <= c < bound,
        bound <= u32::MAX,
    ensures
        triangles_valid(triangle_if_proper(a, b, c), bound),
{
    let s = triangle_if_proper(a, b, c);
    if distinct3(a, b, c) {
        assert(s.len() / 3 == 1);
        assert forall|t: int| 0 <= t < s.len() / 3 implies #[trigger] corners_distinct(s, t) by {
            assert(t == 0);
        }
    }
}

/// Counting, among `0 .. k`, the numbers that leave remainder `c` modulo `q`:
/// the count `(k + q - 1 - c) / q` grows by one exactly at such a number.
proof fn lemma_count_step(k: int, q: int, c: int)
    requires
        0 <= k,
        1 <= q,
        0 <= c < q,
    ensures
        (k + 1 + (q - 1 - c)) / q == (k + (q - 1 - c)) / q + (if k % q == c { 1int } else { 0 }),
{
    lemma_fundamental_div_mod(k, q);
    let a = k / q;
    let r = k % q;
    let off = q - 1 - c;
    assert(k == a * q + r) by (nonlinear_arith)
        requires k == q * a + r;
    assert((a + 1) * q == a * q + q) by (nonlinear_arith);
    if r < c {
        lemma_fundamental_div_mod_converse(k + off, q, a, r + off);
        lemma_fundamental_div_mod_converse(k + 1 + off, q, a, r + 1 + off);
    } else if r == c {
        lemma_fundamental_div_mod_converse(k + off, q, a, r + off);
        lemma_fundamental_div_mod_converse(k + 1 + off, q, a + 1, 0);
    } else {
        lemma_fundamental_div_mod_converse(k + off, q, a + 1, r + off - q);
        lemma_fundamental_div_mod_converse(k + 1 + off, q, a + 1, r + 1 + off - q);
    }
}

impl PhysicalIndexer {
    /// With split faces, the quads between stack `half + 1` and the next
    /// one, and between the two mirrored stacks near the bottom, would join
    /// a cap to a side across a seam.
    pub open spec fn seam_row(self, stack: int) -> bool {
        self.split() && (stack == self.half() + 1 || stack == self.stacks - self.half() - 3)
    }

    /// With split faces, the quads whose left edge is the last sector before
    /// the seam in the middle of a vertical fillet would join two sides.
    pub open spec fn seam_column(self, sector: int) -> bool {
        self.split() && sector % self.quarter() == self.half()
    }

    /// The triangles of the quad between sectors `sector` and `sector + 1`
    /// and stacks `stack` and `stack + 1`: none across a seam, else each of
    /// its two halves whose corners are three different vertices.
    pub open spec fn quad_indices(self, sector: int, stack: int) -> Seq<u32> {
        if self.seam_row(stack) || self.seam_column(sector) {
            Seq::empty()
        } else {
            let jj = self.index_spec(sector, stack);
            let jk = self.index_spec(sector, stack + 1);
            let kj = self.index_spec(sector + 1, stack);
            let kk = self.index_spec(sector + 1, stack + 1);
            triangle_if_proper(jj, jk, kj) + triangle_if_proper(kj, jk, kk)
        }
    }

    /// The triangles of the first `upto` quads between stacks `stack` and
    /// `stack + 1`.
    pub open spec fn row_indices(self, stack: int, upto: int) -> Seq<u32>
        decreases upto,
    {
        if upto <= 0 {
            Seq::empty()
        } else {
            self.row_indices(stack, upto - 1) + self.quad_indices(upto - 1, stack)
        }
    }

    /// The triangles between the first `upto + 1` stacks.
    pub open spec fn rows_indices(self, upto: int) -> Seq<u32>
        decreases upto,
    {
        if upto <= 0 {
            Seq::empty()
        } else {
            self.rows_indices(upto - 1) + self.row_indices(upto - 1, self.sectors as int)
        }
    }

    /// The whole triangle index list, stack by stack from the top pole and
    /// sector by sector within each.
    pub open spec fn triangle_indices_spec(self) -> Seq<u32> {
        self.rows_indices(self.stacks - 1)
    }

    proof fn lemma_quad_valid(self, sector: int, stack: int)
        requires
            self.wf(),
            0 <= stack < self.stacks - 1,
            0 <= sector < self.sectors,
        ensures
            triangles_valid(self.quad_indices(sector, stack), self.total_vertices_spec()),
    {
        let bound = self.total_vertices_spec();
        self.lemma_products();
        if !(self.seam_row(stack) || self.seam_column(sector)) {
            self.lemma_index_bound(sector, stack);
            self.lemma_index_bound(sector, stack + 1);
            self.lemma_index_bound(sector + 1, stack);
            self.lemma_index_bound(sector + 1, stack + 1);
            let jj = self.index_spec(sector, stack);
            let jk = self.index_spec(sector, stack + 1);
            let kj = self.index_spec(sector + 1, stack);
            let kk = self.index_spec(sector + 1, stack + 1);
            lemma_triangle_if_proper(jj, jk, kj, bound);
            lemma_triangle_if_proper(kj, jk, kk, bound);
            lemma_triangles_concat(
                triangle_if_proper(jj, jk, kj),
                triangle_if_proper(kj, jk, kk),
                bound,
            );
        } else {
            assert(self.quad_indices(sector, stack).len() == 0);
        }
    }

    proof fn lemma_row_valid(self, stack: int, upto: int)
        requires
            self.wf(),
            0 <= stack < self.stacks - 1,
            0 <= upto <= self.sectors,
        ensures
            triangles_valid(self.row_indices(stack, upto), self.total_vertices_spec()),
        decreases upto,
    {
        if upto > 0 {
            self.lemma_row_valid(stack, upto - 1);
            self.lemma_quad_valid(upto - 1, stack);
            lemma_triangles_concat(
                self.row_indices(stack, upto - 1),
                self.quad_indices(upto - 1, stack),
                self.total_vertices_spec(),
            );
        }
    }

    proof fn lemma_rows_valid(self, upto: int)
        requires
            self.wf(),
            0 <= upto <= self.stacks - 1,
        ensures
            triangles_valid(self.rows_indices(upto), self.total_vertices_spec()),
        decreases upto,
    {
        if upto > 0 {
            self.lemma_rows_valid(upto - 1);
            self.lemma_row_valid(upto - 1, self.sectors as int);
            lemma_triangles_concat(
                self.rows_indices(upto - 1),
                self.row_indices(upto - 1, self.sectors as int),
                self.total_vertices_spec(),
            );
        }
    }

    /// The index list is made of whole triangles, each with three different
    /// corners, and every index names one of the physical vertices.
    pub proof fn lemma_triangles_valid(self)
        requires
            self.wf(),
        ensures
            triangles_valid(self.triangle_indices_spec(), self.total_vertices_spec()),
    {
        self.lemma_rows_valid(self.stacks - 1);
    }

    /// Seam columns among the first `k` sectors of a ring.
    pub open spec fn seams_upto(self, k: int) -> int {
        if self.split() {
            (k + self.quarter() - 1 - self.half()) / self.quarter()
        } else {
            0
        }
    }

    /// Triangles among the first `k` quads between stacks `stack` and
    /// `stack + 1`: a quad at the pole, or at the corner ring, gives a
    /// triangle only where it crosses from one quadrant to the next.
    pub open spec fn row_tris_upto(self, stack: int, k: int) -> int {
        if self.seam_row(stack) {
            0
        } else if stack == 0 || stack == self.stacks - 2 {
            k / self.quarter()
        } else if stack == 1 || stack == self.stacks - 3 {
            k + k / self.quarter() - self.seams_upto(k)
        } else {
            2 * k - 2 * self.seams_upto(k)
        }
    }

    proof fn lemma_quad_len(self, sector: int, stack: int)
        requires
            self.wf(),
            0 <= stack < self.stacks - 1,
            0 <= sector < self.sectors,
        ensures
            self.quad_indices(sector, stack).len() == 3 * (self.row_tris_upto(stack, sector + 1)
                - self.row_tris_upto(stack, sector)),
    {
        let q = self.quarter();
        let h = self.half();
        let sc = self.sectors as int;
        let t = self.stacks as int;
        self.lemma_products();
        lemma_count_step(sector, q, q - 1);
        if self.split() {
            lemma_count_step(sector, q, h);
        }
        lemma_fundamental_div_mod(sector, q);
        let qd = sector / q;
        assert(0 <= qd < 4) by (nonlinear_arith)
            requires sector == q * qd + sector % q, 0 <= sector % q < q, 0 <= sector < 4 * q;
        assert((sector + 1) / q == qd + (if sector % q == q - 1 { 1int } else { 0 }));
        lemma_small_mod(sector as nat, sc as nat);
        if sector + 1 < sc {
            lemma_small_mod((sector + 1) as nat, sc as nat);
        } else {
            lemma_mod_self_0(sc);
        }
        self.lemma_stack_step(stack);
        self.lemma_stack_step(stack + 1);
        let jj = self.index_spec(sector, stack);
        let jk = self.index_spec(sector, stack + 1);
        let kj = self.index_spec(sector + 1, stack);
        let kk = self.index_spec(sector + 1, stack + 1);
        if self.seam_row(stack) || self.seam_column(sector) {
            assert(self.quad_indices(sector, stack).len() == 0);
        } else {
            assert(self.quad_indices(sector, stack) == triangle_if_proper(jj, jk, kj)
                + triangle_if_proper(kj, jk, kk));
        }
    }

    proof fn lemma_row_len(self, stack: int, k: int)
        requires
            self.wf(),
            0 <= stack < self.stacks - 1,
            0 <= k <= self.sectors,
        ensures
            self.row_indices(stack, k).len() == 3 * self.row_tris_upto(stack, k),
        decreases k,
    {
        if k > 0 {
            self.lemma_row_len(stack, k - 1);
            self.lemma_quad_len(k - 1, stack);
        } else {
            let q = self.quarter();
            lemma_fundamental_div_mod_converse(0, q, 0, 0);
            lemma_fundamental_div_mod_converse(q - 1 - self.half(), q, 0, q - 1 - self.half());
            assert(self.row_tris_upto(stack, 0) == 0);
        }
    }

    proof fn lemma_row_total(self, stack: int)
        requires
            self.wf(),
            0 <= stack < self.stacks - 1,
        ensures
            self.row_indices(stack, self.sectors as int).len() == 3 * self.row_tris_upto(
                stack,
                self.sectors as int,
            ),
            self.sectors as int / self.quarter() == 4,
            self.seams_upto(self.sectors as int) == (if self.split() { 4int } else { 0 }),
    {
        let q = self.quarter();
        self.lemma_row_len(stack, self.sectors as int);
        lemma_fundamental_div_mod_converse(self.sectors as int, q, 4, 0);
        if self.split() {
            let x = self.sectors + q - 1 - self.half();
            lemma_fundamental_div_mod_converse(x, q, 4, q - 1 - self.half());
        }
    }

    /// Full rings strictly between the corner rings that lie on a seam row
    /// and come before stack `r`.
    pub open spec fn seam_rows_below(self, r: int) -> int {
        if self.split() {
            (if self.half() + 1 < r { 1int } else { 0 }) + (if self.stacks - self.half() - 3 < r {
                1int
            } else {
                0
            })
        } else {
            0
        }
    }

    /// Triangles between the first `r + 1` stacks, in closed form.
    pub open spec fn rows_tris_closed(self, r: int) -> int {
        let e = self.sectors + (if self.split() { 0int } else { 4 });
        let o = 2 * self.sectors - (if self.split() { 8int } else { 0 });
        let t = self.stacks as int;
        if r <= 0 {
            0
        } else if r == 1 {
            4
        } else if r <= t - 3 {
            4 + e + (r - 2) * o - o * self.seam_rows_below(r)
        } else if r == t - 2 {
            4 + 2 * e + (t - 5) * o - o * self.seam_rows_below(t - 3)
        } else {
            8 + 2 * e + (t - 5) * o - o * self.seam_rows_below(t - 3)
        }
    }

    proof fn lemma_rows_len(self, r: int)
        requires
            self.wf(),
            0 <= r <= self.stacks - 1,
        ensures
            self.rows_indices(r).len() == 3 * self.rows_tris_closed(r),
        decreases r,
    {
        if r > 0 {
            self.lemma_rows_len(r - 1);
            self.lemma_row_total(r - 1);
            let e = self.sectors + (if self.split() { 0int } else { 4 });
            let o = 2 * self.sectors - (if self.split() { 8int } else { 0 });
            let x = r - 1;
            if 2 <= x <= self.stacks - 4 {
                let d = self.seam_rows_below(r) - self.seam_rows_below(x);
                assert(d == (if self.seam_row(x) { 1int } else { 0 }));
                assert((r - 2) * o - o * self.seam_rows_below(r) == (x - 2) * o - o
                    * self.seam_rows_below(x) + o - o * d) by (nonlinear_arith)
                    requires r == x + 1, d == self.seam_rows_below(r) - self.seam_rows_below(x);
            }
            if r == 2 {
                assert(self.seam_rows_below(2) == 0);
                assert((r - 2) * o == 0);
            }
        }
    }

    /// The index list holds exactly as many entries as the closed form of
    /// `total_indices` gives.
    pub proof fn lemma_triangle_count(self)
        requires
            self.wf(),
        ensures
            self.triangle_indices_spec().len() == self.total_indices_spec(),
    {
        let t = self.stacks as int;
        self.lemma_rows_len(t - 1);
        let n = self.subdivisions as int;
        let sc = self.sectors as int;
        let e = sc + (if self.split() { 0int } else { 4 });
        let o = 2 * sc - (if self.split() { 8int } else { 0 });
        if self.split() {
            assert(self.seam_rows_below(t - 3) == 2);
            assert(3 * (8 + 2 * e + (t - 5) * o - o * 2) == 6 * ((sc - 4) * (t - 5) - 4 * (n - 1)))
                by (nonlinear_arith)
                requires sc == 4 * n + 8, t == 2 * n + 6, e == sc, o == 2 * sc - 8;
        } else {
            assert(3 * (8 + 2 * e + (t - 5) * o) == 6 * (sc * (t - 3) - 4 * (n - 1)))
                by (nonlinear_arith)
                requires sc == 4 * n + 4, t == 2 * n + 4, e == sc + 4, o == 2 * sc;
        }
    }

    /// The triangles of the mesh, three indices each, counter-clockwise seen
    /// from outside.
    #[verifier::rlimit(40)]
    pub fn triangle_indices(&self) -> (r: Vec<u32>)
        requires
            self.wf(),
        ensures
            r@ == self.triangle_indices_spec(),
    {
        let mut indices: Vec<u32> = Vec::new();
        let half: u32 = self.subdivisions / 2;
        let quarter: u32 = self.sectors / 4;
        let split = self.extra_levels == 2;
        let mut stack: u32 = 0;
        while stack < self.stacks - 1
            invariant
                self.wf(),
                half == self.half(),
                quarter == self.quarter(),
                split == self.split(),
                stack <= self.stacks - 1,
                indices@ == self.rows_indices(stack as int),
            decreases self.stacks - stack,
        {
            let mut sector: u32 = 0;
            while sector < self.sectors
                invariant
                    self.wf(),
                    half == self.half(),
                    quarter == self.quarter(),
                    split == self.split(),
                    stack < self.stacks - 1,
                    sector <= self.sectors,
                    indices@ == self.rows_indices(stack as int) + self.row_indices(
                        stack as int,
                        sector as int,
                    ),
                decreases self.sectors - sector,
            {
                let ghost before = indices@;
                let seam = split && (stack == END_STACKS + half - 1 || stack == self.stacks
                    - END_STACKS - half - 1 || sector % quarter == half);
                if !seam {
                    let jj = self.index(sector, stack);
                    let jk = self.index(sector, stack + 1);
                    let kj = self.index(sector + 1, stack);
                    let kk = self.index(sector + 1, stack + 1);
                    if jj != jk && jj != kj && jk != kj {
                        indices.push(jj);
                        indices.push(jk);
                        indices.push(kj);
                    }
                    let ghost middle = indices@;
                    assert(middle =~= before + triangle_if_proper(jj as int, jk as int, kj as int));
                    if kj != jk && kj != kk && jk != kk {
                        indices.push(kj);
                        indices.push(jk);
                        indices.push(kk);
                    }
                    assert(indices@ =~= middle + triangle_if_proper(kj as int, jk as int, kk as int));
                }
                assert(indices@ =~= before + self.quad_indices(sector as int, stack as int));
                assert(self.row_indices(stack as int, sector + 1) == self.row_indices(
                    stack as int,
                    sector as int,
                ) + self.quad_indices(sector as int, stack as int));
                assert(indices@ =~= self.rows_indices(stack as int) + self.row_indices(
                    stack as int,
                    sector + 1,
                ));
                sector += 1;
            }
            assert(self.rows_indices(stack + 1) == self.rows_indices(stack as int)
                + self.row_indices(stack as int, self.sectors as int));
            stack += 1;
        }
        indices
    }
}

} // verus!
