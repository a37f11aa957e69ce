use vstd::prelude::*;

use crate::indexer::{PhysicalIndexer, StackType, XYQuarter};

verus! {

/// Where a vertex lands when the six faces of the box are unwrapped into
/// texture space, as whole steps of one fillet arc.
///
/// A step is `1 / steps` of the arc from a flat face to the middle of a
/// fillet, whose length is `rounded_length` (an eighth of a full turn of
/// the radius). With `core` the core box size:
/// - `Center` is the texture point `(0.5, 0.5)`.
/// - `Cap` is `0.5 + v / (core.xy + 2 rounded_length)`, where `v` is the
///   vector `(dist_steps / steps) * edge * rounded_length + core.xy / 2`,
///   `edge` is `(edge_steps / steps, 1)` when `edge_along_u` and
///   `(1, edge_steps / steps)` otherwise, multiplied component-wise by the
///   signs of `quarter` and, when `flip_v`, by `(1, -1)`.
/// - `Side` has `u = (u_steps / steps * rounded_length + (u_past_core ?
///   u_core : 0)) / (u_core + 2 rounded_length)`, where `u_core` is
///   `core.x` when `u_along_x` and `core.y` otherwise, and
///   `v = (v_steps / steps * rounded_length + (v_past_core ? core.z +
///   rounded_length : 0)) / (core.z + 2 rounded_length)`.
#[derive(Copy, Clone, Debug, PartialEq, Eq, Structural)]
pub enum UvCoords {
    Center,
    Cap {
        quarter: XYQuarter,
        flip_v: bool,
        steps: u32,
        dist_steps: u32,
        edge_steps: u32,
        edge_along_u: bool,
    },
    Side {
        face: u32,
        u_along_x: bool,
        steps: u32,
        u_steps: u32,
        u_past_core: bool,
        v_steps: u32,
        v_past_core: bool,
    },
}

impl UvCoords {
    /// Every step count lies within its arc, and the arc has at least one step.
    pub open spec fn within_arcs(self) -> bool {
        match self {
            UvCoords::Center => true,
            UvCoords::Cap { steps, dist_steps, edge_steps, quarter, .. } => {
                &&& steps >= 1
                &&& dist_steps <= steps
                &&& edge_steps <= steps
                &&& quarter.0 < 4
            },
            UvCoords::Side { face, steps, v_steps, .. } => {
                &&& steps >= 1
                &&& v_steps <= steps
                &&& 1 <= face <= 4
            },
        }
    }
}

impl PhysicalIndexer {
    /// The whole-step texture point of vertex `sector` of stack `stack`.
    pub open spec fn uv_coords_spec(self, sector: int, stack: int) -> UvCoords {
        let n = self.subdivisions as int;
        let h = self.half();
        let decoded = self.decode_sector_spec(sector, stack);
        let logical_sector = decoded.0;
        let face = self.face_spec(sector, stack);
        if face == 0 || face == 5 {
            if self.stack_type_spec(stack) is Ultimate {
                UvCoords::Center
            } else {
                let from_pole = if stack < self.stacks - stack - 1 {
                    stack
                } else {
                    self.stacks - stack - 1
                };
                let dist = if from_pole < 1 {
                    0
                } else if from_pole > h + 1 {
                    h
                } else {
                    from_pole - 1
                };
                let corner_sector = logical_sector % n;
                let octant = logical_sector / h;
                UvCoords::Cap {
                    quarter: decoded.1,
                    flip_v: face == 0,
                    steps: h as u32,
                    dist_steps: dist as u32,
                    edge_steps: (if corner_sector <= h {
                        corner_sector
                    } else {
                        2 * h - corner_sector
                    }) as u32,
                    edge_along_u: ((octant + 1) / 2) % 2 == 1,
                }
            }
        } else {
            let v_offset = stack - h - 2;
            UvCoords::Side {
                face: face as u32,
                u_along_x: face == 1 || face == 3,
                steps: h as u32,
                u_steps: ((4 * n + h + logical_sector - face * n) % (4 * n)) as u32,
                u_past_core: face % 4 == decoded.1.0,
                v_steps: (v_offset % (h + 1)) as u32,
                v_past_core: v_offset > h,
            }
        }
    }

    /// The texture coordinates of vertex `sector` of stack `stack`. Each face
    /// is unwrapped on its own: the sides along their two axes, the caps
    /// radially from their centre, mirrored within each quadrant. The pole
    /// takes the centre of its cap whatever the sector.
    pub fn uv_coords(&self, sector: u32, stack: u32) -> (r: UvCoords)
        requires
            self.wf(),
            self.split(),
            stack < self.stacks,
            sector < self.sectors_spec(stack as int),
        ensures
            r == self.uv_coords_spec(sector as int, stack as int),
            r.within_arcs(),
    {
        let half_subdivisions: u32 = self.subdivisions / 2;
        let (logical_sector, xy_quarter) = self.decode_sector(sector, stack);
        let face = self.face(sector, stack);
        if face == 0 || face == 5 {
            match self.stack_type(stack) {
                StackType::Ultimate(_) => UvCoords::Center,
                StackType::Penultimate(_) | StackType::Ordinary => {
                    let from_pole: u32 = if stack < self.stacks - stack - 1 {
                        stack
                    } else {
                        self.stacks - stack - 1
                    };
                    let dist: u32 = if from_pole < 1 {
                        0
                    } else if from_pole > half_subdivisions + 1 {
                        half_subdivisions
                    } else {
                        from_pole - 1
                    };
                    let corner_sector = logical_sector % self.subdivisions;
                    let octant = logical_sector / half_subdivisions;
                    let mirrored_sector = if corner_sector <= half_subdivisions {
                        corner_sector
                    } else {
                        2 * half_subdivisions - corner_sector
                    };
                    UvCoords::Cap {
                        quarter: xy_quarter,
                        flip_v: face == 0,
                        steps: half_subdivisions,
                        dist_steps: dist,
                        edge_steps: mirrored_sector,
                        edge_along_u: ((octant + 1) / 2) % 2 == 1,
                    }
                },
            }
        } else {
            assert(face * self.subdivisions <= 4 * self.subdivisions) by (nonlinear_arith)
                requires face <= 4;
            let four_n: u32 = 4 * self.subdivisions;
            let u_offset = (four_n + half_subdivisions + logical_sector - face * self.subdivisions)
                % four_n;
            let v_offset = stack - half_subdivisions - 2;
            UvCoords::Side {
                face,
                u_along_x: face == 1 || face == 3,
                steps: half_subdivisions,
                u_steps: u_offset,
                u_past_core: face % 4 == xy_quarter.0,
                v_steps: v_offset % (half_subdivisions + 1),
                v_past_core: v_offset > half_subdivisions,
            }
        }
    }
}

} // verus!
