use bevy_mod_rounded_box::indexer::{PhysicalIndexer, StackType, XYQuarter, ZHalf};
use bevy_mod_rounded_box::options::MAX_SUBDIVISIONS;
use bevy_mod_rounded_box::{mesh_layout, BoxMeshOptions, MeshError, MeshLayout, UvCoords};

fn opts(uv: bool, face: bool) -> BoxMeshOptions {
    BoxMeshOptions {
        generate_uv: uv,
        generate_face: face,
    }
}

fn expected_vertices(n: usize, split: bool) -> usize {
    let m = if split { n + n % 2 } else { n };
    if split {
        8 * m * m + 24 * m + 26
    } else {
        8 * m * m + 8 * m + 10
    }
}

fn expected_indices(n: usize, split: bool) -> usize {
    let m = if split { n + n % 2 } else { n };
    3 * (16 * m * m + 16 * m + 16)
}

fn check_triangles(layout: &MeshLayout) {
    let n = layout.vertices.len() as u32;
    assert_eq!(layout.indices.len() % 3, 0);
    for t in layout.indices.chunks(3) {
        assert!(t[0] != t[1] && t[0] != t[2] && t[1] != t[2], "degenerate {:?}", t);
        for &i in t {
            assert!(i < n);
        }
    }
}

#[test]
fn test_create_mesh() {
    for subdivisions in 1..=10 {
        for uvf in [false, true] {
            println!("subdivions={} uvf={}", subdivisions, uvf);
            let layout = mesh_layout(subdivisions, opts(uvf, uvf)).unwrap();
            println!(
                "indices={} vertices={}",
                layout.indices.len(),
                layout.vertices.len()
            );
            assert_eq!(layout.indices.len(), layout.indexer.total_indices());
            assert_eq!(layout.vertices.len(), layout.indexer.total_vertices());
        }
    }
}

#[test]
fn counts_match_closed_form() {
    for n in 1..=10 {
        for (uv, face) in [(false, false), (true, false), (false, true), (true, true)] {
            let split = uv || face;
            let layout = mesh_layout(n, opts(uv, face)).unwrap();
            assert_eq!(layout.vertices.len(), expected_vertices(n, split));
            assert_eq!(layout.indices.len(), expected_indices(n, split));
        }
    }
}

#[test]
fn no_degenerate_triangles_and_valid_indices() {
    for n in 1..=10 {
        for uvf in [false, true] {
            check_triangles(&mesh_layout(n, opts(uvf, uvf)).unwrap());
        }
    }
}

#[test]
fn attributes_align_with_vertices() {
    for n in 1..=6 {
        let both = mesh_layout(n, opts(true, true)).unwrap();
        assert_eq!(both.uvs.as_ref().unwrap().len(), both.vertices.len());
        assert_eq!(both.faces.as_ref().unwrap().len(), both.vertices.len());
        let uv_only = mesh_layout(n, opts(true, false)).unwrap();
        assert_eq!(uv_only.uvs.as_ref().unwrap().len(), uv_only.vertices.len());
        assert!(uv_only.faces.is_none());
        let face_only = mesh_layout(n, opts(false, true)).unwrap();
        assert!(face_only.uvs.is_none());
        assert_eq!(face_only.faces.as_ref().unwrap().len(), face_only.vertices.len());
        let plain = mesh_layout(n, opts(false, false)).unwrap();
        assert!(plain.uvs.is_none() && plain.faces.is_none());
    }
}

#[test]
fn scenario_three_subdivisions_plain() {
    let layout = mesh_layout(3, opts(false, false)).unwrap();
    assert_eq!(layout.vertices.len(), 106);
    assert_eq!(layout.indices.len(), 624);
    assert_eq!(layout.indices.len() / 3, 208);
    check_triangles(&layout);
}

#[test]
fn scenario_three_subdivisions_split() {
    let plain = mesh_layout(3, opts(false, false)).unwrap();
    let layout = mesh_layout(3, opts(true, true)).unwrap();
    assert_eq!(layout.indexer.subdivisions, 4);
    assert_eq!(layout.vertices.len(), 250);
    assert!(layout.vertices.len() > plain.vertices.len());
    assert_eq!(layout.uvs.as_ref().unwrap().len(), 250);
    assert_eq!(layout.faces.as_ref().unwrap().len(), 250);
    assert_eq!(layout.indices.len(), expected_indices(4, true));
    check_triangles(&layout);
}

#[test]
fn zero_subdivisions_is_refused() {
    assert!(matches!(
        mesh_layout(0, opts(false, false)),
        Err(MeshError::ZeroSubdivisions)
    ));
    assert_eq!(
        PhysicalIndexer::new(0, opts(true, true)).unwrap_err(),
        MeshError::ZeroSubdivisions
    );
}

#[test]
fn too_many_subdivisions_is_refused() {
    assert!(matches!(
        mesh_layout(MAX_SUBDIVISIONS + 1, opts(false, false)),
        Err(MeshError::TooManySubdivisions)
    ));
    let largest = PhysicalIndexer::new(MAX_SUBDIVISIONS, opts(true, false)).unwrap();
    assert_eq!(largest.total_vertices(), expected_vertices(MAX_SUBDIVISIONS, true));
    assert_eq!(largest.total_indices(), expected_indices(MAX_SUBDIVISIONS, true));
}

#[test]
fn indexer_shape() {
    let p = PhysicalIndexer::new(3, opts(false, false)).unwrap();
    assert_eq!((p.subdivisions, p.extra_levels, p.sectors, p.stacks), (3, 1, 16, 10));
    let s = PhysicalIndexer::new(3, opts(false, true)).unwrap();
    assert_eq!((s.subdivisions, s.extra_levels, s.sectors, s.stacks), (4, 2, 24, 14));
    assert_eq!(p.stack_type(0), StackType::Ultimate(ZHalf::Top));
    assert_eq!(p.stack_type(1), StackType::Penultimate(ZHalf::Top));
    assert_eq!(p.stack_type(5), StackType::Ordinary);
    assert_eq!(p.stack_type(8), StackType::Penultimate(ZHalf::Bottom));
    assert_eq!(p.stack_type(9), StackType::Ultimate(ZHalf::Bottom));
    assert_eq!((p.sectors(0), p.sectors(1), p.sectors(4), p.sectors(8)), (1, 4, 16, 4));
    assert!(!p.stretch_xy(0) && p.stretch_xy(1) && p.stretch_xy(4) && !p.stretch_xy(9));
}

#[test]
fn physical_indices() {
    let p = PhysicalIndexer::new(3, opts(false, false)).unwrap();
    assert_eq!(p.index(7, 0), 0);
    assert_eq!(p.index(0, 1), 1);
    assert_eq!(p.index(3, 1), 1);
    assert_eq!(p.index(4, 1), 2);
    assert_eq!(p.index(15, 1), 4);
    assert_eq!(p.index(16, 1), 1);
    assert_eq!(p.index(0, 2), 5);
    assert_eq!(p.index(16, 2), 5);
    assert_eq!(p.index(3, 3), 5 + 16 + 3);
    assert_eq!(p.index(12, 8), 5 + 6 * 16 + 3);
    assert_eq!(p.index(5, 9), 105);
    assert_eq!(p.total_vertices(), 106);
}

#[test]
fn decoding() {
    let p = PhysicalIndexer::new(3, opts(false, false)).unwrap();
    assert_eq!(p.decode_stack(0), (0, ZHalf::Top));
    assert_eq!(p.decode_stack(1), (0, ZHalf::Top));
    assert_eq!(p.decode_stack(4), (3, ZHalf::Top));
    assert_eq!(p.decode_stack(5), (3, ZHalf::Bottom));
    assert_eq!(p.decode_stack(9), (6, ZHalf::Bottom));
    assert_eq!(p.decode_sector(0, 0), (0, XYQuarter(0)));
    assert_eq!(p.decode_sector(2, 1), (6, XYQuarter(2)));
    assert_eq!(p.decode_sector(3, 4), (3, XYQuarter(0)));
    assert_eq!(p.decode_sector(4, 4), (3, XYQuarter(1)));
    assert_eq!(p.decode_sector(15, 4), (12, XYQuarter(3)));
    let s = PhysicalIndexer::new(2, opts(true, false)).unwrap();
    assert_eq!(s.decode_stack(2), (1, ZHalf::Top));
    assert_eq!(s.decode_stack(3), (1, ZHalf::Top));
    assert_eq!(s.decode_stack(5), (2, ZHalf::Bottom));
    assert_eq!(s.decode_sector(1, 2), (1, XYQuarter(0)));
    assert_eq!(s.decode_sector(2, 2), (1, XYQuarter(0)));
    assert_eq!(s.decode_sector(4, 2), (2, XYQuarter(1)));
}

#[test]
fn quadrant_and_half_signs() {
    assert_eq!(XYQuarter(0).coords(), (1, 1));
    assert_eq!(XYQuarter(1).coords(), (-1, 1));
    assert_eq!(XYQuarter(2).coords(), (-1, -1));
    assert_eq!(XYQuarter(3).coords(), (1, -1));
    assert_eq!(XYQuarter(6).coords(), (-1, -1));
    assert_eq!(ZHalf::from(0), ZHalf::Top);
    assert_eq!(ZHalf::from(2), ZHalf::Bottom);
    assert_eq!(ZHalf::Top.coord(), 1);
    assert_eq!(ZHalf::Bottom.coord(), -1);
}

#[test]
fn face_ids() {
    let s = PhysicalIndexer::new(2, opts(false, true)).unwrap();
    assert_eq!(s.face(0, 0), 0);
    assert_eq!(s.face(3, 2), 0);
    assert_eq!(s.face(0, 3), 4);
    assert_eq!(s.face(1, 3), 4);
    assert_eq!(s.face(2, 3), 1);
    assert_eq!(s.face(6, 3), 2);
    assert_eq!(s.face(10, 3), 3);
    assert_eq!(s.face(15, 3), 4);
    assert_eq!(s.face(5, 6), 1);
    assert_eq!(s.face(5, 7), 5);
    assert_eq!(s.face(0, 8), 5);
    assert_eq!(s.face(0, 9), 5);
    let layout = mesh_layout(4, opts(false, true)).unwrap();
    let faces = layout.faces.unwrap();
    for f in 0..6u32 {
        assert!(faces.contains(&f));
    }
    assert!(faces.iter().all(|&f| f < 6));
}

#[test]
fn texture_points() {
    let s = PhysicalIndexer::new(2, opts(true, false)).unwrap();
    assert_eq!(s.uv_coords(0, 0), UvCoords::Center);
    assert_eq!(
        s.uv_coords(1, 1),
        UvCoords::Cap {
            quarter: XYQuarter(1),
            flip_v: true,
            steps: 1,
            dist_steps: 0,
            edge_steps: 0,
            edge_along_u: true,
        }
    );
    assert_eq!(
        s.uv_coords(1, 2),
        UvCoords::Cap {
            quarter: XYQuarter(0),
            flip_v: true,
            steps: 1,
            dist_steps: 1,
            edge_steps: 1,
            edge_along_u: true,
        }
    );
    assert_eq!(
        s.uv_coords(2, 4),
        UvCoords::Side {
            face: 1,
            u_along_x: true,
            steps: 1,
            u_steps: 0,
            u_past_core: false,
            v_steps: 1,
            v_past_core: false,
        }
    );
    assert_eq!(
        s.uv_coords(0, 6),
        UvCoords::Side {
            face: 4,
            u_along_x: false,
            steps: 1,
            u_steps: 1,
            u_past_core: true,
            v_steps: 1,
            v_past_core: true,
        }
    );
}

#[test]
fn vertices_follow_the_index_order() {
    let layout = mesh_layout(2, opts(false, false)).unwrap();
    let p = layout.indexer;
    let mut k = 0usize;
    for stack in 0..p.stacks {
        for sector in 0..p.sectors(stack) {
            assert_eq!(layout.vertices[k], p.sample(sector, stack));
            k += 1;
        }
    }
    assert_eq!(k, layout.vertices.len());
    assert!(!layout.vertices[0].stretch_xy);
    assert_eq!(layout.vertices[0].logical_stack, 0);
    assert_eq!(layout.vertices[k - 1].logical_stack, 4);
    assert_eq!(layout.vertices[k - 1].z_half, ZHalf::Bottom);
}

#[test]
fn options_flags() {
    let o = opts(true, false);
    assert!(o.is_generate_uv() && !o.is_generate_face() && o.is_split_faces());
    let d = BoxMeshOptions::default();
    assert!(!d.is_generate_uv() && !d.is_generate_face() && !d.is_split_faces());
}

#[test]
fn quarter_turn_maps_rings_onto_themselves() {
    for (n, split) in [(3usize, false), (4, true)] {
        let p = PhysicalIndexer::new(n, opts(split, false)).unwrap();
        let n = p.subdivisions;
        for stack in 1..p.stacks - 1 {
            let count = p.sectors(stack);
            for sector in 0..count - count / 4 {
                let a = p.sample(sector, stack);
                let b = p.sample(sector + count / 4, stack);
                assert_eq!(b.logical_sector, a.logical_sector + n);
                assert_eq!(b.quarter.0, a.quarter.0 + 1);
                assert_eq!((b.logical_stack, b.z_half, b.stretch_xy), (a.logical_stack, a.z_half, a.stretch_xy));
            }
        }
    }
}

#[test]
fn top_and_bottom_mirror() {
    for (n, split) in [(3usize, false), (2, true), (5, true)] {
        let p = PhysicalIndexer::new(n, opts(false, split)).unwrap();
        for stack in 0..p.stacks {
            let (a, ha) = p.decode_stack(stack);
            let (b, hb) = p.decode_stack(p.stacks - 1 - stack);
            assert_eq!(b, 2 * p.subdivisions - a);
            assert_ne!(ha, hb);
        }
    }
}
