use flowngin::noise::hash2_u24;
use flowngin::stl::{encode_stl, parse_stl, StlError, StlMesh};
use flowngin::terrain::{grid_triangles, GridError, Terrain, GRID_NODES, GRID_RES, NODE_COUNT};
use flowngin::vector::Vec3Bits;

const HALF: f32 = 40.0;
const STEP: f32 = 1.0;

fn axis() -> Vec<u32> {
    (0..GRID_NODES).map(|g| (-HALF + g as f32 * STEP).to_bits()).collect()
}

fn field(x: f32, z: f32) -> f32 {
    let mountain = 5.0 * (-(x * x + z * z) / (2.0 * 13.0 * 13.0)).exp();
    let noise = hash2_u24((x * 0.09).floor() as i32, (z * 0.09).floor() as i32) as f32
        / 0xFFFFFF as f32
        * 2.0
        - 1.0;
    mountain + 0.3 * noise
}

fn sample_terrain() -> Terrain {
    let mut heights = Vec::new();
    for j in 0..GRID_NODES {
        let z = -HALF + j as f32 * STEP;
        for i in 0..GRID_NODES {
            let x = -HALF + i as f32 * STEP;
            heights.push(field(x, z).to_bits());
        }
    }
    Terrain::from_heights(heights, &axis())
}

fn v(b: Vec3Bits) -> [f32; 3] {
    [f32::from_bits(b.x), f32::from_bits(b.y), f32::from_bits(b.z)]
}

fn sub(a: [f32; 3], b: [f32; 3]) -> [f32; 3] {
    [a[0] - b[0], a[1] - b[1], a[2] - b[2]]
}

fn cross(a: [f32; 3], b: [f32; 3]) -> [f32; 3] {
    [a[1] * b[2] - a[2] * b[1], a[2] * b[0] - a[0] * b[2], a[0] * b[1] - a[1] * b[0]]
}

fn normalize_or_zero(a: [f32; 3]) -> [f32; 3] {
    let l = (a[0] * a[0] + a[1] * a[1] + a[2] * a[2]).sqrt();
    if l > 0.0 && l.is_finite() {
        [a[0] / l, a[1] / l, a[2] / l]
    } else {
        [0.0, 0.0, 0.0]
    }
}

fn winding_normal(tri: &[Vec3Bits; 3]) -> [f32; 3] {
    let (a, b, c) = (v(tri[0]), v(tri[1]), v(tri[2]));
    normalize_or_zero(cross(sub(b, a), sub(c, a)))
}

fn to_bits(a: [f32; 3]) -> Vec3Bits {
    Vec3Bits { x: a[0].to_bits(), y: a[1].to_bits(), z: a[2].to_bits() }
}

fn cells_of(mesh: &StlMesh) -> Vec<[(i32, i32); 3]> {
    mesh.triangles
        .iter()
        .map(|tri| {
            let c = |p: Vec3Bits| {
                let p = v(p);
                (((p[0] + HALF) / STEP + 0.5) as i32, ((p[2] + HALF) / STEP + 0.5) as i32)
            };
            [c(tri[0]), c(tri[1]), c(tri[2])]
        })
        .collect()
}

fn dist(a: [f32; 3], b: [f32; 3]) -> f32 {
    let d = sub(a, b);
    (d[0] * d[0] + d[1] * d[1] + d[2] * d[2]).sqrt()
}

#[test]
fn stl_roundtrip() {
    let terrain = sample_terrain();
    let tris = terrain.triangle_vertices();
    let normals: Vec<Vec3Bits> = tris.iter().map(|t| to_bits(winding_normal(t))).collect();
    let bytes = encode_stl(&tris, &normals);
    let mesh = parse_stl(&bytes).unwrap();

    assert_eq!(mesh.triangles.len(), terrain.indices.len());
    assert_eq!(mesh.normals.len(), terrain.indices.len());
    for (tri, &idx) in mesh.triangles.iter().zip(&terrain.indices) {
        let a = terrain.vertices[idx[0] as usize];
        let b = terrain.vertices[idx[1] as usize];
        let c = terrain.vertices[idx[2] as usize];
        assert_eq!(tri[0], a);
        assert_eq!(tri[1], b);
        assert_eq!(tri[2], c);
    }
    for (tri, &stored) in mesh.triangles.iter().zip(&mesh.normals) {
        let from_winding = winding_normal(tri);
        assert!(from_winding[1] > 0.0, "winding must give upward normals");
        assert!(dist(v(stored), from_winding) < 1e-3);
    }

    let restored = Terrain::from_cells(&mesh, &cells_of(&mesh), &axis()).unwrap();
    assert_eq!(restored.heights, terrain.heights);
    assert_eq!(restored.vertices, terrain.vertices);
    assert_eq!(restored.indices, terrain.indices);
}

#[test]
fn stl_header_and_length() {
    let tri = [Vec3Bits::new(1, 2, 3), Vec3Bits::new(4, 5, 6), Vec3Bits::new(7, 8, 9)];
    let bytes = encode_stl(&vec![tri, tri], &vec![Vec3Bits::new(10, 11, 12), Vec3Bits::zero()]);
    assert_eq!(bytes.len(), 84 + 2 * 50);
    assert_eq!(&bytes[0..8], b"flowngin");
    assert!(bytes[8..80].iter().all(|&b| b == 0));
    assert_eq!(&bytes[80..84], &[2, 0, 0, 0]);
    // first record: normal then the three vertices, little-endian
    assert_eq!(&bytes[84..88], &[10, 0, 0, 0]);
    assert_eq!(&bytes[96..100], &[1, 0, 0, 0]);
    assert_eq!(&bytes[132..134], &[0, 0]);
}

#[test]
fn stl_empty_mesh() {
    let bytes = encode_stl(&vec![], &vec![]);
    assert_eq!(bytes.len(), 84);
    let mesh = parse_stl(&bytes).unwrap();
    assert!(mesh.triangles.is_empty());
    assert!(mesh.normals.is_empty());
}

#[test]
fn stl_too_short() {
    assert_eq!(parse_stl(&vec![0u8; 83]).err(), Some(StlError::TooShort));
    assert_eq!(parse_stl(&vec![]).err(), Some(StlError::TooShort));
}

#[test]
fn stl_truncated() {
    let tri = [Vec3Bits::zero(); 3];
    let mut bytes = encode_stl(&vec![tri], &vec![Vec3Bits::zero()]);
    bytes.pop();
    assert_eq!(parse_stl(&bytes).err(), Some(StlError::Truncated));
    let mut announced = vec![0u8; 84];
    announced[80] = 1;
    assert_eq!(parse_stl(&announced).err(), Some(StlError::Truncated));
}

#[test]
fn stl_trailing_bytes_ignored() {
    let tri = [Vec3Bits::new(1, 1, 1), Vec3Bits::new(2, 2, 2), Vec3Bits::new(3, 3, 3)];
    let mut bytes = encode_stl(&vec![tri], &vec![Vec3Bits::new(9, 9, 9)]);
    bytes.extend_from_slice(&[7, 7, 7]);
    let mesh = parse_stl(&bytes).unwrap();
    assert_eq!(mesh.triangles, vec![tri]);
    assert_eq!(mesh.normals, vec![Vec3Bits::new(9, 9, 9)]);
}

#[test]
fn grid_triangle_layout() {
    let t = grid_triangles();
    assert_eq!(t.len(), 2 * GRID_RES * GRID_RES);
    assert_eq!(t[0], [0, 81, 1]);
    assert_eq!(t[1], [1, 81, 82]);
    // cell (i = 2, j = 1)
    assert_eq!(t[2 * (80 + 2)], [83, 164, 84]);
    assert_eq!(t[2 * (80 + 2) + 1], [84, 164, 165]);
    assert!(t.iter().all(|tri| tri.iter().all(|&k| (k as usize) < NODE_COUNT)));
}

#[test]
fn terrain_vertices_follow_axis() {
    let terrain = sample_terrain();
    let ax = axis();
    assert_eq!(terrain.vertices.len(), NODE_COUNT);
    let k = 5 * GRID_NODES + 7;
    assert_eq!(terrain.vertices[k], Vec3Bits::new(ax[7], terrain.heights[k], ax[5]));
    assert_eq!(f32::from_bits(terrain.vertices[k].x), -33.0);
    assert_eq!(f32::from_bits(terrain.vertices[k].z), -35.0);
}

#[test]
fn corner_heights_fold_at_edge() {
    let terrain = sample_terrain();
    let h = &terrain.heights;
    assert_eq!(terrain.corner_heights(3, 4), (h[4 * 81 + 3], h[4 * 81 + 4], h[5 * 81 + 3], h[5 * 81 + 4]));
    let last = 80 * 81 + 80;
    assert_eq!(terrain.corner_heights(80, 80), (h[last], h[last], h[last], h[last]));
}

#[test]
fn from_cells_reports_first_outside_vertex() {
    let tri = [Vec3Bits::new(1, 2, 3), Vec3Bits::new(4, 5, 6), Vec3Bits::new(7, 8, 9)];
    let mesh = StlMesh { triangles: vec![tri, tri], normals: vec![Vec3Bits::zero(); 2] };
    let cells = vec![[(0, 0), (1, 0), (0, 1)], [(0, 0), (81, 0), (-1, 0)]];
    let r = Terrain::from_cells(&mesh, &cells, &axis());
    assert_eq!(r.err(), Some(GridError::OutsideGrid { x: 4, z: 6 }));
}

#[test]
fn from_cells_last_write_wins_and_unnamed_nodes_are_zero() {
    let t0 = [Vec3Bits::new(0, 11, 0), Vec3Bits::new(0, 12, 0), Vec3Bits::new(0, 13, 0)];
    let t1 = [Vec3Bits::new(0, 21, 0), Vec3Bits::new(0, 22, 0), Vec3Bits::new(0, 23, 0)];
    let mesh = StlMesh { triangles: vec![t0, t1], normals: vec![Vec3Bits::zero(); 2] };
    let cells = vec![[(0, 0), (1, 0), (0, 1)], [(1, 0), (2, 0), (0, 1)]];
    let terrain = Terrain::from_cells(&mesh, &cells, &axis()).unwrap();
    assert_eq!(terrain.heights[0], 11);
    assert_eq!(terrain.heights[1], 21);
    assert_eq!(terrain.heights[2], 22);
    assert_eq!(terrain.heights[81], 23);
    assert_eq!(terrain.heights[3], 0);
    assert_eq!(terrain.indices, vec![[0, 1, 81], [1, 2, 81]]);
    assert_eq!(terrain.vertices[81], Vec3Bits::new(axis()[0], 23, axis()[1]));
}

#[test]
fn soup_buffers_number_corners() {
    let tri = [Vec3Bits::new(1, 2, 3), Vec3Bits::new(4, 5, 6), Vec3Bits::new(7, 8, 9)];
    let mesh = StlMesh { triangles: vec![tri, tri], normals: vec![Vec3Bits::zero(); 2] };
    let (vertices, indices) = mesh.soup_buffers();
    assert_eq!(vertices, vec![tri[0], tri[1], tri[2], tri[0], tri[1], tri[2]]);
    assert_eq!(indices, vec![[0, 1, 2], [3, 4, 5]]);
}

#[test]
fn hash2_known_values() {
    assert_eq!(hash2_u24(0, 0), 0);
    assert_eq!(hash2_u24(1, 0), 14022586);
    assert_eq!(hash2_u24(0, 1), 891830);
    assert_eq!(hash2_u24(-1, -1), 2414735);
    assert_eq!(hash2_u24(12, -7), 15629115);
}
