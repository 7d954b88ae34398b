use vstd::prelude::*;
use crate::vector::{RealBits, Vec3Bits};
use crate::stl::{StlMesh, stl_check, stl_image, mesh_read_from, lemma_stl_decode_encode, lemma_stl_roundtrip};

verus! {

/// Number of grid cells along one side of the square map.
pub const GRID_RES: usize = 80;
/// Number of grid nodes along one side (`GRID_RES + 1`).
pub const GRID_NODES: usize = 81;
/// Number of grid nodes in all (`GRID_NODES * GRID_NODES`).
pub const NODE_COUNT: usize = 6561;

/// Index of the node in column `i` (along X) and row `j` (along Z).
pub open spec fn node_index(i: int, j: int) -> int {
    j * 81 + i
}

/// A pair of grid coordinates names a node of the grid.
pub open spec fn in_grid(c: (i32, i32)) -> bool {
    0 <= c.0 < 81 && 0 <= c.1 < 81
}

/// The node that a pair of grid coordinates names.
pub open spec fn cell_node(c: (i32, i32)) -> int {
    node_index(c.0 as int, c.1 as int)
}

/// The two triangles of cell `(i, j)` stand at `2 * (j * GRID_RES + i)` and the
/// next index, as `(a, c, b)` and `(b, c, d)` where `a`, `b` are the cell's
/// corners on row `j` and `c`, `d` those on row `j + 1`.
pub open spec fn grid_cell_ok(idx: Seq<[u32; 3]>, i: int, j: int) -> bool {
    let t = 2 * (j * 80 + i);
    let a = node_index(i, j);
    let b = node_index(i + 1, j);
    let c = node_index(i, j + 1);
    let d = node_index(i + 1, j + 1);
    &&& idx[t][0] == a
    &&& idx[t][1] == c
    &&& idx[t][2] == b
    &&& idx[t + 1][0] == b
    &&& idx[t + 1][1] == c
    &&& idx[t + 1][2] == d
}

/// `idx` is the triangle list of the regular grid, cell by cell, row by row.
pub open spec fn is_grid_topology(idx: Seq<[u32; 3]>) -> bool {
    &&& idx.len() == 12800
    &&& forall|i: int, j: int| 0 <= i < 80 && 0 <= j < 80 ==> #[trigger] grid_cell_ok(idx, i, j)
}

/// `v` lists the grid's vertices row by row: node `(i, j)` sits at
/// `(axis[i], h[node], axis[j])`.
pub open spec fn grid_vertices_ok(v: Seq<Vec3Bits>, h: Seq<RealBits>, axis: Seq<RealBits>) -> bool {
    &&& v.len() == 6561
    &&& forall|i: int, j: int|
        0 <= i < 81 && 0 <= j < 81 ==> #[trigger] v[node_index(i, j)] == (Vec3Bits {
            x: axis[i],
            y: h[node_index(i, j)],
            z: axis[j],
        })
}

/// Every triangle corner is a node of the grid.
pub open spec fn indices_in_grid(idx: Seq<[u32; 3]>) -> bool {
    forall|t: int, s: int| 0 <= t < idx.len() && 0 <= s < 3 ==> #[trigger] idx[t][s] < 6561
}

/// Height field: a grid of heights with its vertices and a triangle list.
pub struct Terrain {
    /// Heights at the grid nodes, node `(i, j)` at `j * GRID_NODES + i`.
    pub heights: Vec<RealBits>,
    /// Mesh vertices, one per node, in the order of `heights`.
    pub vertices: Vec<Vec3Bits>,
    /// Triangle corners as vertex numbers.
    pub indices: Vec<[u32; 3]>,
}

impl Terrain {
    /// One height per node, one vertex per node carrying that height, and
    /// every triangle corner a node.
    pub open spec fn wf(&self) -> bool {
        &&& self.heights.len() == 6561
        &&& self.vertices.len() == 6561
        &&& forall|k: int| 0 <= k < 6561 ==> #[trigger] self.vertices@[k].y == self.heights@[k]
        &&& indices_in_grid(self.indices@)
    }
}

/// The triangle list of the grid: two triangles per cell, cells row by row.
pub fn grid_triangles() -> (out: Vec<[u32; 3]>)
    ensures
        is_grid_topology(out@),
        indices_in_grid(out@),
{
    let mut out: Vec<[u32; 3]> = Vec::new();
    let n: usize = GRID_NODES;
    let mut j: usize = 0;
    while j < GRID_RES
        invariant
            n == 81,
            j <= 80,
            out.len() == 2 * (j * 80),
            forall|i2: int, j2: int| 0 <= i2 < 80 && 0 <= j2 < j ==> #[trigger] grid_cell_ok(out@, i2, j2),
            indices_in_grid(out@),
        decreases 80 - j,
    {
        let mut i: usize = 0;
        while i < GRID_RES
            invariant
                n == 81,
                j < 80,
                i <= 80,
                out.len() == 2 * (j * 80 + i),
                forall|i2: int, j2: int|
                    0 <= i2 < 80 && 0 <= j2 < 80 && (j2 < j || (j2 == j && i2 < i))
                        ==> #[trigger] grid_cell_ok(out@, i2, j2),
                indices_in_grid(out@),
            decreases 80 - i,
        {
            let a = j * n + i;
            let b = j * n + i + 1;
            let c = (j + 1) * n + i;
            let d = (j + 1) * n + i + 1;
            let ghost before = out@;
            out.push([a as u32, c as u32, b as u32]);
            out.push([b as u32, c as u32, d as u32]);
            assert forall|i2: int, j2: int|
                0 <= i2 < 80 && 0 <= j2 < 80 && (j2 < j || (j2 == j && i2 < i + 1))
                    implies #[trigger] grid_cell_ok(out@, i2, j2) by {
                if j2 < j || (j2 == j && i2 < i) {
                    assert(grid_cell_ok(before, i2, j2));
                    assert(2 * (j2 * 80 + i2) + 1 < before.len());
                }
            }
            i = i + 1;
        }
        j = j + 1;
    }
    out
}

/// Why a mesh cannot be laid back onto the grid.
#[derive(Clone, Copy, Debug, PartialEq, Eq, Structural)]
pub enum GridError {
    /// A vertex, given by its `x` and `z` bits, falls outside the grid.
    OutsideGrid { x: RealBits, z: RealBits },
}

/// All corners of all triangles name grid nodes.
pub open spec fn all_in_grid(cells: Seq<[(i32, i32); 3]>) -> bool {
    forall|t: int, s: int| 0 <= t < cells.len() && 0 <= s < 3 ==> in_grid(#[trigger] cells[t][s])
}

/// `e` reports the first corner, in file order, that lies outside the grid.
pub open spec fn first_outside(
    tris: Seq<[Vec3Bits; 3]>,
    cells: Seq<[(i32, i32); 3]>,
    e: GridError,
) -> bool {
    exists|t: int, s: int|
        #![trigger cells[t][s]]
        0 <= t < cells.len() && 0 <= s < 3 && !in_grid(cells[t][s]) && (forall|t2: int, s2: int|
            0 <= t2 < t && 0 <= s2 < 3 ==> in_grid(#[trigger] cells[t2][s2])) && (forall|s2: int|
            0 <= s2 < s ==> in_grid(#[trigger] cells[t][s2])) && e == (GridError::OutsideGrid {
            x: tris[t][s].x,
            z: tris[t][s].z,
        })
}

/// Heights after writing the corners of the first `t` triangles into `h`,
/// each corner's height into its node, later writes winning.
pub open spec fn fill_heights(
    h: Seq<RealBits>,
    tris: Seq<[Vec3Bits; 3]>,
    cells: Seq<[(i32, i32); 3]>,
    t: nat,
) -> Seq<RealBits>
    decreases t,
{
    if t == 0 {
        h
    } else {
        let prev = fill_heights(h, tris, cells, (t - 1) as nat);
        let c = cells[t - 1];
        let p = tris[t - 1];
        prev.update(cell_node(c[0]), p[0].y).update(cell_node(c[1]), p[1].y).update(
            cell_node(c[2]),
            p[2].y,
        )
    }
}

/// The heights that a mesh leaves on the grid: all nodes start at `+0.0`.
pub open spec fn restored_heights(tris: Seq<[Vec3Bits; 3]>, cells: Seq<[(i32, i32); 3]>) -> Seq<
    RealBits,
> {
    fill_heights(Seq::new(6561, |k: int| 0u32), tris, cells, tris.len())
}

/// Each triangle's corners are the nodes that its cells name.
pub open spec fn indices_from_cells(idx: Seq<[u32; 3]>, cells: Seq<[(i32, i32); 3]>) -> bool {
    &&& idx.len() == cells.len()
    &&& forall|t: int, s: int|
        0 <= t < cells.len() && 0 <= s < 3 ==> #[trigger] idx[t][s] == cell_node(cells[t][s])
}

/// `tris` lists, for each triangle of `idx`, the vertices that it names.
pub open spec fn triangles_of(
    tris: Seq<[Vec3Bits; 3]>,
    vertices: Seq<Vec3Bits>,
    idx: Seq<[u32; 3]>,
) -> bool {
    &&& tris.len() == idx.len()
    &&& forall|t: int, s: int|
        0 <= t < idx.len() && 0 <= s < 3 ==> #[trigger] tris[t][s] == vertices[idx[t][s] as int]
}

fn grid_vertices(heights: &Vec<RealBits>, axis: &Vec<RealBits>) -> (v: Vec<Vec3Bits>)
    requires
        heights.len() == 6561,
        axis.len() == 81,
    ensures
        grid_vertices_ok(v@, heights@, axis@),
{
    let mut v: Vec<Vec3Bits> = Vec::new();
    let n: usize = GRID_NODES;
    let mut j: usize = 0;
    while j < n
        invariant
            n == 81,
            heights.len() == 6561,
            axis.len() == 81,
            j <= 81,
            v.len() == j * 81,
            forall|i2: int, j2: int|
                0 <= i2 < 81 && 0 <= j2 < j ==> #[trigger] v@[node_index(i2, j2)] == (Vec3Bits {
                    x: axis@[i2],
                    y: heights@[node_index(i2, j2)],
                    z: axis@[j2],
                }),
        decreases 81 - j,
    {
        let mut i: usize = 0;
        while i < n
            invariant
                n == 81,
                heights.len() == 6561,
                axis.len() == 81,
                j < 81,
                i <= 81,
                v.len() == j * 81 + i,
                forall|i2: int, j2: int|
                    0 <= i2 < 81 && 0 <= j2 < 81 && (j2 < j || (j2 == j && i2 < i))
                        ==> #[trigger] v@[node_index(i2, j2)] == (Vec3Bits {
                        x: axis@[i2],
                        y: heights@[node_index(i2, j2)],
                        z: axis@[j2],
                    }),
            decreases 81 - i,
        {
            v.push(Vec3Bits { x: axis[i], y: heights[j * n + i], z: axis[j] });
            i = i + 1;
        }
        j = j + 1;
    }
    v
}

proof fn lemma_node_split(k: int)
    requires
        0 <= k < 6561,
    ensures
        0 <= k % 81 < 81,
        0 <= k / 81 < 81,
        k == node_index(k % 81, k / 81),
{
    assert(k == 81 * (k / 81) + k % 81 && 0 <= k % 81 < 81 && 0 <= k / 81 < 81) by (nonlinear_arith)
        requires
            0 <= k < 6561,
    ;
}

proof fn lemma_grid_vertices_wf(v: Seq<Vec3Bits>, h: Seq<RealBits>, axis: Seq<RealBits>)
    requires
        grid_vertices_ok(v, h, axis),
    ensures
        forall|k: int| 0 <= k < 6561 ==> #[trigger] v[k].y == h[k],
{
    assert forall|k: int| 0 <= k < 6561 implies #[trigger] v[k].y == h[k] by {
        lemma_node_split(k);
        assert(v[node_index(k % 81, k / 81)].y == h[node_index(k % 81, k / 81)]);
    }
}

impl Terrain {
    /// Lays heights onto the grid: the vertex of node `(i, j)` is
    /// `(axis[i], heights[node], axis[j])`, and the triangles are those of
    /// `grid_triangles`.
    pub fn from_heights(heights: Vec<RealBits>, axis: &Vec<RealBits>) -> (t: Terrain)
        requires
            heights.len() == 6561,
            axis.len() == 81,
        ensures
            t.wf(),
            t.heights@ == heights@,
            grid_vertices_ok(t.vertices@, t.heights@, axis@),
            is_grid_topology(t.indices@),
    {
        let vertices = grid_vertices(&heights, axis);
        let indices = grid_triangles();
        proof {
            lemma_grid_vertices_wf(vertices@, heights@, axis@);
        }
        Terrain { heights, vertices, indices }
    }

    /// The three vertices of each triangle, in triangle order.
    pub fn triangle_vertices(&self) -> (tris: Vec<[Vec3Bits; 3]>)
        requires
            forall|t: int, s: int|
                0 <= t < self.indices@.len() && 0 <= s < 3 ==> #[trigger] self.indices@[t][s]
                    < self.vertices@.len(),
        ensures
            triangles_of(tris@, self.vertices@, self.indices@),
    {
        let mut tris: Vec<[Vec3Bits; 3]> = Vec::new();
        let mut t: usize = 0;
        while t < self.indices.len()
            invariant
                forall|t2: int, s: int|
                    0 <= t2 < self.indices@.len() && 0 <= s < 3 ==> #[trigger] self.indices@[t2][s]
                        < self.vertices@.len(),
                t <= self.indices.len(),
                tris.len() == t,
                forall|t2: int, s: int|
                    0 <= t2 < t && 0 <= s < 3 ==> #[trigger] tris@[t2][s]
                        == self.vertices@[self.indices@[t2][s] as int],
            decreases self.indices.len() - t,
        {
            let tri = self.indices[t];
            assert(tri[0] < self.vertices.len() && tri[1] < self.vertices.len() && tri[2]
                < self.vertices.len()) by {
                assert(self.indices@[t as int][0] < self.vertices@.len());
                assert(self.indices@[t as int][1] < self.vertices@.len());
                assert(self.indices@[t as int][2] < self.vertices@.len());
            }
            let a = self.vertices[tri[0] as usize];
            let b = self.vertices[tri[1] as usize];
            let c = self.vertices[tri[2] as usize];
            tris.push([a, b, c]);
            t = t + 1;
        }
        tris
    }

    /// The heights at the four corners of the cell whose lower corner is node
    /// `(i, j)`, as `(h(i, j), h(i1, j), h(i, j1), h(i1, j1))` with
    /// `i1 = min(i + 1, GRID_RES)` and `j1 = min(j + 1, GRID_RES)`, so that
    /// the last row and column fold onto themselves.
    pub fn corner_heights(&self, i: usize, j: usize) -> (h: (RealBits, RealBits, RealBits, RealBits))
        requires
            self.heights.len() == 6561,
            i <= 80,
            j <= 80,
        ensures
            ({
                let i1 = if i < 80 { i + 1 } else { 80 };
                let j1 = if j < 80 { j + 1 } else { 80 };
                &&& h.0 == self.heights@[node_index(i as int, j as int)]
                &&& h.1 == self.heights@[node_index(i1 as int, j as int)]
                &&& h.2 == self.heights@[node_index(i as int, j1 as int)]
                &&& h.3 == self.heights@[node_index(i1 as int, j1 as int)]
            }),
    {
        let i1 = if i + 1 < GRID_RES { i + 1 } else { GRID_RES };
        let j1 = if j + 1 < GRID_RES { j + 1 } else { GRID_RES };
        let n = GRID_NODES;
        (self.heights[j * n + i], self.heights[j * n + i1], self.heights[j1 * n + i], self.heights[j1
            * n + i1])
    }

    /// Lays a mesh back onto the grid. `cells[t][s]` holds the grid
    /// coordinates of corner `s` of triangle `t`. Fails on the first corner
    /// (in file order) outside the grid; otherwise each corner's height is
    /// written into its node (nodes no corner names stay `+0.0`, later
    /// corners win), vertices are rebuilt from the heights and `axis`, and
    /// each triangle keeps its winding with corners renumbered by node.
    pub fn from_cells(mesh: &StlMesh, cells: &Vec<[(i32, i32); 3]>, axis: &Vec<RealBits>) -> (r:
        Result<Terrain, GridError>)
        requires
            cells.len() == mesh.triangles.len(),
            axis.len() == 81,
        ensures
            match r {
                Ok(t) => {
                    &&& all_in_grid(cells@)
                    &&& t.wf()
                    &&& t.heights@ == restored_heights(mesh.triangles@, cells@)
                    &&& grid_vertices_ok(t.vertices@, t.heights@, axis@)
                    &&& indices_from_cells(t.indices@, cells@)
                },
                Err(e) => first_outside(mesh.triangles@, cells@, e),
            },
    {
        let n: usize = GRID_NODES;
        let mut heights: Vec<RealBits> = Vec::new();
        let mut k: usize = 0;
        while k < NODE_COUNT
            invariant
                k <= 6561,
                heights@ =~= Seq::new(k as nat, |q: int| 0u32),
            decreases 6561 - k,
        {
            heights.push(0u32);
            k = k + 1;
        }
        let count = mesh.triangles.len();
        let ghost tris = mesh.triangles@;
        let mut t: usize = 0;
        while t < count
            invariant
                n == 81,
                count == cells.len(),
                count == tris.len(),
                tris == mesh.triangles@,
                t <= count,
                heights@ == fill_heights(Seq::new(6561, |q: int| 0u32), tris, cells@, t as nat),
                heights.len() == 6561,
                forall|t2: int, s2: int| 0 <= t2 < t && 0 <= s2 < 3 ==> in_grid(#[trigger] cells@[t2][s2]),
            decreases count - t,
        {
            let tri = mesh.triangles[t];
            let c = cells[t];
            let mut s: usize = 0;
            while s < 3
                invariant
                    n == 81,
                    count == cells.len(),
                    count == tris.len(),
                    tris == mesh.triangles@,
                    t < count,
                    c == cells@[t as int],
                    tri == tris[t as int],
                    s <= 3,
                    heights.len() == 6561,
                    forall|t2: int, s2: int| 0 <= t2 < t && 0 <= s2 < 3 ==> in_grid(#[trigger] cells@[t2][s2]),
                    forall|s2: int| 0 <= s2 < s ==> in_grid(#[trigger] c[s2]),
                    heights@ == ({
                        let prev = fill_heights(Seq::new(6561, |q: int| 0u32), tris, cells@, t as nat);
                        if s == 0 {
                            prev
                        } else if s == 1 {
                            prev.update(cell_node(c[0]), tri[0].y)
                        } else if s == 2 {
                            prev.update(cell_node(c[0]), tri[0].y).update(cell_node(c[1]), tri[1].y)
                        } else {
                            prev.update(cell_node(c[0]), tri[0].y).update(cell_node(c[1]), tri[1].y).update(
                                cell_node(c[2]),
                                tri[2].y,
                            )
                        }
                    }),
                decreases 3 - s,
            {
                let (gi, gj) = c[s];
                if gi < 0 || gi >= 81 || gj < 0 || gj >= 81 {
                    proof {
                        assert(cells@[t as int][s as int] == c[s as int]);
                        assert forall|s2: int| 0 <= s2 < s implies in_grid(#[trigger] cells@[t as int][s2]) by {
                            assert(cells@[t as int][s2] == c[s2]);
                        }
                    }
                    return Err(GridError::OutsideGrid { x: tri[s].x, z: tri[s].z });
                }
                let node = (gj as usize) * n + (gi as usize);
                heights[node] = tri[s].y;
                s = s + 1;
            }
            proof {
                assert forall|t2: int, s2: int| 0 <= t2 < t + 1 && 0 <= s2 < 3 implies in_grid(
                    #[trigger] cells@[t2][s2],
                ) by {
                    if t2 == t {
                        assert(in_grid(c[s2]));
                    }
                }
            }
            t = t + 1;
        }
        let vertices = grid_vertices(&heights, axis);
        let mut indices: Vec<[u32; 3]> = Vec::new();
        let mut t: usize = 0;
        while t < count
            invariant
                n == 81,
                count == cells.len(),
                t <= count,
                all_in_grid(cells@),
                indices.len() == t,
                forall|t2: int, s2: int|
                    0 <= t2 < t && 0 <= s2 < 3 ==> #[trigger] indices@[t2][s2] == cell_node(
                        cells@[t2][s2],
                    ),
            decreases count - t,
        {
            let c = cells[t];
            assert(in_grid(cells@[t as int][0]) && in_grid(cells@[t as int][1]) && in_grid(
                cells@[t as int][2],
            ));
            let n0 = (c[0].1 as usize) * n + (c[0].0 as usize);
            let n1 = (c[1].1 as usize) * n + (c[1].0 as usize);
            let n2 = (c[2].1 as usize) * n + (c[2].0 as usize);
            indices.push([n0 as u32, n1 as u32, n2 as u32]);
            t = t + 1;
        }
        proof {
            lemma_grid_vertices_wf(vertices@, heights@, axis@);
            assert forall|t2: int, s2: int|
                0 <= t2 < indices@.len() && 0 <= s2 < 3 implies #[trigger] indices@[t2][s2] < 6561 by {
                assert(in_grid(cells@[t2][s2]));
            }
        }
        Ok(Terrain { heights, vertices, indices })
    }
}

// ---------------------------------------------------------------- laws

/// Some corner among the first `t` triangles names node `k`.
pub open spec fn node_covered(cells: Seq<[(i32, i32); 3]>, t: int, k: int) -> bool {
    exists|t2: int, s: int| 0 <= t2 < t && 0 <= s < 3 && #[trigger] cell_node(cells[t2][s]) == k
}

proof fn lemma_fill_consistent(
    h0: Seq<RealBits>,
    heights: Seq<RealBits>,
    tris: Seq<[Vec3Bits; 3]>,
    cells: Seq<[(i32, i32); 3]>,
    t: nat,
)
    requires
        h0.len() == 6561,
        heights.len() == 6561,
        t <= tris.len(),
        t <= cells.len(),
        forall|t2: int, s: int| 0 <= t2 < t && 0 <= s < 3 ==> in_grid(#[trigger] cells[t2][s]),
        forall|t2: int, s: int|
            0 <= t2 < t && 0 <= s < 3 ==> #[trigger] tris[t2][s].y == heights[cell_node(
                cells[t2][s],
            )],
    ensures
        fill_heights(h0, tris, cells, t).len() == 6561,
        forall|k: int|
            0 <= k < 6561 ==> #[trigger] fill_heights(h0, tris, cells, t)[k] == if node_covered(
                cells,
                t as int,
                k,
            ) {
                heights[k]
            } else {
                h0[k]
            },
    decreases t,
{
    if t > 0 {
        let tp = (t - 1) as nat;
        lemma_fill_consistent(h0, heights, tris, cells, tp);
        let c = cells[t - 1];
        let p = tris[t - 1];
        assert(in_grid(cells[t - 1][0]) && in_grid(cells[t - 1][1]) && in_grid(cells[t - 1][2]));
        assert(p[0].y == heights[cell_node(c[0])]);
        assert(p[1].y == heights[cell_node(c[1])]);
        assert(p[2].y == heights[cell_node(c[2])]);
        assert forall|k: int| 0 <= k < 6561 implies #[trigger] fill_heights(h0, tris, cells, t)[k]
            == if node_covered(cells, t as int, k) {
            heights[k]
        } else {
            h0[k]
        } by {
            if k == cell_node(c[0]) || k == cell_node(c[1]) || k == cell_node(c[2]) {
                if k == cell_node(c[0]) {
                    assert(cell_node(cells[t - 1][0]) == k);
                } else if k == cell_node(c[1]) {
                    assert(cell_node(cells[t - 1][1]) == k);
                } else {
                    assert(cell_node(cells[t - 1][2]) == k);
                }
                assert(node_covered(cells, t as int, k));
            } else {
                if node_covered(cells, tp as int, k) {
                    let (t2, s2) = choose|t2: int, s2: int|
                        0 <= t2 < tp && 0 <= s2 < 3 && #[trigger] cell_node(cells[t2][s2]) == k;
                    assert(node_covered(cells, t as int, k));
                }
                if node_covered(cells, t as int, k) {
                    let (t2, s2) = choose|t2: int, s2: int|
                        0 <= t2 < t && 0 <= s2 < 3 && #[trigger] cell_node(cells[t2][s2]) == k;
                    assert(t2 < tp);
                    assert(node_covered(cells, tp as int, k));
                }
            }
        }
    }
}

proof fn lemma_grid_covers(idx: Seq<[u32; 3]>, cells: Seq<[(i32, i32); 3]>)
    requires
        is_grid_topology(idx),
        cells.len() == idx.len(),
        forall|t: int, s: int|
            0 <= t < idx.len() && 0 <= s < 3 ==> #[trigger] cell_node(cells[t][s]) == idx[t][s],
    ensures
        forall|k: int| 0 <= k < 6561 ==> #[trigger] node_covered(cells, 12800, k),
{
    assert forall|k: int| 0 <= k < 6561 implies #[trigger] node_covered(cells, 12800, k) by {
        lemma_node_split(k);
        let i = k % 81;
        let j = k / 81;
        let ci = if i < 80 { i } else { 79 };
        let cj = if j < 80 { j } else { 79 };
        assert(grid_cell_ok(idx, ci, cj));
        let t = 2 * (cj * 80 + ci);
        if i < 80 && j < 80 {
            assert(cell_node(cells[t][0]) == k);
        } else if i == 80 && j < 80 {
            assert(cell_node(cells[t][2]) == k);
        } else if i < 80 && j == 80 {
            assert(cell_node(cells[t][1]) == k);
        } else {
            assert(cell_node(cells[t + 1][2]) == k);
        }
    }
}

proof fn lemma_grid_vertices_unique(
    v1: Seq<Vec3Bits>,
    v2: Seq<Vec3Bits>,
    h: Seq<RealBits>,
    axis: Seq<RealBits>,
)
    requires
        grid_vertices_ok(v1, h, axis),
        grid_vertices_ok(v2, h, axis),
    ensures
        v1 == v2,
{
    assert forall|k: int| 0 <= k < 6561 implies v1[k] == v2[k] by {
        lemma_node_split(k);
        assert(v1[node_index(k % 81, k / 81)] == v2[node_index(k % 81, k / 81)]);
    }
    assert(v1 =~= v2);
}

/// Laying a grid mesh back onto the grid restores it: when each triangle of a
/// terrain built by `from_heights` is given by its vertices and each corner's
/// grid coordinates name the node it came from, every corner is on the grid,
/// the restored heights, vertices and triangle list equal the ones laid out.
pub proof fn lemma_terrain_restore(
    heights: Seq<RealBits>,
    axis: Seq<RealBits>,
    vertices: Seq<Vec3Bits>,
    idx: Seq<[u32; 3]>,
    tris: Seq<[Vec3Bits; 3]>,
    cells: Seq<[(i32, i32); 3]>,
    restored_vertices: Seq<Vec3Bits>,
    restored_idx: Seq<[u32; 3]>,
)
    requires
        heights.len() == 6561,
        grid_vertices_ok(vertices, heights, axis),
        is_grid_topology(idx),
        triangles_of(tris, vertices, idx),
        cells.len() == tris.len(),
        forall|t: int, s: int|
            0 <= t < cells.len() && 0 <= s < 3 ==> in_grid(#[trigger] cells[t][s]) && cell_node(
                cells[t][s],
            ) == idx[t][s],
        grid_vertices_ok(restored_vertices, restored_heights(tris, cells), axis),
        indices_from_cells(restored_idx, cells),
    ensures
        all_in_grid(cells),
        restored_heights(tris, cells) == heights,
        restored_vertices == vertices,
        restored_idx == idx,
{
    let h0 = Seq::new(6561, |k: int| 0u32);
    assert forall|t: int, s: int| 0 <= t < cells.len() && 0 <= s < 3 implies #[trigger] cell_node(
        cells[t][s],
    ) == idx[t][s] by {
        assert(in_grid(cells[t][s]));
    }
    assert forall|t2: int, s: int| 0 <= t2 < tris.len() && 0 <= s < 3 implies #[trigger] tris[t2][s].y
        == heights[cell_node(cells[t2][s])] by {
        assert(in_grid(cells[t2][s]));
        assert(tris[t2][s] == vertices[idx[t2][s] as int]);
        let k = idx[t2][s] as int;
        lemma_node_split(k);
        assert(vertices[node_index(k % 81, k / 81)].y == heights[node_index(k % 81, k / 81)]);
    }
    lemma_fill_consistent(h0, heights, tris, cells, tris.len());
    lemma_grid_covers(idx, cells);
    assert(restored_heights(tris, cells) =~= heights) by {
        assert forall|k: int| 0 <= k < 6561 implies restored_heights(tris, cells)[k] == heights[k] by {
            assert(node_covered(cells, 12800, k));
            assert(fill_heights(h0, tris, cells, tris.len())[k] == heights[k]);
        }
    }
    lemma_grid_vertices_unique(restored_vertices, vertices, heights, axis);
    assert forall|t: int| 0 <= t < idx.len() implies restored_idx[t] == idx[t] by {
        assert(restored_idx[t][0] == idx[t][0]);
        assert(restored_idx[t][1] == idx[t][1]);
        assert(restored_idx[t][2] == idx[t][2]);
        assert(restored_idx[t] =~= idx[t]);
    }
    assert(restored_idx =~= idx);
}

/// Writing a terrain built by `from_heights` to STL, reading the image back and
/// laying the mesh onto the grid gives the terrain back: the image is
/// readable, the mesh read is the mesh written, and the restored heights,
/// vertices and triangles are those of the terrain written (given each corner's grid
/// coordinates name the node it came from).
pub proof fn lemma_terrain_stl_roundtrip(
    heights: Seq<RealBits>,
    axis: Seq<RealBits>,
    vertices: Seq<Vec3Bits>,
    idx: Seq<[u32; 3]>,
    tris: Seq<[Vec3Bits; 3]>,
    normals: Seq<Vec3Bits>,
    read_tris: Seq<[Vec3Bits; 3]>,
    read_normals: Seq<Vec3Bits>,
    cells: Seq<[(i32, i32); 3]>,
    restored_heights_seq: Seq<RealBits>,
    restored_vertices: Seq<Vec3Bits>,
    restored_idx: Seq<[u32; 3]>,
)
    requires
        heights.len() == 6561,
        grid_vertices_ok(vertices, heights, axis),
        is_grid_topology(idx),
        triangles_of(tris, vertices, idx),
        normals.len() == tris.len(),
        mesh_read_from(stl_image(tris, normals), read_tris, read_normals),
        cells.len() == read_tris.len(),
        forall|t: int, s: int|
            0 <= t < cells.len() && 0 <= s < 3 ==> in_grid(#[trigger] cells[t][s]) && cell_node(
                cells[t][s],
            ) == idx[t][s],
        restored_heights_seq == restored_heights(read_tris, cells),
        grid_vertices_ok(restored_vertices, restored_heights_seq, axis),
        indices_from_cells(restored_idx, cells),
    ensures
        stl_check(stl_image(tris, normals)) is None,
        read_tris == tris,
        read_normals == normals,
        all_in_grid(cells),
        restored_heights_seq == heights,
        restored_vertices == vertices,
        restored_idx == idx,
{
    lemma_stl_roundtrip(tris, normals);
    lemma_stl_decode_encode(tris, normals, read_tris, read_normals);
    lemma_terrain_restore(heights, axis, vertices, idx, tris, cells, restored_vertices, restored_idx);
}

} // verus!
