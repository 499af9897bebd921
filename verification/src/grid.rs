use vstd::prelude::*;
use vstd::arithmetic::div_mod::lemma_fundamental_div_mod_converse;
use vstd::arithmetic::mul::lemma_mul_inequality;
use crate::error::MeshError;
use crate::layout::Layout;
use crate::mesh::Mesh;
use crate::vector::{Vector2, Vector3, ONE, ZERO};
use crate::vertex::{filled_to, interleaved, lemma_filled_all, lemma_filled_step, Vertex, VertexAttributes};

verus! {

/// A rectangle in the plane z = 0, subdivided into a grid of vertices.
pub struct Grid {
    pub layout: Layout,
    pub top_left: Vector2,
    pub size: Vector2,
    pub n_vertices_width: u32,
    pub n_vertices_height: u32,
    pub uv_min: Vector2,
    pub uv_max: Vector2,
    pub normal: Vector3,
    pub position_attribute: String,
    pub texcoord_attribute: String,
    pub normal_attribute: String,
}

/// The coordinates of a grid's columns and rows.
///
/// Column `i` of a grid that is `w` vertices wide lies at
/// `x[i] = top_left.x + size.x * (i / (w - 1))` and has the texture
/// coordinate `u[i] = uv_min.x + (uv_max.x - uv_min.x) * (i / (w - 1))`;
/// rows go the same way with `y`, `v` and the height. The caller evaluates
/// these in single precision arithmetic and hands the bit patterns over.
pub struct GridSamples {
    pub x: Vec<u32>,
    pub y: Vec<u32>,
    pub u: Vec<u32>,
    pub v: Vec<u32>,
}

/// Entry `e` of the index buffer of a grid that is `w` vertices wide.
///
/// Cells are numbered row by row. The cell whose top left vertex is `t`
/// gives the triangles `t, t + w, t + 1` and `t + 1, t + w, t + w + 1`.
pub open spec fn grid_element(w: int, e: int) -> int {
    let cell = e / 6;
    let corner = e % 6;
    let t = cell % (w - 1) + (cell / (w - 1)) * w;
    if corner == 0 {
        t
    } else if corner == 1 || corner == 4 {
        t + w
    } else if corner == 2 || corner == 3 {
        t + 1
    } else {
        t + w + 1
    }
}

impl Grid {
    /// The number of vertices.
    pub open spec fn vertex_total(&self) -> int {
        self.n_vertices_width * self.n_vertices_height
    }

    /// The number of cells, each of which gives two triangles.
    pub open spec fn cell_total(&self) -> int {
        (self.n_vertices_width - 1) * (self.n_vertices_height - 1)
    }

    /// The attributes that the grid fills in, as its layout has them.
    pub open spec fn attributes(&self) -> VertexAttributes {
        VertexAttributes {
            position: self.layout.attribute(self.position_attribute@),
            texcoord: self.layout.attribute(self.texcoord_attribute@),
            normal: self.layout.attribute(self.normal_attribute@),
        }
    }

    /// There is one sample for each column and each row.
    pub open spec fn fits(&self, samples: GridSamples) -> bool {
        &&& samples.x@.len() == self.n_vertices_width
        &&& samples.u@.len() == self.n_vertices_width
        &&& samples.y@.len() == self.n_vertices_height
        &&& samples.v@.len() == self.n_vertices_height
    }

    /// Why the grid cannot be turned into a mesh, if it cannot.
    pub open spec fn error(&self, samples: GridSamples) -> Option<MeshError> {
        if !self.fits(samples) {
            Some(MeshError::IndexOutOfBounds)
        } else {
            self.attributes().error(self.layout.stride as int)
        }
    }

    /// Vertex `i`, counted row by row: the one in column
    /// `i % n_vertices_width` and row `i / n_vertices_width`.
    pub open spec fn vertex(&self, samples: GridSamples, i: int) -> Vertex {
        let x = i % self.n_vertices_width as int;
        let y = i / self.n_vertices_width as int;
        Vertex {
            position: Vector3 { x: samples.x@[x], y: samples.y@[y], z: ZERO },
            texcoord: Vector2 { x: samples.u@[x], y: samples.v@[y] },
            normal: self.normal,
        }
    }

    /// The vertex buffer: the records of the vertices row by row.
    pub open spec fn vertices(&self, samples: GridSamples) -> Seq<u32> {
        interleaved(
            self.attributes(),
            self.layout.stride as int,
            self.vertex_total(),
            |i: int| self.vertex(samples, i),
        )
    }

    /// The index buffer: six entries for each cell.
    pub open spec fn elements(&self) -> Seq<u32> {
        Seq::new(
            (self.cell_total() * 6) as nat,
            |e: int| grid_element(self.n_vertices_width as int, e) as u32,
        )
    }

    /// What the conversion of the grid yields: the mesh with the grid's
    /// layout, vertices and triangles where nothing is wrong, and the
    /// error where something is.
    pub open spec fn makes(&self, samples: GridSamples, made: Result<Mesh, MeshError>) -> bool {
        match made {
            Ok(mesh) => {
                &&& self.error(samples) is None
                &&& mesh.layout == self.layout
                &&& mesh.vertex_data@ == self.vertices(samples)
                &&& mesh.element_data@ == self.elements()
            },
            Err(e) => self.error(samples) == Some(e),
        }
    }

    /// The unit square with a vertex at each corner, texture coordinates
    /// from 0 to 1, the normal along +z, and the layout of position,
    /// texture coordinate and normal under their usual names.
    pub fn new() -> (grid: Grid)
        ensures
            grid.layout.well_formed(),
            grid.layout.stride == 8,
            grid.layout.attributes@.len() == 3,
            grid.layout.attributes@[0].name@ == "position"@,
            grid.layout.attributes@[0].offset == 0,
            grid.layout.attributes@[0].size == 3,
            grid.layout.attributes@[1].name@ == "texcoord"@,
            grid.layout.attributes@[1].offset == 3,
            grid.layout.attributes@[1].size == 2,
            grid.layout.attributes@[2].name@ == "normal"@,
            grid.layout.attributes@[2].offset == 5,
            grid.layout.attributes@[2].size == 3,
            grid.top_left == (Vector2 { x: ZERO, y: ZERO }),
            grid.size == (Vector2 { x: ONE, y: ONE }),
            grid.n_vertices_width == 2,
            grid.n_vertices_height == 2,
            grid.uv_min == (Vector2 { x: ZERO, y: ZERO }),
            grid.uv_max == (Vector2 { x: ONE, y: ONE }),
            grid.normal == (Vector3 { x: ZERO, y: ZERO, z: ONE }),
            grid.position_attribute@ == "position"@,
            grid.texcoord_attribute@ == "texcoord"@,
            grid.normal_attribute@ == "normal"@,
    {
        Grid {
            layout: Layout::position_texcoord_normal(),
            top_left: Vector2::zero(),
            size: Vector2::one(),
            n_vertices_width: 2,
            n_vertices_height: 2,
            uv_min: Vector2::zero(),
            uv_max: Vector2::one(),
            normal: Vector3::new(ZERO, ZERO, ONE),
            position_attribute: "position".to_owned(),
            texcoord_attribute: "texcoord".to_owned(),
            normal_attribute: "normal".to_owned(),
        }
    }
}

/// The first `n` cells of the grid have their triangles.
spec fn cells_filled(grid: Grid, data: Seq<u32>, n: int) -> bool {
    &&& data.len() == grid.cell_total() * 6
    &&& forall|e: int| 0 <= e < n * 6 && e < data.len() ==> #[trigger] data[e] == grid.elements()[e]
}

proof fn lemma_vertex_in_grid(w: int, h: int, x: int, y: int)
    requires
        0 <= x < w,
        0 <= y < h,
    ensures
        0 <= y * w + x < w * h,
        (y * w + x) % w == x,
        (y * w + x) / w == y,
{
    assert(0 <= y * w && y * w + w <= w * h) by (nonlinear_arith)
        requires
            0 <= y < h,
            0 < w,
    ;
    lemma_fundamental_div_mod_converse(y * w + x, w, y, x);
}

proof fn lemma_cell_in_grid(w: int, h: int, cx: int, cy: int)
    requires
        0 <= cx < w - 1,
        0 <= cy < h - 1,
    ensures
        0 <= cy * (w - 1) + cx < (w - 1) * (h - 1),
        (cy * (w - 1) + cx) % (w - 1) == cx,
        (cy * (w - 1) + cx) / (w - 1) == cy,
        0 <= cx + cy * w,
        cx + cy * w + w + 1 < w * h,
{
    assert(0 <= cy * (w - 1) && cy * (w - 1) + (w - 1) <= (w - 1) * (h - 1)) by (nonlinear_arith)
        requires
            0 <= cy < h - 1,
            0 < w - 1,
    ;
    assert(0 <= cy * w && cy * w + w + w <= w * h) by (nonlinear_arith)
        requires
            0 <= cy < h - 1,
            0 < w,
    ;
    lemma_fundamental_div_mod_converse(cy * (w - 1) + cx, w - 1, cy, cx);
}

proof fn lemma_cell_filled(grid: Grid, before: Seq<u32>, after: Seq<u32>, cx: int, cy: int)
    requires
        0 <= cx < grid.n_vertices_width - 1,
        0 <= cy < grid.n_vertices_height - 1,
        grid.vertex_total() <= u32::MAX,
        cells_filled(grid, before, cy * (grid.n_vertices_width - 1) + cx),
        after.len() == before.len(),
        forall|e: int|
            0 <= e < (cy * (grid.n_vertices_width - 1) + cx) * 6 ==> #[trigger] after[e]
                == before[e],
        ({
            let w = grid.n_vertices_width as int;
            let first = (cy * (w - 1) + cx) * 6;
            let t = cx + cy * w;
            &&& after[first] == t
            &&& after[first + 1] == t + w
            &&& after[first + 2] == t + 1
            &&& after[first + 3] == t + 1
            &&& after[first + 4] == t + w
            &&& after[first + 5] == t + w + 1
        }),
    ensures
        cells_filled(grid, after, cy * (grid.n_vertices_width - 1) + cx + 1),
{
    let w = grid.n_vertices_width as int;
    let cell = cy * (w - 1) + cx;
    lemma_cell_in_grid(w, grid.n_vertices_height as int, cx, cy);
    assert forall|e: int| 0 <= e < (cell + 1) * 6 && e < after.len() implies #[trigger] after[e]
        == grid.elements()[e] by {
        if e >= cell * 6 {
            lemma_fundamental_div_mod_converse(e, 6, cell, e - cell * 6);
        }
    }
}

/// Every entry of a grid's index buffer is the index of one of its
/// vertices.
pub proof fn lemma_grid_element_in_range(w: int, h: int, e: int)
    requires
        w >= 2,
        h >= 2,
        0 <= e < (w - 1) * (h - 1) * 6,
    ensures
        0 <= grid_element(w, e) < w * h,
{
    let cell = e / 6;
    let cx = cell % (w - 1);
    let cy = cell / (w - 1);
    vstd::arithmetic::div_mod::lemma_fundamental_div_mod(cell, w - 1);
    assert(0 <= cx < w - 1) by {
        vstd::arithmetic::div_mod::lemma_mod_pos_bound(cell, w - 1);
    }
    assert(0 <= cy < h - 1) by (nonlinear_arith)
        requires
            cell == (w - 1) * cy + cx,
            0 <= cx < w - 1,
            0 <= cell < (w - 1) * (h - 1),
    ;
    lemma_cell_in_grid(w, h, cx, cy);
}

/// Turning the same grid with the same samples into a mesh twice gives
/// the same outcome: the same buffers, or the same error.
pub proof fn lemma_from_grid_repeatable(
    grid: Grid,
    samples: GridSamples,
    first: Result<Mesh, MeshError>,
    second: Result<Mesh, MeshError>,
)
    requires
        grid.makes(samples, first),
        grid.makes(samples, second),
    ensures
        first is Ok <==> second is Ok,
        first is Ok ==> {
            &&& first->Ok_0.layout == second->Ok_0.layout
            &&& first->Ok_0.vertex_data@ == second->Ok_0.vertex_data@
            &&& first->Ok_0.element_data@ == second->Ok_0.element_data@
        },
        first is Err ==> first->Err_0 == second->Err_0,
{
}

impl Mesh {
    /// The mesh of a grid: one vertex for each column and row, row by row,
    /// and two triangles for each cell.
    ///
    /// Of position, texture coordinate and normal, those that the grid's
    /// layout lacks are skipped; scalars that belong to no attribute
    /// written stay zero. An attribute of the wrong width, or one that
    /// does not lie within the record, is an error, and so is a sample
    /// table whose length is not that of its axis.
    pub fn from_grid(grid: Grid, samples: &GridSamples) -> (made: Result<Mesh, MeshError>)
        requires
            grid.n_vertices_width >= 2,
            grid.n_vertices_height >= 2,
            grid.vertex_total() <= u32::MAX,
            grid.vertex_total() * grid.layout.stride <= usize::MAX,
            grid.cell_total() * 6 <= usize::MAX,
        ensures
            grid.makes(*samples, made),
    {
        let w: usize = grid.n_vertices_width as usize;
        let h: usize = grid.n_vertices_height as usize;
        if samples.x.len() != w || samples.u.len() != w || samples.y.len() != h || samples.v.len()
            != h {
            return Err(MeshError::IndexOutOfBounds);
        }
        proof {
            assert(0 <= (w - 1) * (h - 1) <= w * h) by (nonlinear_arith)
                requires
                    w >= 2,
                    h >= 2,
            ;
            assert((w - 1) * (h - 1) * 2 * 3 == (w - 1) * (h - 1) * 6) by (nonlinear_arith);
        }
        let n_vertices: usize = w * h;
        let n_cells: usize = (w - 1) * (h - 1);
        let attributes = VertexAttributes::find(
            &grid.layout,
            grid.position_attribute.as_str(),
            grid.texcoord_attribute.as_str(),
            grid.normal_attribute.as_str(),
        );
        let normal = grid.normal;
        let mut mesh = Mesh::new(grid.layout, n_vertices, n_cells * 2);
        let ghost stride: int = grid.layout.stride as int;
        let ghost vertex = |i: int| grid.vertex(*samples, i);
        let mut index: usize = 0;
        let mut y: usize = 0;
        while y < h
            invariant
                y <= h,
                w == grid.n_vertices_width,
                h == grid.n_vertices_height,
                w >= 2,
                grid.fits(*samples),
                n_vertices == w * h,
                index == y * w,
                normal == grid.normal,
                attributes == grid.attributes(),
                mesh.layout == grid.layout,
                stride == grid.layout.stride,
                vertex == |i: int| grid.vertex(*samples, i),
                mesh.element_data@ == Seq::new((n_cells * 2 * 3) as nat, |j: int| 0u32),
                filled_to(attributes, stride, n_vertices as int, vertex, mesh.vertex_data@, index as int),
                index > 0 ==> attributes.error(stride) is None,
            decreases h - y,
        {
            let mut x: usize = 0;
            while x < w
                invariant
                    x <= w,
                    y < h,
                    w == grid.n_vertices_width,
                    h == grid.n_vertices_height,
                    grid.fits(*samples),
                    n_vertices == w * h,
                    index == y * w + x,
                    normal == grid.normal,
                    attributes == grid.attributes(),
                    mesh.layout == grid.layout,
                    stride == grid.layout.stride,
                    vertex == |i: int| grid.vertex(*samples, i),
                        mesh.element_data@ == Seq::new((n_cells * 2 * 3) as nat, |j: int| 0u32),
                    filled_to(attributes, stride, n_vertices as int, vertex, mesh.vertex_data@, index as int),
                    index > 0 ==> attributes.error(stride) is None,
                decreases w - x,
            {
                proof {
                    lemma_vertex_in_grid(w as int, h as int, x as int, y as int);
                    lemma_mul_inequality(index as int + 1, n_vertices as int, stride);
                }
                let ghost before = mesh;
                let corner = Vertex {
                    position: Vector3::new(samples.x[x], samples.y[y], ZERO),
                    texcoord: Vector2::new(samples.u[x], samples.v[y]),
                    normal,
                };
                mesh.write_vertex(&attributes, index, corner)?;
                proof {
                    lemma_filled_step(
                        attributes,
                        n_vertices as int,
                        vertex,
                        before,
                        mesh.vertex_data@,
                        index as int,
                    );
                }
                index += 1;
                x += 1;
            }
            proof {
                assert(y * w + w == (y + 1) * w) by (nonlinear_arith);
            }
            y += 1;
        }
        proof {
            assert(index > 0) by (nonlinear_arith)
                requires
                    index == h * w,
                    h >= 2,
                    w >= 2,
            ;
            lemma_filled_all(attributes, stride, n_vertices as int, vertex, mesh.vertex_data@);
        }
        let mut cell: usize = 0;
        let mut cy: usize = 0;
        while cy < h - 1
            invariant
                cy <= h - 1,
                w == grid.n_vertices_width,
                h == grid.n_vertices_height,
                w >= 2,
                h >= 2,
                n_cells == (w - 1) * (h - 1),
                n_cells * 6 <= usize::MAX,
                grid.vertex_total() <= u32::MAX,
                cell == cy * (w - 1),
                mesh.layout == grid.layout,
                mesh.vertex_data@ == grid.vertices(*samples),
                cells_filled(grid, mesh.element_data@, cell as int),
            decreases h - 1 - cy,
        {
            let mut cx: usize = 0;
            while cx < w - 1
                invariant
                    cx <= w - 1,
                    cy < h - 1,
                    w == grid.n_vertices_width,
                    h == grid.n_vertices_height,
                    w >= 2,
                    h >= 2,
                    n_cells == (w - 1) * (h - 1),
                    n_cells * 6 <= usize::MAX,
                    grid.vertex_total() <= u32::MAX,
                    cell == cy * (w - 1) + cx,
                    mesh.layout == grid.layout,
                    mesh.vertex_data@ == grid.vertices(*samples),
                    cells_filled(grid, mesh.element_data@, cell as int),
                decreases w - 1 - cx,
            {
                proof {
                    lemma_cell_in_grid(w as int, h as int, cx as int, cy as int);
                }
                let ghost before = mesh.element_data@;
                let first: usize = cell * 6;
                let t: usize = cx + cy * w;
                mesh.element_data.set(first, t as u32);
                mesh.element_data.set(first + 1, (t + w) as u32);
                mesh.element_data.set(first + 2, (t + 1) as u32);
                mesh.element_data.set(first + 3, (t + 1) as u32);
                mesh.element_data.set(first + 4, (t + w) as u32);
                mesh.element_data.set(first + 5, (t + w + 1) as u32);
                proof {
                    lemma_cell_filled(grid, before, mesh.element_data@, cx as int, cy as int);
                }
                cell += 1;
                cx += 1;
            }
            proof {
                assert(cy * (w - 1) + (w - 1) == (cy + 1) * (w - 1)) by (nonlinear_arith);
            }
            cy += 1;
        }
        proof {
            assert(cell == n_cells) by (nonlinear_arith)
                requires
                    cell == (h - 1) * (w - 1),
                    n_cells == (w - 1) * (h - 1),
            ;
            assert(mesh.element_data@ =~= grid.elements());
        }
        Ok(mesh)
    }
}

} // verus!
