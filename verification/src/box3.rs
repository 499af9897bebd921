use vstd::prelude::*;
use vstd::arithmetic::div_mod::lemma_fundamental_div_mod_converse;
use vstd::arithmetic::mul::lemma_mul_inequality;
use crate::error::MeshError;
use crate::layout::Layout;
use crate::mesh::Mesh;
use crate::vector::{Vector2, Vector3, MINUS_ONE, ONE, ZERO};
use crate::vertex::{filled_to, interleaved, lemma_filled_all, lemma_filled_step, Vertex, VertexAttributes};

verus! {

/// An axis-aligned box, given by its smallest corner and its extent.
pub struct Box3 {
    pub layout: Layout,
    pub position: Vector3,
    pub size: Vector3,
    pub position_attribute: String,
    pub texcoord_attribute: String,
    pub normal_attribute: String,
}

/// For each of the 24 vertices and each axis, whether the vertex lies on
/// the far side of the box (`true`) or on the near one.
///
/// The faces come in the order -z, +z, -x, +x, -y, +y, four vertices each.
pub open spec fn box_corners() -> Seq<(bool, bool, bool)> {
    seq![
        (false, false, false),
        (true, false, false),
        (false, true, false),
        (true, true, false),
        (false, false, true),
        (false, true, true),
        (true, false, true),
        (true, true, true),
        (false, false, false),
        (false, true, false),
        (false, false, true),
        (false, true, true),
        (true, true, false),
        (true, false, false),
        (true, true, true),
        (true, false, true),
        (true, false, false),
        (false, false, false),
        (true, false, true),
        (false, false, true),
        (false, true, false),
        (true, true, false),
        (false, true, true),
        (true, true, true),
    ]
}

/// The position of vertex `i` of the box between `min` and `max`.
pub open spec fn box_position(min: Vector3, max: Vector3, i: int) -> Vector3 {
    let far = box_corners()[i];
    Vector3 {
        x: if far.0 {
            max.x
        } else {
            min.x
        },
        y: if far.1 {
            max.y
        } else {
            min.y
        },
        z: if far.2 {
            max.z
        } else {
            min.z
        },
    }
}

/// The texture coordinate of vertex `i`: the face -z runs through
/// (0,0), (0,1), (1,0), (1,1), every other face through
/// (0,1), (1,1), (0,0), (1,0).
pub open spec fn box_texcoord(i: int) -> Vector2 {
    let corner = i % 4;
    if i / 4 == 0 {
        Vector2 {
            x: if corner >= 2 {
                ONE
            } else {
                ZERO
            },
            y: if corner % 2 == 1 {
                ONE
            } else {
                ZERO
            },
        }
    } else {
        Vector2 {
            x: if corner % 2 == 1 {
                ONE
            } else {
                ZERO
            },
            y: if corner < 2 {
                ONE
            } else {
                ZERO
            },
        }
    }
}

/// The outward unit normal of face `face`.
pub open spec fn box_normal(face: int) -> Vector3 {
    if face == 0 {
        Vector3 { x: ZERO, y: ZERO, z: MINUS_ONE }
    } else if face == 1 {
        Vector3 { x: ZERO, y: ZERO, z: ONE }
    } else if face == 2 {
        Vector3 { x: MINUS_ONE, y: ZERO, z: ZERO }
    } else if face == 3 {
        Vector3 { x: ONE, y: ZERO, z: ZERO }
    } else if face == 4 {
        Vector3 { x: ZERO, y: MINUS_ONE, z: ZERO }
    } else {
        Vector3 { x: ZERO, y: ONE, z: ZERO }
    }
}

/// Entry `e` of the index buffer of a box: the face whose first vertex is
/// `t` gives the triangles `t, t + 2, t + 1` and `t + 1, t + 2, t + 3`.
pub open spec fn box_element(e: int) -> int {
    let t = 4 * (e / 6);
    let corner = e % 6;
    if corner == 0 {
        t
    } else if corner == 1 || corner == 4 {
        t + 2
    } else if corner == 2 || corner == 3 {
        t + 1
    } else {
        t + 3
    }
}

/// The index buffer of a box.
pub open spec fn box_elements() -> Seq<u32> {
    Seq::new(36, |e: int| box_element(e) as u32)
}

impl Box3 {
    /// The attributes that the box fills in, as its layout has them.
    pub open spec fn attributes(&self) -> VertexAttributes {
        VertexAttributes {
            position: self.layout.attribute(self.position_attribute@),
            texcoord: self.layout.attribute(self.texcoord_attribute@),
            normal: self.layout.attribute(self.normal_attribute@),
        }
    }

    /// Why the box cannot be turned into a mesh, if it cannot.
    pub open spec fn error(&self) -> Option<MeshError> {
        self.attributes().error(self.layout.stride as int)
    }

    /// Vertex `i` of the box that reaches from `position` to `max`.
    pub open spec fn vertex(&self, max: Vector3, i: int) -> Vertex {
        Vertex {
            position: box_position(self.position, max, i),
            texcoord: box_texcoord(i),
            normal: box_normal(i / 4),
        }
    }

    /// The vertex buffer: the records of the 24 vertices.
    pub open spec fn vertices(&self, max: Vector3) -> Seq<u32> {
        interleaved(
            self.attributes(),
            self.layout.stride as int,
            24,
            |i: int| self.vertex(max, i),
        )
    }

    /// What the conversion of the box yields: the mesh with the box's
    /// layout, vertices and triangles where nothing is wrong, and the
    /// error where something is.
    pub open spec fn makes(&self, max: Vector3, made: Result<Mesh, MeshError>) -> bool {
        match made {
            Ok(mesh) => {
                &&& self.error() is None
                &&& mesh.layout == self.layout
                &&& mesh.vertex_data@ == self.vertices(max)
                &&& mesh.element_data@ == box_elements()
            },
            Err(e) => self.error() == Some(e),
        }
    }

    /// The unit cube at the origin, with the layout of position, texture
    /// coordinate and normal under their usual names.
    pub fn new() -> (box3: Box3)
        ensures
            box3.layout.well_formed(),
            box3.layout.stride == 8,
            box3.layout.attributes@.len() == 3,
            box3.layout.attributes@[0].name@ == "position"@,
            box3.layout.attributes@[0].offset == 0,
            box3.layout.attributes@[0].size == 3,
            box3.layout.attributes@[1].name@ == "texcoord"@,
            box3.layout.attributes@[1].offset == 3,
            box3.layout.attributes@[1].size == 2,
            box3.layout.attributes@[2].name@ == "normal"@,
            box3.layout.attributes@[2].offset == 5,
            box3.layout.attributes@[2].size == 3,
            box3.position == (Vector3 { x: ZERO, y: ZERO, z: ZERO }),
            box3.size == (Vector3 { x: ONE, y: ONE, z: ONE }),
            box3.position_attribute@ == "position"@,
            box3.texcoord_attribute@ == "texcoord"@,
            box3.normal_attribute@ == "normal"@,
    {
        Box3 {
            layout: Layout::position_texcoord_normal(),
            position: Vector3::zero(),
            size: Vector3::one(),
            position_attribute: "position".to_owned(),
            texcoord_attribute: "texcoord".to_owned(),
            normal_attribute: "normal".to_owned(),
        }
    }
}

/// Every entry of a box's index buffer is the index of one of its 24
/// vertices.
pub proof fn lemma_box_element_in_range(e: int)
    requires
        0 <= e < 36,
    ensures
        0 <= box_element(e) < 24,
{
}

/// Turning the same box with the same far corner into a mesh twice gives
/// the same outcome: the same buffers, or the same error.
pub proof fn lemma_from_box_repeatable(
    box3: Box3,
    max: Vector3,
    first: Result<Mesh, MeshError>,
    second: Result<Mesh, MeshError>,
)
    requires
        box3.makes(max, first),
        box3.makes(max, second),
    ensures
        first is Ok <==> second is Ok,
        first is Ok ==> {
            &&& first->Ok_0.layout == second->Ok_0.layout
            &&& first->Ok_0.vertex_data@ == second->Ok_0.vertex_data@
            &&& first->Ok_0.element_data@ == second->Ok_0.element_data@
        },
        first is Err ==> first->Err_0 == second->Err_0,
{
}

/// For vertex `i`, on which side of the box it lies along each axis.
fn corner_sides(i: usize) -> (far: (bool, bool, bool))
    requires
        i < 24,
    ensures
        far == box_corners()[i as int],
{
    match i {
        0 | 8 | 17 => (false, false, false),
        1 | 13 | 16 => (true, false, false),
        2 | 9 | 20 => (false, true, false),
        3 | 12 | 21 => (true, true, false),
        4 | 10 | 19 => (false, false, true),
        5 | 11 | 22 => (false, true, true),
        6 | 15 | 18 => (true, false, true),
        _ => (true, true, true),
    }
}

/// Vertex `i` of the box between `min` and `max`.
fn box_vertex(min: Vector3, max: Vector3, i: usize) -> (vertex: Vertex)
    requires
        i < 24,
    ensures
        vertex.position == box_position(min, max, i as int),
        vertex.texcoord == box_texcoord(i as int),
        vertex.normal == box_normal(i as int / 4),
{
    let far = corner_sides(i);
    let position = Vector3::new(
        if far.0 {
            max.x
        } else {
            min.x
        },
        if far.1 {
            max.y
        } else {
            min.y
        },
        if far.2 {
            max.z
        } else {
            min.z
        },
    );
    let face: usize = i / 4;
    let corner: usize = i % 4;
    let texcoord = if face == 0 {
        Vector2::new(
            if corner >= 2 {
                ONE
            } else {
                ZERO
            },
            if corner % 2 == 1 {
                ONE
            } else {
                ZERO
            },
        )
    } else {
        Vector2::new(
            if corner % 2 == 1 {
                ONE
            } else {
                ZERO
            },
            if corner < 2 {
                ONE
            } else {
                ZERO
            },
        )
    };
    let normal = match face {
        0 => Vector3::new(ZERO, ZERO, MINUS_ONE),
        1 => Vector3::new(ZERO, ZERO, ONE),
        2 => Vector3::new(MINUS_ONE, ZERO, ZERO),
        3 => Vector3::new(ONE, ZERO, ZERO),
        4 => Vector3::new(ZERO, MINUS_ONE, ZERO),
        _ => Vector3::new(ZERO, ONE, ZERO),
    };
    Vertex { position, texcoord, normal }
}

impl Mesh {
    /// The mesh of a box that reaches from `box3.position` to `max`, the
    /// corner `box3.position + box3.size`, which the caller adds up in
    /// single precision arithmetic: four vertices for each face, which
    /// share none with another face, and two triangles for each face.
    ///
    /// Of position, texture coordinate and normal, those that the box's
    /// layout lacks are skipped; scalars that belong to no attribute
    /// written stay zero. An attribute of the wrong width, or one that
    /// does not lie within the record, is an error.
    pub fn from_box(box3: Box3, max: Vector3) -> (made: Result<Mesh, MeshError>)
        requires
            24 * box3.layout.stride <= usize::MAX,
        ensures
            box3.makes(max, made),
    {
        let attributes = VertexAttributes::find(
            &box3.layout,
            box3.position_attribute.as_str(),
            box3.texcoord_attribute.as_str(),
            box3.normal_attribute.as_str(),
        );
        let min = box3.position;
        let mut mesh = Mesh::new(box3.layout, 24, 12);
        let ghost stride: int = box3.layout.stride as int;
        let ghost vertex = |i: int| box3.vertex(max, i);
        let mut i: usize = 0;
        while i < 24
            invariant
                i <= 24,
                min == box3.position,
                attributes == box3.attributes(),
                mesh.layout == box3.layout,
                stride == box3.layout.stride,
                vertex == |i: int| box3.vertex(max, i),
                mesh.element_data@ == Seq::new(36, |j: int| 0u32),
                filled_to(attributes, stride, 24, vertex, mesh.vertex_data@, i as int),
                i > 0 ==> attributes.error(stride) is None,
            decreases 24 - i,
        {
            proof {
                lemma_mul_inequality(i as int + 1, 24, stride);
            }
            let ghost before = mesh;
            let corner = box_vertex(min, max, i);
            mesh.write_vertex(&attributes, i, corner)?;
            proof {
                lemma_filled_step(attributes, 24, vertex, before, mesh.vertex_data@, i as int);
            }
            i += 1;
        }
        proof {
            lemma_filled_all(attributes, stride, 24, vertex, mesh.vertex_data@);
        }
        let mut face: usize = 0;
        while face < 6
            invariant
                face <= 6,
                mesh.layout == box3.layout,
                mesh.vertex_data@ == box3.vertices(max),
                mesh.element_data@.len() == 36,
                forall|e: int| 0 <= e < face * 6 ==> #[trigger] mesh.element_data@[e] == box_element(e),
            decreases 6 - face,
        {
            let first: usize = face * 6;
            let t: u32 = (face * 4) as u32;
            mesh.element_data.set(first, t);
            mesh.element_data.set(first + 1, t + 2);
            mesh.element_data.set(first + 2, t + 1);
            mesh.element_data.set(first + 3, t + 1);
            mesh.element_data.set(first + 4, t + 2);
            mesh.element_data.set(first + 5, t + 3);
            proof {
                assert forall|e: int| 0 <= e < (face + 1) * 6 implies #[trigger] mesh.element_data@[e]
                    == box_element(e) by {
                    if e >= face * 6 {
                        lemma_fundamental_div_mod_converse(e, 6, face as int, e - face * 6);
                    }
                }
            }
            face += 1;
        }
        proof {
            assert(mesh.element_data@ =~= box_elements());
        }
        Ok(mesh)
    }
}

} // verus!
