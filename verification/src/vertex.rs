use vstd::prelude::*;
use vstd::arithmetic::div_mod::lemma_fundamental_div_mod_converse;
use crate::error::MeshError;
use crate::layout::{Attribute, Layout};
use crate::layout::lemma_attributes_apart;
use crate::layout::lemma_lookup_is_first;
use crate::mesh::Mesh;
use crate::vector::{Vector2, Vector3, ZERO};

verus! {

/// The attributes that a shape fills in, each as a lookup by name found it
/// in the layout, or absent where the layout has none of that name.
pub struct VertexAttributes {
    pub position: Option<Attribute>,
    pub texcoord: Option<Attribute>,
    pub normal: Option<Attribute>,
}

/// What a shape gives one of its vertices.
#[derive(Debug, Clone, Copy, PartialEq, Eq, Structural)]
pub struct Vertex {
    pub position: Vector3,
    pub texcoord: Vector2,
    pub normal: Vector3,
}

/// Whether the attribute is present and scalar `k` of a record lies in it.
pub open spec fn covers(found: Option<Attribute>, k: int) -> bool {
    match found {
        Some(a) => a.offset <= k < a.offset + a.size,
        None => false,
    }
}

/// Why `components` values cannot be written to the attribute within a
/// record of `stride` scalars, if they cannot. An absent attribute is
/// skipped, which is no error.
pub open spec fn attribute_error(found: Option<Attribute>, components: int, stride: int) -> Option<
    MeshError,
> {
    match found {
        Some(a) => if a.size != components {
            Some(MeshError::AttributeSizeMismatch)
        } else if a.offset + a.size > stride {
            Some(MeshError::IndexOutOfBounds)
        } else {
            None
        },
        None => None,
    }
}

impl VertexAttributes {
    /// The first reason, going from position over texture coordinate to
    /// normal, why a vertex cannot be written into records of `stride`
    /// scalars.
    pub open spec fn error(&self, stride: int) -> Option<MeshError> {
        if attribute_error(self.position, 3, stride) is Some {
            attribute_error(self.position, 3, stride)
        } else if attribute_error(self.texcoord, 2, stride) is Some {
            attribute_error(self.texcoord, 2, stride)
        } else {
            attribute_error(self.normal, 3, stride)
        }
    }

    /// Scalar `k` of a record that held `before` there, after position,
    /// texture coordinate and normal were written to it in that order.
    pub open spec fn scalar_over(&self, before: u32, vertex: Vertex, k: int) -> u32 {
        if covers(self.normal, k) {
            vertex.normal.scalars()[k - self.normal.unwrap().offset]
        } else if covers(self.texcoord, k) {
            vertex.texcoord.scalars()[k - self.texcoord.unwrap().offset]
        } else if covers(self.position, k) {
            vertex.position.scalars()[k - self.position.unwrap().offset]
        } else {
            before
        }
    }

    /// Scalar `k` of the record of a vertex in a buffer that was zero.
    pub open spec fn scalar_at(&self, vertex: Vertex, k: int) -> u32 {
        self.scalar_over(ZERO, vertex, k)
    }

    /// Looks the three names up in the layout, once each.
    pub fn find(layout: &Layout, position: &str, texcoord: &str, normal: &str) -> (found:
        VertexAttributes)
        ensures
            found.position == layout.attribute(position@),
            found.texcoord == layout.attribute(texcoord@),
            found.normal == layout.attribute(normal@),
    {
        let position = match layout.get_attribute(position) {
            Some(a) => Some(a.clone()),
            None => None,
        };
        let texcoord = match layout.get_attribute(texcoord) {
            Some(a) => Some(a.clone()),
            None => None,
        };
        let normal = match layout.get_attribute(normal) {
            Some(a) => Some(a.clone()),
            None => None,
        };
        VertexAttributes { position, texcoord, normal }
    }
}

/// An attribute that the layout lacks is skipped: no scalar depends on the
/// value meant for it, and a scalar that no present attribute covers is
/// zero. Where all three are absent there is no error.
pub proof fn lemma_absent_attributes_skipped(
    attributes: VertexAttributes,
    vertex: Vertex,
    other: Vertex,
    stride: int,
    k: int,
)
    requires
        attributes.position is Some ==> vertex.position == other.position,
        attributes.texcoord is Some ==> vertex.texcoord == other.texcoord,
        attributes.normal is Some ==> vertex.normal == other.normal,
    ensures
        attributes.scalar_at(vertex, k) == attributes.scalar_at(other, k),
        !covers(attributes.position, k) && !covers(attributes.texcoord, k) && !covers(
            attributes.normal,
            k,
        ) ==> attributes.scalar_at(vertex, k) == ZERO,
        attributes.position is None && attributes.texcoord is None && attributes.normal is None
            ==> attributes.error(stride) is None,
{
}

/// Whatever the names, the attributes found in a well-formed layout lie
/// within the record: the only error left is an attribute whose width is
/// not that of the value meant for it.
pub proof fn lemma_well_formed_within_record(
    layout: Layout,
    position: Seq<char>,
    texcoord: Seq<char>,
    normal: Seq<char>,
)
    requires
        layout.well_formed(),
    ensures
        (VertexAttributes {
            position: layout.attribute(position),
            texcoord: layout.attribute(texcoord),
            normal: layout.attribute(normal),
        }).error(layout.stride as int) != Some(MeshError::IndexOutOfBounds),
{
    lemma_found_within_record(layout, position);
    lemma_found_within_record(layout, texcoord);
    lemma_found_within_record(layout, normal);
}

proof fn lemma_found_within_record(layout: Layout, name: Seq<char>)
    requires
        layout.well_formed(),
    ensures
        match layout.attribute(name) {
            Some(a) => a.offset + a.size <= layout.stride,
            None => true,
        },
{
    lemma_lookup_is_first(layout, name);
    if let Some(a) = layout.attribute(name) {
        let i = choose|i: int|
            0 <= i < layout.attributes@.len() && #[trigger] layout.attributes@[i] == a;
        let last = layout.attributes@.len() - 1;
        if i < last {
            lemma_attributes_apart(layout, i, last);
            lemma_attributes_apart(layout, i, i + 1);
        } else {
            assert(layout.width_before(last + 1) == layout.width_before(last)
                + layout.attributes@[last].size);
        }
    }
}

/// The records of `count` vertices, one after the other, in a buffer that
/// was zero: vertex `i` is `vertex(i)`.
pub open spec fn interleaved(
    attributes: VertexAttributes,
    stride: int,
    count: int,
    vertex: spec_fn(int) -> Vertex,
) -> Seq<u32> {
    Seq::new(
        (count * stride) as nat,
        |j: int| attributes.scalar_at(vertex(j / stride), j % stride),
    )
}

/// The first `n` of the `count` vertices have their records; the rest of
/// the buffer is zero.
pub(crate) open spec fn filled_to(
    attributes: VertexAttributes,
    stride: int,
    count: int,
    vertex: spec_fn(int) -> Vertex,
    data: Seq<u32>,
    n: int,
) -> bool {
    &&& data.len() == count * stride
    &&& forall|j: int|
        0 <= j < data.len() ==> #[trigger] data[j] == if j < n * stride {
            interleaved(attributes, stride, count, vertex)[j]
        } else {
            ZERO
        }
}

/// Writing vertex `n` into a buffer whose first `n` vertices are filled
/// gives one whose first `n + 1` are.
pub(crate) proof fn lemma_filled_step(
    attributes: VertexAttributes,
    count: int,
    vertex: spec_fn(int) -> Vertex,
    before: Mesh,
    after: Seq<u32>,
    n: int,
)
    requires
        0 <= n < count,
        filled_to(attributes, before.layout.stride as int, count, vertex, before.vertex_data@, n),
        after == before.with_vertex(attributes, n * before.layout.stride, vertex(n)),
    ensures
        filled_to(attributes, before.layout.stride as int, count, vertex, after, n + 1),
{
    let stride = before.layout.stride as int;
    let base = n * stride;
    assert((n + 1) * stride == base + stride) by (nonlinear_arith)
        requires
            base == n * stride,
    ;
    assert forall|j: int| 0 <= j < after.len() implies #[trigger] after[j] == if j < (n + 1)
        * stride {
        interleaved(attributes, stride, count, vertex)[j]
    } else {
        ZERO
    } by {
        let was = before.vertex_data@[j];
        if base <= j < base + stride {
            lemma_fundamental_div_mod_converse(j, stride, n, j - base);
        }
    }
}

/// A buffer whose vertices are all filled holds their records and
/// nothing else.
pub(crate) proof fn lemma_filled_all(
    attributes: VertexAttributes,
    stride: int,
    count: int,
    vertex: spec_fn(int) -> Vertex,
    data: Seq<u32>,
)
    requires
        filled_to(attributes, stride, count, vertex, data, count),
    ensures
        data == interleaved(attributes, stride, count, vertex),
{
    assert(data =~= interleaved(attributes, stride, count, vertex));
}

impl Mesh {
    /// The vertex data after the record that starts at `base` took the
    /// position, texture coordinate and normal of `vertex`.
    pub open spec fn with_vertex(
        &self,
        attributes: VertexAttributes,
        base: int,
        vertex: Vertex,
    ) -> Seq<u32> {
        Seq::new(
            self.vertex_data@.len(),
            |j: int|
                if base <= j < base + self.layout.stride {
                    attributes.scalar_over(self.vertex_data@[j], vertex, j - base)
                } else {
                    self.vertex_data@[j]
                },
        )
    }

    /// Writes those of position, texture coordinate and normal that are
    /// present, in that order, to the record of vertex `index`.
    pub(crate) fn write_vertex(
        &mut self,
        attributes: &VertexAttributes,
        index: usize,
        vertex: Vertex,
    ) -> (done: Result<(), MeshError>)
        requires
            old(self).holds_vertex(index as int),
        ensures
            done == match attributes.error(old(self).layout.stride as int) {
                Some(e) => Err::<(), MeshError>(e),
                None => Ok(()),
            },
            final(self).layout == old(self).layout,
            final(self).element_data == old(self).element_data,
            final(self).vertex_data@.len() == old(self).vertex_data@.len(),
            done is Ok ==> final(self).vertex_data@ == old(self).with_vertex(
                *attributes,
                index * old(self).layout.stride,
                vertex,
            ),
    {
        let ghost base: int = index * self.layout.stride;
        if let Some(a) = &attributes.position {
            let values: Vec<u32> = vec![vertex.position.x, vertex.position.y, vertex.position.z];
            self.write_to_attribute(a, index, values)?;
        }
        let ghost after_position = self.vertex_data@;
        if let Some(a) = &attributes.texcoord {
            let values: Vec<u32> = vec![vertex.texcoord.x, vertex.texcoord.y];
            self.write_to_attribute(a, index, values)?;
        }
        let ghost after_texcoord = self.vertex_data@;
        if let Some(a) = &attributes.normal {
            let values: Vec<u32> = vec![vertex.normal.x, vertex.normal.y, vertex.normal.z];
            self.write_to_attribute(a, index, values)?;
        }
        proof {
            let expected = old(self).with_vertex(*attributes, base, vertex);
            assert(self.vertex_data@.len() == expected.len());
            assert forall|j: int| 0 <= j < expected.len() implies self.vertex_data@[j]
                == expected[j] by {
                let a = after_position[j];
                let b = after_texcoord[j];
            }
            assert(self.vertex_data@ == expected);
        }
        Ok(())
    }
}

} // verus!
