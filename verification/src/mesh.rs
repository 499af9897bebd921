use vstd::prelude::*;
use vstd::arithmetic::div_mod::lemma_fundamental_div_mod;
use vstd::arithmetic::mul::{lemma_mul_inequality, lemma_mul_is_commutative};
use crate::error::MeshError;
use crate::layout::{Attribute, Layout};

verus! {

/// An interleaved vertex buffer and a triangle index buffer.
///
/// `vertex_data` holds one record of `layout.stride` scalars per vertex,
/// each scalar as the bit pattern of a single precision number;
/// `element_data` holds three vertex indices per triangle.
#[derive(Debug, PartialEq)]
pub struct Mesh {
    pub layout: Layout,
    pub vertex_data: Vec<u32>,
    pub element_data: Vec<u32>,
}

/// `data` with `values` laid over it from position `start` on.
pub open spec fn overlay(data: Seq<u32>, start: int, values: Seq<u32>) -> Seq<u32> {
    Seq::new(
        data.len(),
        |j: int|
            if start <= j < start + values.len() {
                values[j - start]
            } else {
                data[j]
            },
    )
}

/// A write of as many values as the attribute has components is accepted
/// for every attribute of a well-formed layout and every vertex whose
/// record the buffer holds.
pub proof fn lemma_write_accepted(mesh: Mesh, i: int, index: int, values: Seq<u32>)
    requires
        mesh.layout.well_formed(),
        0 <= i < mesh.layout.attributes@.len(),
        mesh.holds_vertex(index),
        values.len() == mesh.layout.attributes@[i].size,
    ensures
        mesh.write_error(mesh.layout.attributes@[i], index, values) is None,
{
    let last = mesh.layout.attributes@.len() - 1;
    if i < last {
        crate::layout::lemma_attributes_apart(mesh.layout, i, last);
    } else {
        assert(mesh.layout.width_before(last + 1) == mesh.layout.width_before(last)
            + mesh.layout.attributes@[last].size);
    }
}

/// A buffer of `len` scalars holds the record of vertex `index` exactly
/// where `index` is below the number of whole records in it.
proof fn lemma_whole_records(len: int, stride: int, index: int)
    requires
        0 <= len,
        0 < stride,
        0 <= index,
    ensures
        index < len / stride <==> (index + 1) * stride <= len,
{
    let count = len / stride;
    lemma_fundamental_div_mod(len, stride);
    lemma_mul_is_commutative(stride, count);
    if index < count {
        lemma_mul_inequality(index + 1, count, stride);
    } else {
        lemma_mul_inequality(count + 1, index + 1, stride);
        assert((count + 1) * stride == count * stride + stride) by (nonlinear_arith);
    }
}

impl Mesh {
    /// The record of vertex `index` lies within the buffer. Where the
    /// stride is zero a record is empty, and the buffer holds each one.
    pub open spec fn holds_vertex(&self, index: int) -> bool {
        0 <= index && (index + 1) * self.layout.stride <= self.vertex_data@.len()
    }

    /// Why a write of `values` to `attribute` of vertex `index` is refused,
    /// if it is.
    pub open spec fn write_error(
        &self,
        attribute: Attribute,
        index: int,
        values: Seq<u32>,
    ) -> Option<MeshError> {
        if values.len() != attribute.size {
            Some(MeshError::AttributeSizeMismatch)
        } else if attribute.offset + attribute.size > self.layout.stride || !self.holds_vertex(
            index,
        ) {
            Some(MeshError::IndexOutOfBounds)
        } else {
            None
        }
    }

    /// A mesh for `n_vertices` vertices of the given layout and `n_faces`
    /// triangles, with every scalar and every index zero.
    pub fn new(layout: Layout, n_vertices: usize, n_faces: usize) -> (mesh: Mesh)
        requires
            n_vertices * layout.stride <= usize::MAX,
            n_faces * 3 <= usize::MAX,
        ensures
            mesh.layout == layout,
            mesh.vertex_data@ == Seq::new((n_vertices * layout.stride) as nat, |j: int| 0u32),
            mesh.element_data@ == Seq::new((n_faces * 3) as nat, |j: int| 0u32),
    {
        let vertices_size: usize = n_vertices * layout.stride;
        let elements_size: usize = n_faces * 3;
        let mut vertex_data: Vec<u32> = Vec::with_capacity(vertices_size);
        let mut i: usize = 0;
        while i < vertices_size
            invariant
                i <= vertices_size,
                vertex_data@ == Seq::new(i as nat, |j: int| 0u32),
            decreases vertices_size - i,
        {
            vertex_data.push(0);
            i += 1;
        }
        let mut element_data: Vec<u32> = Vec::with_capacity(elements_size);
        let mut k: usize = 0;
        while k < elements_size
            invariant
                k <= elements_size,
                element_data@ == Seq::new(k as nat, |j: int| 0u32),
            decreases elements_size - k,
        {
            element_data.push(0);
            k += 1;
        }
        Mesh { layout, vertex_data, element_data }
    }

    /// Overwrites the scalars of `attribute` in the record of vertex
    /// `index` with `data`, and nothing else. A write that would not fit
    /// the attribute, the record or the buffer is refused and changes
    /// nothing.
    pub fn write_to_attribute(&mut self, attribute: &Attribute, index: usize, data: Vec<u32>) -> (done:
        Result<(), MeshError>)
        ensures
            done == match old(self).write_error(*attribute, index as int, data@) {
                Some(e) => Err::<(), MeshError>(e),
                None => Ok(()),
            },
            final(self).layout == old(self).layout,
            final(self).element_data == old(self).element_data,
            done is Err ==> final(self).vertex_data == old(self).vertex_data,
            final(self).vertex_data@.len() == old(self).vertex_data@.len(),
            forall|j: int|
                0 <= j < old(self).vertex_data@.len() && !(index * old(self).layout.stride
                    + attribute.offset <= j < index * old(self).layout.stride + attribute.offset
                    + attribute.size) ==> final(self).vertex_data@[j] == old(self).vertex_data@[j],
            done is Ok ==> final(self).vertex_data@ == overlay(
                old(self).vertex_data@,
                index * old(self).layout.stride + attribute.offset,
                data@,
            ),
    {
        if data.len() != attribute.size {
            return Err(MeshError::AttributeSizeMismatch);
        }
        let stride: usize = self.layout.stride;
        if attribute.size > stride || attribute.offset > stride - attribute.size {
            return Err(MeshError::IndexOutOfBounds);
        }
        if stride == 0 {
            assert(self.vertex_data@ == overlay(self.vertex_data@, attribute.offset as int, data@));
            return Ok(());
        }
        let count: usize = self.vertex_data.len() / stride;
        proof {
            lemma_whole_records(self.vertex_data@.len() as int, stride as int, index as int);
        }
        if index >= count {
            return Err(MeshError::IndexOutOfBounds);
        }
        proof {
            assert((index + 1) * stride == index * stride + stride) by (nonlinear_arith);
            assert(0 <= index * stride) by (nonlinear_arith);
        }
        let start: usize = index * stride + attribute.offset;
        let mut l: usize = 0;
        while l < attribute.size
            invariant
                l <= attribute.size,
                data@.len() == attribute.size,
                start + attribute.size <= self.vertex_data@.len() <= usize::MAX,
                self.layout == old(self).layout,
                self.element_data == old(self).element_data,
                self.vertex_data@ == overlay(old(self).vertex_data@, start as int, data@.take(l as int)),
            decreases attribute.size - l,
        {
            self.vertex_data.set(start + l, data[l]);
            assert(self.vertex_data@ == overlay(
                old(self).vertex_data@,
                start as int,
                data@.take(l + 1),
            ));
            l += 1;
        }
        assert(data@.take(l as int) == data@);
        Ok(())
    }
}

} // verus!
