//! The mesh description.
//!
//! A [`MeshDesc`] says what a mesh is: vertex buffers tagged with the slot a
//! pipeline's vertex state expects them in, an optional index buffer, and the
//! mesh's local-space [`Aabb`]. No particular vertex layout is assumed, so a
//! mesh can carry any combination of attributes.

use vstd::prelude::*;

use crate::collections::{
    copy_list, desc_at, desc_count, no_descs, push_desc, BufferDescs, MAX_VERTEX_BUFFERS,
};
use crate::components::Aabb;
use wgpu::IndexFormat;
use wgpu::VertexAttribute;
use wgpu::VertexFormat;
use wgpu::VertexStepMode;

verus! {

/// Wgpu's index formats, variant by variant.
#[verifier::external_type_specification]
pub struct ExIndexFormat(wgpu::IndexFormat);

/// Wgpu's vertex step modes, variant by variant.
#[verifier::external_type_specification]
pub struct ExVertexStepMode(wgpu::VertexStepMode);

/// Wgpu's vertex formats, variant by variant.
#[verifier::external_type_specification]
pub struct ExVertexFormat(wgpu::VertexFormat);

/// Wgpu's vertex attributes, field by field.
#[verifier::external_type_specification]
pub struct ExVertexAttribute(wgpu::VertexAttribute);

/// The byte size of one index of `format`.
#[verifier::allow_in_spec]
pub fn index_format_size(format: IndexFormat) -> u32
    returns
        (match format {
            IndexFormat::Uint16 => 2u32,
            IndexFormat::Uint32 => 4u32,
        }),
{
    match format {
        IndexFormat::Uint16 => 2,
        IndexFormat::Uint32 => 4,
    }
}

/// The layout of one vertex buffer.
#[derive(Debug, PartialEq, Eq, Hash)]
pub struct VertexBufferLayoutDesc {
    /// Stride between elements.
    pub array_stride: u64,
    /// How the buffer advances: per vertex or per instance.
    pub step_mode: VertexStepMode,
    /// The attributes this buffer provides.
    pub attributes: Vec<VertexAttribute>,
}

/// What a [`VertexBufferLayoutDesc`] holds.
#[verifier::ext_equal]
pub struct LayoutModel {
    /// Stride between elements.
    pub array_stride: u64,
    /// How the buffer advances.
    pub step_mode: VertexStepMode,
    /// The attributes, in order.
    pub attributes: Seq<VertexAttribute>,
}

impl View for VertexBufferLayoutDesc {
    type V = LayoutModel;

    open spec fn view(&self) -> LayoutModel {
        LayoutModel {
            array_stride: self.array_stride,
            step_mode: self.step_mode,
            attributes: self.attributes@,
        }
    }
}

impl LayoutModel {
    /// The layout of a stream that declares nothing.
    pub open spec fn empty() -> LayoutModel {
        LayoutModel {
            array_stride: 0,
            step_mode: VertexStepMode::Vertex,
            attributes: Seq::empty(),
        }
    }

    /// The integers that describe an attribute.
    pub open spec fn attribute_code(attribute: VertexAttribute) -> Seq<u64> {
        seq![
            attribute.format as u64,
            attribute.offset,
            attribute.shader_location as u64,
        ]
    }

    /// The integers that describe the attributes, in order.
    pub open spec fn attributes_code(attributes: Seq<VertexAttribute>) -> Seq<u64>
        decreases attributes.len(),
    {
        if attributes.len() == 0 {
            Seq::empty()
        } else {
            Self::attributes_code(attributes.drop_last()) + Self::attribute_code(attributes.last())
        }
    }

    /// The integers that describe the layout.
    pub open spec fn code(self) -> Seq<u64> {
        seq![self.array_stride, self.step_mode as u64] + Self::attributes_code(self.attributes)
    }
}

impl VertexBufferLayoutDesc {
    /// The layout of a stream that declares nothing.
    pub fn empty() -> (layout: Self)
        ensures
            layout@ == LayoutModel::empty(),
    {
        VertexBufferLayoutDesc {
            array_stride: 0,
            step_mode: VertexStepMode::Vertex,
            attributes: Vec::new(),
        }
    }

    /// The integers that describe the layout.
    pub fn code(&self) -> (code: Vec<u64>)
        ensures
            code@ == self@.code(),
    {
        let mut code: Vec<u64> = Vec::new();
        code.push(self.array_stride);
        code.push(self.step_mode as u64);
        let ghost head = code@;
        let mut i: usize = 0;
        assert(self.attributes@.take(0) =~= Seq::empty());
        assert(head + LayoutModel::attributes_code(Seq::empty()) =~= head);
        while i < self.attributes.len()
            invariant
                i <= self.attributes.len(),
                code@ == head + LayoutModel::attributes_code(self.attributes@.take(i as int)),
            decreases self.attributes.len() - i,
        {
            let attribute = self.attributes[i];
            proof {
                let next = self.attributes@.take(i + 1);
                assert(next.drop_last() =~= self.attributes@.take(i as int));
                assert(next.last() == attribute);
            }
            code.push(attribute.format as u64);
            code.push(attribute.offset);
            code.push(attribute.shader_location as u64);
            i = i + 1;
            assert(code@ =~= head + LayoutModel::attributes_code(self.attributes@.take(i as int)));
        }
        assert(self.attributes@.take(i as int) =~= self.attributes@);
        assert(head =~= seq![self.array_stride, self.step_mode as u64]);
        code
    }
}

impl Clone for VertexBufferLayoutDesc {
    fn clone(&self) -> (layout: Self)
        ensures
            layout@ == self@,
    {
        VertexBufferLayoutDesc {
            array_stride: self.array_stride,
            step_mode: self.step_mode,
            attributes: copy_list(&self.attributes),
        }
    }
}

/// The code of attributes is three integers each.
proof fn lemma_attributes_code_len(attributes: Seq<VertexAttribute>)
    ensures
        LayoutModel::attributes_code(attributes).len() == 3 * attributes.len(),
    decreases attributes.len(),
{
    if attributes.len() > 0 {
        lemma_attributes_code_len(attributes.drop_last());
    }
}

/// No two vertex formats share a number.
proof fn lemma_formats_distinct(a: VertexFormat, b: VertexFormat)
    requires
        a as u64 == b as u64,
    ensures
        a == b,
{
}

/// No two step modes share a number.
proof fn lemma_step_modes_distinct(a: VertexStepMode, b: VertexStepMode)
    requires
        a as u64 == b as u64,
    ensures
        a == b,
{
}

/// No two lists of attributes share a code.
proof fn lemma_attributes_code_injective(a: Seq<VertexAttribute>, b: Seq<VertexAttribute>)
    requires
        LayoutModel::attributes_code(a) == LayoutModel::attributes_code(b),
    ensures
        a == b,
    decreases a.len(),
{
    lemma_attributes_code_len(a);
    lemma_attributes_code_len(b);
    if a.len() == 0 {
        assert(a =~= b);
    } else {
        let code = LayoutModel::attributes_code(a);
        let head_a = LayoutModel::attributes_code(a.drop_last());
        let head_b = LayoutModel::attributes_code(b.drop_last());
        lemma_attributes_code_len(a.drop_last());
        lemma_attributes_code_len(b.drop_last());
        let n = head_a.len() as int;
        let last_a = LayoutModel::attribute_code(a.last());
        let last_b = LayoutModel::attribute_code(b.last());
        assert(code.take(n) =~= head_a);
        assert(code.take(n) =~= head_b);
        lemma_attributes_code_injective(a.drop_last(), b.drop_last());
        assert(last_a[0] == code[n] && last_b[0] == code[n]);
        assert(last_a[1] == code[n + 1] && last_b[1] == code[n + 1]);
        assert(last_a[2] == code[n + 2] && last_b[2] == code[n + 2]);
        lemma_formats_distinct(a.last().format, b.last().format);
        assert(a.last() == b.last());
        assert(a =~= a.drop_last().push(a.last()));
        assert(b =~= b.drop_last().push(b.last()));
    }
}

/// The integers that describe a layout describe no other layout, so looking one
/// up by them finds it and nothing else.
pub proof fn law_layout_codes_are_distinct(a: LayoutModel, b: LayoutModel)
    requires
        a.code() == b.code(),
    ensures
        a == b,
{
    let tail_a = LayoutModel::attributes_code(a.attributes);
    let tail_b = LayoutModel::attributes_code(b.attributes);
    let head_a = seq![a.array_stride, a.step_mode as u64];
    let head_b = seq![b.array_stride, b.step_mode as u64];
    assert(a.code()[0] == head_a[0] && a.code()[1] == head_a[1]);
    assert(b.code()[0] == head_b[0] && b.code()[1] == head_b[1]);
    lemma_step_modes_distinct(a.step_mode, b.step_mode);
    assert(a.code().skip(2) =~= tail_a);
    assert(b.code().skip(2) =~= tail_b);
    lemma_attributes_code_injective(a.attributes, b.attributes);
}

/// A vertex buffer bound at `slot` for every draw of a mesh, with the layout
/// the pipeline's vertex state must match.
#[derive(Debug)]
pub struct VertexBufferDesc {
    /// The vertex-buffer slot the pipeline's vertex state declares.
    pub slot: u32,
    /// The buffer's layout.
    pub layout: VertexBufferLayoutDesc,
}

impl Clone for VertexBufferDesc {
    fn clone(&self) -> (desc: Self)
        ensures
            desc.slot == self.slot,
            desc.layout@ == self.layout@,
    {
        VertexBufferDesc { slot: self.slot, layout: self.layout.clone() }
    }
}

/// Geometry to upload: what its resources are, without the resources.
#[derive(Debug)]
pub struct MeshDesc {
    /// Vertex buffers, each tagged with its slot.
    pub vertex_buffers: BufferDescs,
    /// The format of the index buffer, for an indexed draw.
    pub index_format: Option<IndexFormat>,
    /// Index count for an indexed draw, vertex count otherwise.
    pub count: u32,
    /// Whether draws of this mesh are indexed.
    pub indexed: bool,
    /// The mesh's local-space bounding box.
    pub aabb: Aabb,
    /// Whether the mesh has a bind group of its own.
    pub bind_group: bool,
    /// Whether the bind group reads a mesh-info uniform.
    pub mesh_info: bool,
    /// How many morph targets the bind group reads displacements of, if any.
    pub morph_targets: Option<u32>,
}

/// What a list of vertex buffers describes: each buffer's slot and layout.
pub open spec fn buffers_view(buffers: Seq<VertexBufferDesc>) -> Seq<(u32, LayoutModel)> {
    buffers.map_values(|buffer: VertexBufferDesc| (buffer.slot, buffer.layout@))
}

impl Clone for MeshDesc {
    fn clone(&self) -> (desc: Self)
        ensures
            buffers_view(crate::collections::descs_of(desc.vertex_buffers)) == buffers_view(
                crate::collections::descs_of(self.vertex_buffers),
            ),
            desc.index_format == self.index_format,
            desc.count == self.count,
            desc.indexed == self.indexed,
            desc.aabb == self.aabb,
            desc.bind_group == self.bind_group,
            desc.mesh_info == self.mesh_info,
            desc.morph_targets == self.morph_targets,
    {
        let ghost target = buffers_view(crate::collections::descs_of(self.vertex_buffers));
        let mut vertex_buffers = no_descs();
        let count = desc_count(&self.vertex_buffers);
        let mut i: usize = 0;
        assert(buffers_view(crate::collections::descs_of(vertex_buffers)) =~= target.take(0));
        while i < count
            invariant
                i <= count <= MAX_VERTEX_BUFFERS,
                count == crate::collections::descs_of(self.vertex_buffers).len(),
                target == buffers_view(crate::collections::descs_of(self.vertex_buffers)),
                crate::collections::descs_of(vertex_buffers).len() == i,
                buffers_view(crate::collections::descs_of(vertex_buffers)) == target.take(i as int),
            decreases count - i,
        {
            let ghost before = crate::collections::descs_of(vertex_buffers);
            push_desc(&mut vertex_buffers, desc_at(&self.vertex_buffers, i).clone());
            i = i + 1;
            assert(buffers_view(crate::collections::descs_of(vertex_buffers)) =~= buffers_view(
                before,
            ).push(target[i - 1]));
            assert(buffers_view(crate::collections::descs_of(vertex_buffers)) =~= target.take(
                i as int,
            ));
        }
        assert(target.take(i as int) =~= target);
        MeshDesc {
            vertex_buffers,
            index_format: self.index_format,
            count: self.count,
            indexed: self.indexed,
            aabb: self.aabb,
            bind_group: self.bind_group,
            mesh_info: self.mesh_info,
            morph_targets: self.morph_targets,
        }
    }
}

impl Default for MeshDesc {
    fn default() -> (desc: Self)
        ensures
            crate::collections::descs_of(desc.vertex_buffers) == Seq::<VertexBufferDesc>::empty(),
            desc.index_format is None,
            desc.count == 0,
            !desc.indexed,
            desc.aabb == Aabb::at_origin(),
            !desc.bind_group,
            !desc.mesh_info,
            desc.morph_targets is None,
    {
        MeshDesc {
            vertex_buffers: no_descs(),
            index_format: None,
            count: 0,
            indexed: false,
            aabb: Aabb::at_origin(),
            bind_group: false,
            mesh_info: false,
            morph_targets: None,
        }
    }
}

/// An index takes the bytes its format says: sixteen bits or thirty-two.
pub proof fn law_an_index_takes_its_width(format: IndexFormat)
    ensures
        8 * index_format_size(format) == if format is Uint16 {
            16int
        } else {
            32int
        },
{
}

/// A stream that declares nothing takes no room and has no attribute.
pub proof fn law_an_empty_stream_declares_nothing()
    ensures
        LayoutModel::empty().array_stride == 0,
        LayoutModel::empty().attributes.len() == 0,
        LayoutModel::empty().step_mode is Vertex,
{
}

} // verus!
