//! Component types of a scene, and the handles they carry.

use vstd::prelude::*;

use crate::collections::{LayoutSlots, VertexSlots};
use crate::mesh::LayoutModel;
use crate::pipeline::copy_layout;
use crate::scene::copy_slots;
use crate::scalar::Scalar;
use wgpu::IndexFormat;

verus! {

/// The name of a resource in a resource graph.
#[derive(Clone, Copy, Debug, PartialEq, Eq, PartialOrd, Ord, Hash, Structural)]
pub struct ResourceId(pub u64);

/// The name of a range in a buffer pool, to hand it back with.
#[derive(Clone, Copy, Debug, PartialEq, Eq, Structural)]
pub struct Allocation(pub u64);

/// An axis-aligned bounding box in a mesh's local space, as the numbers it is
/// uploaded with.
#[derive(Clone, Copy, Debug, PartialEq, Eq)]
pub struct Aabb {
    /// Center of the box.
    pub center: [Scalar; 3],
    /// Half-extents along each local axis.
    pub half_extents: [Scalar; 3],
}

impl Aabb {
    /// The box of no extent around the origin.
    #[verifier::allow_in_spec]
    pub fn at_origin() -> Aabb
        returns
            (Aabb {
                center: [Scalar(0), Scalar(0), Scalar(0)],
                half_extents: [Scalar(0), Scalar(0), Scalar(0)],
            }),
    {
        Aabb {
            center: [Scalar(0), Scalar(0), Scalar(0)],
            half_extents: [Scalar(0), Scalar(0), Scalar(0)],
        }
    }
}

impl Default for Aabb {
    fn default() -> (bounds: Self)
        ensures
            bounds == Aabb::at_origin(),
    {
        Aabb::at_origin()
    }
}

/// A handle to a mesh stored in the source's resource graph.
#[derive(Debug)]
pub struct GpuMesh {
    /// The mesh's virtual root node in the resource graph: the one node that
    /// keeps every part of the mesh alive.
    pub root: ResourceId,
    /// Vertex buffers, each tagged with its slot index.
    pub vertex_buffers: VertexSlots,
    /// The vertex layout of the draw, slot by slot. It may name a slot whose
    /// buffer the draw binds from the source rather than the mesh.
    pub vertex_layout: LayoutSlots,
    /// Index buffer, if the mesh is indexed.
    pub index_buffer: Option<(ResourceId, IndexFormat)>,
    /// Number of indices (indexed draw) or vertices (non-indexed draw).
    pub count: u32,
    /// Where the mesh's range starts inside the buffer it lives in: the first
    /// index for an indexed draw, and the first vertex for a non-indexed one.
    pub first: u32,
    /// Where the mesh's vertices start, in elements, for an indexed draw.
    pub base_vertex: u32,
    /// Whether to issue an indexed draw.
    pub indexed: bool,
    /// The mesh's local-space bounding box.
    pub aabb: Aabb,
    /// The mesh's vertex range in the pool it was allocated from, if it came
    /// from one.
    pub vertex_allocation: Option<Allocation>,
    /// The mesh's index range in the pool it was allocated from, if it came
    /// from one.
    pub index_allocation: Option<Allocation>,
    /// Index of the mesh's entry in the source's mesh-metadata array.
    pub metadata_index: u32,
    /// The mesh bind group, if the mesh was uploaded with one.
    pub bind_group_id: Option<ResourceId>,
    /// How many morph targets the mesh carries, zero when it has none. This, not
    /// the vertex layout, tells a draw's key that the mesh reads morph
    /// positions.
    pub morph_targets: u32,
    /// Whether the mesh's position stream carries joint indices and weights.
    pub skinned: bool,
}

/// What a [`GpuMesh`] holds: its lists as sequences, the rest as it is.
#[verifier::ext_equal]
pub struct MeshModel {
    /// The mesh's virtual root node.
    pub root: ResourceId,
    /// Vertex buffers, each tagged with its slot index.
    pub vertex_buffers: Seq<(u32, ResourceId)>,
    /// The vertex layout of the draw, slot by slot.
    pub vertex_layout: Seq<(u32, LayoutModel)>,
    /// Index buffer, if the mesh is indexed.
    pub index_buffer: Option<(ResourceId, IndexFormat)>,
    /// Number of indices or vertices.
    pub count: u32,
    /// The first index or vertex.
    pub first: u32,
    /// Where the mesh's vertices start.
    pub base_vertex: u32,
    /// Whether to issue an indexed draw.
    pub indexed: bool,
    /// The mesh's local-space bounding box.
    pub aabb: Aabb,
    /// The mesh's vertex range in a pool, if any.
    pub vertex_allocation: Option<Allocation>,
    /// The mesh's index range in a pool, if any.
    pub index_allocation: Option<Allocation>,
    /// Index of the mesh's metadata entry.
    pub metadata_index: u32,
    /// The mesh bind group, if any.
    pub bind_group_id: Option<ResourceId>,
    /// How many morph targets the mesh carries.
    pub morph_targets: u32,
    /// Whether the mesh's position stream carries joints.
    pub skinned: bool,
}

impl View for GpuMesh {
    type V = MeshModel;

    open spec fn view(&self) -> MeshModel {
        MeshModel {
            root: self.root,
            vertex_buffers: crate::collections::slots_of(self.vertex_buffers),
            vertex_layout: crate::pipeline::layout_view(
                crate::collections::layouts_of(self.vertex_layout),
            ),
            index_buffer: self.index_buffer,
            count: self.count,
            first: self.first,
            base_vertex: self.base_vertex,
            indexed: self.indexed,
            aabb: self.aabb,
            vertex_allocation: self.vertex_allocation,
            index_allocation: self.index_allocation,
            metadata_index: self.metadata_index,
            bind_group_id: self.bind_group_id,
            morph_targets: self.morph_targets,
            skinned: self.skinned,
        }
    }
}

impl Clone for GpuMesh {
    fn clone(&self) -> (mesh: Self)
        ensures
            mesh@ == self@,
    {
        GpuMesh {
            root: self.root,
            vertex_buffers: copy_slots(&self.vertex_buffers),
            vertex_layout: copy_layout(&self.vertex_layout),
            index_buffer: self.index_buffer,
            count: self.count,
            first: self.first,
            base_vertex: self.base_vertex,
            indexed: self.indexed,
            aabb: self.aabb,
            vertex_allocation: self.vertex_allocation,
            index_allocation: self.index_allocation,
            metadata_index: self.metadata_index,
            bind_group_id: self.bind_group_id,
            morph_targets: self.morph_targets,
            skinned: self.skinned,
        }
    }
}

/// Names the pose entity a mesh is drawn with.
#[derive(Clone, Copy, Debug, PartialEq, Eq)]
pub struct SkinBinding<E> {
    /// The entity carrying the pose this mesh is drawn with.
    pub pose: E,
}

impl<E> SkinBinding<E> {
    /// Bind a mesh to the pose on `pose`.
    pub fn new(pose: E) -> (binding: Self)
        ensures
            binding.pose == pose,
    {
        SkinBinding { pose }
    }
}

/// Names the morph-weights entity a mesh is drawn with.
#[derive(Clone, Copy, Debug, PartialEq, Eq)]
pub struct MorphBinding<E> {
    /// The entity carrying the weights this mesh is drawn with.
    pub weights: E,
}

impl<E> MorphBinding<E> {
    /// Bind a mesh to the weights on `weights`.
    pub fn new(weights: E) -> (binding: Self)
        ensures
            binding.weights == weights,
    {
        MorphBinding { weights }
    }
}

/// The per-entity request for one family's variant.
///
/// It carries a key rather than a compiled pipeline: which concrete pipeline an
/// entity needs depends on the frame's render target and on the entity's vertex
/// layout, neither of which is known when the component is created.
#[derive(Clone, Debug, PartialEq, Eq, Hash)]
pub struct GpuPipeline<Key> {
    key: Key,
}

impl<Key> GpuPipeline<Key> {
    /// The key the component carries.
    pub closed spec fn carried(self) -> Key {
        self.key
    }

    /// A pipeline component carrying `key`.
    pub fn new(key: Key) -> (pipeline: Self)
        ensures
            pipeline.carried() == key,
    {
        GpuPipeline { key }
    }

    /// The entity's pipeline key.
    pub fn key(&self) -> (key: &Key)
        ensures
            *key == self.carried(),
    {
        &self.key
    }
}

/// A handle to a material bind group in the source's resource graph.
#[derive(Clone, Copy, Debug)]
pub struct GpuMaterial {
    /// The material bind group.
    pub bind_group_id: ResourceId,
}

impl GpuMaterial {
    /// A stable key that groups draws sharing this material.
    ///
    /// Equal keys mean the same material, so the order of the graph's indices
    /// is all the ordering the sort needs.
    #[verifier::allow_in_spec]
    pub fn sort_key(&self) -> u64
        returns
            self.bind_group_id.0,
    {
        self.bind_group_id.0
    }
}

/// Marker for entities whose draw order decides how they look.
///
/// Entities with this component are drawn after the ones without it and sorted
/// back-to-front by camera distance. The marker only orders draws: it selects
/// no pipeline and changes no blend state.
#[derive(Clone, Copy, Debug, PartialEq, Eq)]
pub struct ZSortedDrawing;

impl Default for ZSortedDrawing {
    fn default() -> (marker: Self)
        ensures
            marker == ZSortedDrawing,
    {
        ZSortedDrawing
    }
}

/// Draws group by material: two materials have one key exactly when they are
/// one bind group.
pub proof fn law_a_sort_key_names_the_material(a: GpuMaterial, b: GpuMaterial)
    ensures
        a.sort_key() == b.sort_key() <==> a.bind_group_id == b.bind_group_id,
{
}

} // verus!
