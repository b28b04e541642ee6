//! The built-in mesh source: the 3D half of a frame.
//!
//! [`MeshSource`] keeps the books of the mesh path: the graph nodes of the
//! buffers it shares, the metadata array, the capacity of its per-frame
//! buffers, the pipelines it registered and the nodes of the vertex pool. Each
//! method decides what is to be done and how the books change; the resources
//! themselves are created and written by the caller.

use vstd::prelude::*;

use crate::collections::{
    no_descs, no_layouts, no_slots, push_layout, push_slot, LayoutNodes,
};
use crate::components::{Aabb, Allocation, GpuMesh, MeshModel, ResourceId};
use crate::indices::first_index;
use crate::mesh::{LayoutModel, MeshDesc, VertexBufferLayoutDesc};
use crate::metadata::{grow_instances, MetadataArray, MetadataModel, MetadataUpload};
use crate::pipeline::RegisteredPipelines;
use crate::scene::{assemble_scene, DrawEntry, EntryHandles, VisibleEntry};
use crate::source::{FrameOrder, FrameSource, RenderContext};
use crate::upload::finish_mesh;
use wgpu::IndexFormat;

verus! {

/// How many bytes the index pool starts with.
pub const INITIAL_INDEX_BYTES: u64 = 4096;

/// How many elements the vertex pool starts with.
pub const INITIAL_VERTEX_ELEMENTS: u32 = 1024;

/// What a buffer the source creates is for.
#[derive(Clone, Copy, Debug, PartialEq, Eq, Structural)]
pub enum BufferRole {
    /// The camera uniform.
    Camera,
    /// The frame-globals uniform.
    Globals,
    /// The mesh-metadata storage buffer.
    Metadata,
    /// The buffer every indexed mesh keeps its indices in.
    IndexPool,
}

/// A buffer the source starts with.
#[derive(Clone, Copy, Debug, PartialEq, Eq, Structural)]
pub struct BufferPlan {
    /// What the buffer is for.
    pub role: BufferRole,
    /// Its size in bytes.
    pub size: u64,
}

/// The buffers a source starts with, in the order they enter the graph.
pub open spec fn starting_buffers(
    view_size: u64,
    globals_size: u64,
    metadata_size: u64,
) -> Seq<BufferPlan> {
    seq![
        BufferPlan { role: BufferRole::Camera, size: view_size },
        BufferPlan { role: BufferRole::Globals, size: globals_size },
        BufferPlan { role: BufferRole::Metadata, size: metadata_size },
        BufferPlan { role: BufferRole::IndexPool, size: INITIAL_INDEX_BYTES },
    ]
}

/// The buffers a source starts with, in the order they enter the graph, given
/// the sizes of the camera and globals uniforms and of one metadata entry.
pub fn initial_buffers(view_size: u64, globals_size: u64, metadata_size: u64) -> (plan: Vec<
    BufferPlan,
>)
    ensures
        plan@ == starting_buffers(view_size, globals_size, metadata_size),
        plan@ == seq![
            BufferPlan { role: BufferRole::Camera, size: view_size },
            BufferPlan { role: BufferRole::Globals, size: globals_size },
            BufferPlan { role: BufferRole::Metadata, size: metadata_size },
            BufferPlan { role: BufferRole::IndexPool, size: INITIAL_INDEX_BYTES },
        ],
{
    let mut plan: Vec<BufferPlan> = Vec::new();
    plan.push(BufferPlan { role: BufferRole::Camera, size: view_size });
    plan.push(BufferPlan { role: BufferRole::Globals, size: globals_size });
    plan.push(BufferPlan { role: BufferRole::Metadata, size: metadata_size });
    plan.push(BufferPlan { role: BufferRole::IndexPool, size: INITIAL_INDEX_BYTES });
    plan
}

/// The vertex-buffer slots the unlit shader declares.
#[derive(Clone, Copy, Debug, PartialEq, Eq, Structural)]
pub struct UnlitSlots {
    /// The slot of the position stream.
    pub position: u32,
    /// The slot of the interleaved UV-and-color stream.
    pub uv_color: u32,
    /// The slot of the per-instance stream.
    pub instance: u32,
}

/// The layout `layouts` declares for `slot`, or that of an empty stream where
/// it declares none.
pub open spec fn declared_layout(
    layouts: Seq<Option<VertexBufferLayoutDesc>>,
    slot: u32,
) -> LayoutModel {
    if slot < layouts.len() {
        match layouts[slot as int] {
            Some(layout) => layout@,
            None => LayoutModel::empty(),
        }
    } else {
        LayoutModel::empty()
    }
}

/// The layout `layouts` declares for `slot`, or that of an empty stream where
/// it declares none.
pub fn layout_of(layouts: &Vec<Option<VertexBufferLayoutDesc>>, slot: u32) -> (layout:
    VertexBufferLayoutDesc)
    ensures
        layout@ == declared_layout(layouts@, slot),
{
    if (slot as usize) < layouts.len() {
        match &layouts[slot as usize] {
            Some(layout) => layout.clone(),
            None => VertexBufferLayoutDesc::empty(),
        }
    } else {
        VertexBufferLayoutDesc::empty()
    }
}

/// One of the two streams a mesh keeps in the vertex pool.
#[derive(Clone, Copy, Debug, PartialEq, Eq, Structural)]
pub enum Stream {
    /// The positions.
    Position,
    /// The UVs and colors.
    UvColor,
}

/// The streams of a mesh that are written, given the strides of the two.
pub open spec fn streams_of(position_stride: u64, uv_color_stride: u64) -> Seq<Stream> {
    crate::upload::maybe(position_stride > 0, Stream::Position) + crate::upload::maybe(
        uv_color_stride > 0,
        Stream::UvColor,
    )
}

/// The streams of a mesh that are written, in order: those the variant declares
/// something for.
pub fn written_streams(
    position: &VertexBufferLayoutDesc,
    uv_color: &VertexBufferLayoutDesc,
) -> (streams: Vec<Stream>)
    ensures
        streams@ == streams_of(position.array_stride, uv_color.array_stride),
        streams@ == crate::upload::maybe(position.array_stride > 0, Stream::Position)
            + crate::upload::maybe(uv_color.array_stride > 0, Stream::UvColor),
{
    let mut streams: Vec<Stream> = Vec::new();
    if position.array_stride > 0 {
        streams.push(Stream::Position);
    }
    assert(streams@ =~= crate::upload::maybe(position.array_stride > 0, Stream::Position));
    if uv_color.array_stride > 0 {
        streams.push(Stream::UvColor);
    }
    assert(streams@ =~= crate::upload::maybe(position.array_stride > 0, Stream::Position)
        + crate::upload::maybe(uv_color.array_stride > 0, Stream::UvColor));
    streams
}

/// A mesh's indices, once the index pool has them.
#[derive(Clone, Copy, Debug)]
pub struct PooledIndices {
    /// The width each index is stored at.
    pub format: IndexFormat,
    /// How many indices there are.
    pub count: u32,
    /// The byte of the pool they start at.
    pub offset: u32,
    /// The range they take, to hand back.
    pub allocation: Allocation,
}

/// A mesh in the layout of the unlit shader, once its streams and indices are
/// in the pools.
#[derive(Debug)]
pub struct UnlitUpload {
    /// How many vertices the mesh has.
    pub vertex_count: u32,
    /// The mesh's indices, for an indexed mesh.
    pub indices: Option<PooledIndices>,
    /// The slots the shader declares.
    pub slots: UnlitSlots,
    /// The layout of the position stream.
    pub position: VertexBufferLayoutDesc,
    /// The layout of the UV-and-color stream.
    pub uv_color: VertexBufferLayoutDesc,
    /// The layout of the per-instance stream.
    pub instance: VertexBufferLayoutDesc,
    /// The pool's node for the position stream.
    pub position_node: ResourceId,
    /// The pool's node for the UV-and-color stream.
    pub uv_color_node: ResourceId,
    /// The element the mesh's vertices start at in the pool.
    pub vertex_offset: u32,
    /// The elements they take, to hand back.
    pub vertex_allocation: Allocation,
    /// The mesh's local-space bounding box.
    pub aabb: Aabb,
    /// How many morph targets the mesh has, if any.
    pub morph_targets: Option<u32>,
    /// Whether the position stream carries joints.
    pub skinned: bool,
}

impl UnlitUpload {
    /// The parts of the mesh that are its own, and not the pools': the bind
    /// group and what it reads.
    pub open spec fn own_shape(self) -> crate::upload::MeshShape {
        crate::upload::MeshShape {
            vertex_buffers: 0,
            index: false,
            mesh_info: true,
            morph: self.morph_targets is Some,
            bind_group: true,
        }
    }

    /// The mesh this upload became, whose own nodes got `ids` and which took
    /// the metadata slot `metadata_index`, with its indices in the pool behind
    /// `index_pool`.
    ///
    /// The instance slot is declared although its buffer is the source's, so
    /// that a draw's key implies it; a stream the variant declares nothing for
    /// is left out.
    pub open spec fn mesh(
        self,
        ids: Seq<ResourceId>,
        metadata_index: u32,
        index_pool: ResourceId,
    ) -> MeshModel {
        MeshModel {
            root: ids[self.own_shape().root_at()],
            vertex_buffers: crate::upload::maybe(
                self.position.array_stride > 0,
                (self.slots.position, self.position_node),
            ) + crate::upload::maybe(
                self.uv_color.array_stride > 0,
                (self.slots.uv_color, self.uv_color_node),
            ),
            vertex_layout: seq![(self.slots.instance, self.instance@)] + crate::upload::maybe(
                self.position.array_stride > 0,
                (self.slots.position, self.position@),
            ) + crate::upload::maybe(
                self.uv_color.array_stride > 0,
                (self.slots.uv_color, self.uv_color@),
            ),
            index_buffer: match self.indices {
                Some(indices) => Some((index_pool, indices.format)),
                None => None,
            },
            count: match self.indices {
                Some(indices) => indices.count,
                None => self.vertex_count,
            },
            first: match self.indices {
                Some(indices) => first_index(indices.offset, indices.format),
                None => self.vertex_offset,
            },
            base_vertex: self.vertex_offset,
            indexed: self.indices is Some,
            aabb: self.aabb,
            vertex_allocation: Some(self.vertex_allocation),
            index_allocation: match self.indices {
                Some(indices) => Some(indices.allocation),
                None => None,
            },
            metadata_index,
            bind_group_id: Some(ids[self.own_shape().group_at()]),
            morph_targets: match self.morph_targets {
                Some(targets) => targets,
                None => 0,
            },
            skinned: self.skinned,
        }
    }
}

/// What removing a mesh hands back.
#[derive(Clone, Copy, Debug, PartialEq, Eq)]
pub struct Removal {
    /// The node to remove; what it leaves behind is then collected.
    pub root: ResourceId,
    /// The elements to hand back to the vertex pool, if any.
    pub vertex_allocation: Option<Allocation>,
    /// The range to hand back to the index pool, if any.
    pub index_allocation: Option<Allocation>,
}

/// What removing `mesh` hands back.
pub open spec fn removal_of(mesh: MeshModel) -> Removal {
    Removal {
        root: mesh.root,
        vertex_allocation: mesh.vertex_allocation,
        index_allocation: mesh.index_allocation,
    }
}

/// A material to build: what its bind group reads, in binding order.
#[derive(Clone, Copy, Debug, PartialEq, Eq, Structural)]
pub struct MaterialPlan {
    /// The base-color texture view.
    pub view: ResourceId,
    /// The base-color sampler.
    pub sampler: ResourceId,
}

/// The material of a variant with `flags`, if it reads a base-color texture.
pub open spec fn unlit_material(
    flags: u32,
    base_color_texture: u32,
    view: ResourceId,
    sampler: ResourceId,
) -> Option<MaterialPlan> {
    if flags & base_color_texture == base_color_texture {
        Some(MaterialPlan { view, sampler })
    } else {
        None
    }
}

/// The material of an unlit variant with `flags`, read through `view` and
/// `sampler`, or `None` for a variant that reads no base-color texture and so
/// binds no material group.
pub fn allocate_unlit_material(
    flags: u32,
    base_color_texture: u32,
    view: ResourceId,
    sampler: ResourceId,
) -> (plan: Option<MaterialPlan>)
    ensures
        plan == unlit_material(flags, base_color_texture, view, sampler),
        plan is Some <==> flags & base_color_texture == base_color_texture,
        plan matches Some(plan) ==> plan.view == view && plan.sampler == sampler,
{
    if flags & base_color_texture == base_color_texture {
        Some(MaterialPlan { view, sampler })
    } else {
        None
    }
}

impl MaterialPlan {
    /// The resources the material's group depends on.
    pub open spec fn reads(self) -> Seq<ResourceId> {
        seq![self.view, self.sampler]
    }

    /// The resources the material's group depends on, so that replacing either
    /// marks it dirty.
    pub fn dependencies(&self) -> (dependencies: Vec<ResourceId>)
        ensures
            dependencies@ == self.reads(),
            dependencies@ == seq![self.view, self.sampler],
    {
        let mut dependencies: Vec<ResourceId> = Vec::new();
        dependencies.push(self.view);
        dependencies.push(self.sampler);
        dependencies
    }
}

/// One thing a source does while it builds a frame.
#[derive(Clone, Copy, Debug, PartialEq, Eq, Structural)]
pub enum FrameStep {
    /// Recreate the metadata buffer to hold this many entries.
    GrowMetadata(u32),
    /// Write the metadata array.
    UploadMetadata,
    /// Rebuild the global bind groups whose buffers changed.
    RebuildGlobalGroups,
    /// Advance the frame globals and write them.
    UploadGlobals,
    /// Write the camera.
    UploadCamera,
    /// Cull, resolve and sort the visible entities.
    CollectVisible,
    /// Recreate the instance buffer to hold this many instances.
    GrowInstances(u32),
    /// Pack and write the poses of the instances.
    UploadPoses,
    /// Pack and write the instances.
    UploadInstances,
    /// Assemble the draws.
    AssembleFrame,
}

/// The steps that publish a metadata array.
pub open spec fn metadata_steps<M>(array: MetadataModel<M>) -> Seq<FrameStep> {
    if !array.dirty {
        Seq::empty()
    } else {
        match array.growth() {
            Some(capacity) => seq![
                FrameStep::GrowMetadata(capacity),
                FrameStep::RebuildGlobalGroups,
                FrameStep::UploadMetadata,
            ],
            None => seq![FrameStep::UploadMetadata],
        }
    }
}

/// The steps that start a frame: a changed metadata array is published on every
/// path, and the rest needs a camera to view from and a target to draw into.
pub open spec fn opening_steps<M>(
    array: MetadataModel<M>,
    has_camera: bool,
    has_target: bool,
) -> Seq<FrameStep> {
    metadata_steps(array) + if has_camera && has_target {
        seq![
            FrameStep::UploadGlobals,
            FrameStep::UploadCamera,
            FrameStep::RebuildGlobalGroups,
            FrameStep::CollectVisible,
        ]
    } else {
        Seq::empty()
    }
}

/// The steps that finish a frame with `count` visible entities: none where
/// nothing is visible.
pub open spec fn closing_steps(capacity: u32, count: u32) -> Seq<FrameStep> {
    if count == 0 {
        Seq::empty()
    } else {
        (match crate::metadata::instance_growth(capacity, count) {
            Some(grown) => seq![FrameStep::GrowInstances(grown)],
            None => Seq::empty(),
        }) + seq![FrameStep::UploadPoses, FrameStep::UploadInstances, FrameStep::AssembleFrame]
    }
}

/// The built-in mesh renderer, as one frame source.
///
/// `E` is what names an entity, `M` one metadata entry.
pub struct MeshSource<E, M> {
    context: RenderContext<E>,
    camera_buf: ResourceId,
    globals_buf: ResourceId,
    metadata_buf: ResourceId,
    index_pool_id: ResourceId,
    metadata: MetadataArray<M>,
    instance_capacity: u32,
    vertex_pool_ids: LayoutNodes,
    pipelines: RegisteredPipelines,
    scene: Vec<DrawEntry>,
}

/// What a [`MeshSource`] keeps track of.
#[verifier::ext_equal]
pub struct SourceModel<E, M> {
    /// The world addresses of the frame's GPU state.
    pub context: RenderContext<E>,
    /// The camera uniform buffer.
    pub camera_buf: ResourceId,
    /// The frame-globals uniform buffer.
    pub globals_buf: ResourceId,
    /// The mesh-metadata storage buffer.
    pub metadata_buf: ResourceId,
    /// The index pool's buffer.
    pub index_pool_id: ResourceId,
    /// The metadata array.
    pub metadata: MetadataModel<M>,
    /// How many instances the instance buffer holds.
    pub instance_capacity: u32,
    /// The node of each of the vertex pool's buffers, by the code of the layout
    /// it is shaped for.
    pub vertex_nodes: Map<Seq<u64>, u64>,
    /// The global bind group of each registered pipeline.
    pub pipelines: Seq<Option<ResourceId>>,
    /// The draws of the frame last built.
    pub scene: Seq<DrawEntry>,
}

impl<E, M> SourceModel<E, M> {
    /// A source that has drawn nothing yet, over `buffers`.
    pub open spec fn started(context: RenderContext<E>, buffers: SourceBuffers) -> SourceModel<
        E,
        M,
    > {
        SourceModel {
            context,
            camera_buf: buffers.camera,
            globals_buf: buffers.globals,
            metadata_buf: buffers.metadata,
            index_pool_id: buffers.index_pool,
            metadata: MetadataModel::initial(),
            instance_capacity: 0,
            vertex_nodes: Map::empty(),
            pipelines: Seq::empty(),
            scene: Seq::empty(),
        }
    }

    /// The buffers of the source.
    pub open spec fn buffers(self) -> SourceBuffers {
        SourceBuffers {
            camera: self.camera_buf,
            globals: self.globals_buf,
            metadata: self.metadata_buf,
            index_pool: self.index_pool_id,
        }
    }

    /// The source once `layout` has a buffer in the vertex pool.
    pub open spec fn with_vertex_node(self, layout: LayoutModel, node: ResourceId) -> SourceModel<
        E,
        M,
    > {
        SourceModel { vertex_nodes: self.vertex_nodes.insert(layout.code(), node.0), ..self }
    }

    /// The source once a frame started.
    pub open spec fn opened(self) -> SourceModel<E, M> {
        SourceModel { metadata: self.metadata.uploaded(), scene: Seq::empty(), ..self }
    }

    /// The source once its instance buffer holds `count` instances.
    pub open spec fn closed_with(self, count: u32) -> SourceModel<E, M> {
        SourceModel {
            instance_capacity: match crate::metadata::instance_growth(
                self.instance_capacity,
                count,
            ) {
                Some(grown) => grown,
                None => self.instance_capacity,
            },
            ..self
        }
    }

    /// The buffers a pipeline's global bind group is built from.
    pub open spec fn global_reads(self) -> Seq<ResourceId> {
        seq![self.camera_buf, self.globals_buf, self.metadata_buf]
    }

    /// The node of the vertex pool's buffer for `layout`, if it has one yet.
    pub open spec fn vertex_node(self, layout: LayoutModel) -> Option<ResourceId> {
        if self.vertex_nodes.contains_key(layout.code()) {
            Some(ResourceId(self.vertex_nodes[layout.code()]))
        } else {
            None
        }
    }
}

impl<E, M> View for MeshSource<E, M> {
    type V = SourceModel<E, M>;

    closed spec fn view(&self) -> SourceModel<E, M> {
        SourceModel {
            context: self.context,
            camera_buf: self.camera_buf,
            globals_buf: self.globals_buf,
            metadata_buf: self.metadata_buf,
            index_pool_id: self.index_pool_id,
            metadata: self.metadata@,
            instance_capacity: self.instance_capacity,
            vertex_nodes: crate::collections::nodes_of(self.vertex_pool_ids),
            pipelines: self.pipelines@,
            scene: self.scene@,
        }
    }
}

/// The graph nodes of the buffers a source starts with, in the order of
/// [`initial_buffers`].
#[derive(Clone, Copy, Debug, PartialEq, Eq)]
pub struct SourceBuffers {
    /// The camera uniform buffer.
    pub camera: ResourceId,
    /// The frame-globals uniform buffer.
    pub globals: ResourceId,
    /// The mesh-metadata storage buffer.
    pub metadata: ResourceId,
    /// The index pool's buffer.
    pub index_pool: ResourceId,
}

/// The bindings the unlit shader declares in its global group.
#[derive(Clone, Copy, Debug, PartialEq, Eq, Structural)]
pub struct GlobalBindings {
    /// The binding of the camera uniform.
    pub camera: u32,
    /// The binding of the frame-globals uniform.
    pub frame: u32,
    /// The binding of the mesh-metadata buffer.
    pub mesh_metadata: u32,
}

impl SourceBuffers {
    /// What the unlit shader's global group binds.
    pub open spec fn bound(self, bindings: GlobalBindings, needs_metadata: bool) -> Seq<
        (u32, ResourceId),
    > {
        seq![(bindings.camera, self.camera), (bindings.frame, self.globals)]
            + crate::upload::maybe(needs_metadata, (bindings.mesh_metadata, self.metadata))
    }

    /// What the unlit shader's global group binds, each resource tagged with
    /// its binding: the camera, the frame globals and, for a variant that
    /// reads a compressed channel, the metadata.
    pub fn global_entries(&self, bindings: GlobalBindings, needs_metadata: bool) -> (entries: Vec<
        (u32, ResourceId),
    >)
        ensures
            entries@ == self.bound(bindings, needs_metadata),
            entries@ == seq![
                (bindings.camera, self.camera),
                (bindings.frame, self.globals),
            ] + crate::upload::maybe(
                needs_metadata,
                (bindings.mesh_metadata, self.metadata),
            ),
    {
        let mut entries: Vec<(u32, ResourceId)> = Vec::new();
        entries.push((bindings.camera, self.camera));
        entries.push((bindings.frame, self.globals));
        if needs_metadata {
            entries.push((bindings.mesh_metadata, self.metadata));
        }
        assert(entries@ =~= seq![
            (bindings.camera, self.camera),
            (bindings.frame, self.globals),
        ] + crate::upload::maybe(needs_metadata, (bindings.mesh_metadata, self.metadata)));
        entries
    }
}

impl<E: Copy, M> MeshSource<E, M> {
    /// A source over the buffers it starts with: no meshes, no pipelines, no
    /// vertex streams, room for one metadata entry and for no instance.
    pub fn new(context: RenderContext<E>, buffers: SourceBuffers) -> (source: Self)
        ensures
            source@ == SourceModel::<E, M>::started(context, buffers),
            source@ == (SourceModel {
                context,
                camera_buf: buffers.camera,
                globals_buf: buffers.globals,
                metadata_buf: buffers.metadata,
                index_pool_id: buffers.index_pool,
                metadata: MetadataModel {
                    entries: Seq::<M>::empty(),
                    free: Seq::<u32>::empty(),
                    capacity: 1,
                    dirty: false,
                },
                instance_capacity: 0,
                vertex_nodes: Map::empty(),
                pipelines: Seq::empty(),
                scene: Seq::empty(),
            }),
            source@.metadata.wf(),
            source@.metadata.frees_distinct(),
    {
        MeshSource {
            context,
            camera_buf: buffers.camera,
            globals_buf: buffers.globals,
            metadata_buf: buffers.metadata,
            index_pool_id: buffers.index_pool,
            metadata: MetadataArray::new(),
            instance_capacity: 0,
            vertex_pool_ids: LayoutNodes::new(),
            pipelines: RegisteredPipelines::new(),
            scene: Vec::new(),
        }
    }

    /// The world addresses this source draws through.
    pub fn context(&self) -> (context: RenderContext<E>)
        ensures
            context == self@.context,
    {
        self.context
    }

    /// The graph nodes of the source's buffers.
    pub fn buffers(&self) -> (buffers: SourceBuffers)
        ensures
            buffers == self@.buffers(),
            buffers == (SourceBuffers {
                camera: self@.camera_buf,
                globals: self@.globals_buf,
                metadata: self@.metadata_buf,
                index_pool: self@.index_pool_id,
            }),
    {
        SourceBuffers {
            camera: self.camera_buf,
            globals: self.globals_buf,
            metadata: self.metadata_buf,
            index_pool: self.index_pool_id,
        }
    }

    /// The buffers a pipeline's global bind group is built from, in dependency
    /// order: a rebuild of any of them marks the group dirty.
    pub fn global_dependencies(&self) -> (dependencies: Vec<ResourceId>)
        ensures
            dependencies@ == self@.global_reads(),
            dependencies@ == seq![self@.camera_buf, self@.globals_buf, self@.metadata_buf],
    {
        let mut dependencies: Vec<ResourceId> = Vec::new();
        dependencies.push(self.camera_buf);
        dependencies.push(self.globals_buf);
        dependencies.push(self.metadata_buf);
        dependencies
    }

    /// The metadata array.
    pub fn metadata(&self) -> (metadata: &MetadataArray<M>)
        ensures
            metadata@ == self@.metadata,
    {
        &self.metadata
    }

    /// How many instances the instance buffer holds.
    pub fn instance_capacity(&self) -> (capacity: u32)
        ensures
            capacity == self@.instance_capacity,
    {
        self.instance_capacity
    }

    /// The registered pipelines.
    pub fn pipelines(&self) -> (pipelines: &RegisteredPipelines)
        ensures
            pipelines@ == self@.pipelines,
    {
        &self.pipelines
    }

    /// The registered pipelines, to register into.
    pub fn pipelines_mut(&mut self) -> (pipelines: &mut RegisteredPipelines)
        ensures
            pipelines@ == old(self)@.pipelines,
            final(self)@ == (SourceModel { pipelines: final(pipelines)@, ..old(self)@ }),
    {
        &mut self.pipelines
    }

    /// The handle of a mesh whose nodes the graph gave `ids`, in the order of
    /// [`upload_plan`](crate::upload::upload_plan), and which takes a metadata
    /// slot for `metadata`.
    ///
    /// The entry is owned whether or not the pipeline reads it, and reaches the
    /// GPU with the next frame. A mesh with vertex buffers draws something.
    pub fn allocate_mesh_with_metadata(
        &mut self,
        desc: &MeshDesc,
        ids: &Vec<ResourceId>,
        metadata: M,
    ) -> (mesh: GpuMesh)
        requires
            old(self)@.metadata.wf(),
            old(self)@.metadata.entries.len() < u32::MAX,
            desc.count > 0 || crate::collections::descs_of(desc.vertex_buffers).len() == 0,
            ids@.len() == crate::upload::shape_of(*desc).inserts().len(),
        ensures
            mesh@ == crate::upload::built_mesh(*desc, ids@, old(self)@.metadata.next_slot()),
            mesh@.aabb == desc.aabb,
            mesh@.count == desc.count,
            mesh@.indexed == desc.indexed,
            mesh@.metadata_index == old(self)@.metadata.next_slot(),
            final(self)@ == (SourceModel {
                metadata: old(self)@.metadata.allocated(metadata),
                ..old(self)@
            }),
            final(self)@.metadata.wf(),
    {
        let slot = self.metadata.allocate(metadata);
        finish_mesh(desc, ids, slot)
    }

    /// The handle of a mesh in the layout of the unlit shader, whose streams
    /// and indices are in the pools and whose own nodes the graph gave `ids`.
    pub fn allocate_unlit_mesh(
        &mut self,
        upload: &UnlitUpload,
        ids: &Vec<ResourceId>,
        metadata: M,
    ) -> (mesh: GpuMesh)
        requires
            old(self)@.metadata.wf(),
            old(self)@.metadata.entries.len() < u32::MAX,
            ids@.len() == upload.own_shape().inserts().len(),
            // A draw's base vertex is a signed number.
            upload.vertex_offset <= i32::MAX,
        ensures
            mesh@ == upload.mesh(
                ids@,
                old(self)@.metadata.next_slot(),
                old(self)@.index_pool_id,
            ),
            mesh@.aabb == upload.aabb,
            mesh@.skinned == upload.skinned,
            mesh@.morph_targets == match upload.morph_targets {
                Some(targets) => targets,
                None => 0,
            },
            mesh@.metadata_index == old(self)@.metadata.next_slot(),
            final(self)@ == (SourceModel {
                metadata: old(self)@.metadata.allocated(metadata),
                ..old(self)@
            }),
            final(self)@.metadata.wf(),
    {
        let (count, indexed) = match &upload.indices {
            Some(indices) => (indices.count, true),
            None => (upload.vertex_count, false),
        };
        // The streams and indices are the pools', not the mesh's own: the mesh
        // names the pools' nodes and its own ranges.
        let desc = MeshDesc {
            vertex_buffers: no_descs(),
            index_format: None,
            count,
            indexed,
            aabb: upload.aabb,
            bind_group: true,
            mesh_info: true,
            morph_targets: upload.morph_targets,
        };
        assert(crate::upload::shape_of(desc) == upload.own_shape());
        let mut mesh = self.allocate_mesh_with_metadata(&desc, ids, metadata);
        let ghost slot = mesh.metadata_index;
        let mut vertex_buffers = no_slots();
        let mut vertex_layout = no_layouts();
        push_layout(&mut vertex_layout, upload.slots.instance, upload.instance.clone());
        let ghost layout0 = crate::pipeline::layout_view(
            crate::collections::layouts_of(vertex_layout),
        );
        assert(layout0 =~= seq![(upload.slots.instance, upload.instance@)]);
        if upload.position.array_stride > 0 {
            push_layout(&mut vertex_layout, upload.slots.position, upload.position.clone());
            push_slot(&mut vertex_buffers, upload.slots.position, upload.position_node);
            assert(crate::pipeline::layout_view(
            crate::collections::layouts_of(vertex_layout),
        ) =~= layout0.push(
                (upload.slots.position, upload.position@),
            ));
        }
        let ghost layout1 = crate::pipeline::layout_view(
            crate::collections::layouts_of(vertex_layout),
        );
        assert(layout1 =~= layout0 + crate::upload::maybe(
            upload.position.array_stride > 0,
            (upload.slots.position, upload.position@),
        ));
        assert(crate::collections::slots_of(vertex_buffers) =~= crate::upload::maybe(
            upload.position.array_stride > 0,
            (upload.slots.position, upload.position_node),
        ));
        if upload.uv_color.array_stride > 0 {
            push_layout(&mut vertex_layout, upload.slots.uv_color, upload.uv_color.clone());
            push_slot(&mut vertex_buffers, upload.slots.uv_color, upload.uv_color_node);
            assert(crate::pipeline::layout_view(
            crate::collections::layouts_of(vertex_layout),
        ) =~= layout1.push(
                (upload.slots.uv_color, upload.uv_color@),
            ));
        }
        assert(crate::pipeline::layout_view(
            crate::collections::layouts_of(vertex_layout),
        ) =~= layout1 + crate::upload::maybe(
            upload.uv_color.array_stride > 0,
            (upload.slots.uv_color, upload.uv_color@),
        ));
        mesh.vertex_buffers = vertex_buffers;
        mesh.vertex_layout = vertex_layout;
        match &upload.indices {
            Some(indices) => {
                mesh.index_buffer = Some((self.index_pool_id, indices.format));
                mesh.first = first_index(indices.offset, indices.format);
                mesh.index_allocation = Some(indices.allocation);
            },
            None => {
                mesh.first = upload.vertex_offset;
            },
        }
        mesh.base_vertex = upload.vertex_offset;
        mesh.vertex_allocation = Some(upload.vertex_allocation);
        mesh.skinned = upload.skinned;
        assert(mesh@ =~= upload.mesh(ids@, slot, self@.index_pool_id));
        mesh
    }

    /// Free `mesh`: its metadata slot, left holding `empty`, goes back to the
    /// array, and what else is to be freed is handed back.
    pub fn remove_mesh(&mut self, mesh: &GpuMesh, empty: M) -> (removal: Removal)
        requires
            old(self)@.metadata.wf(),
        ensures
            removal == removal_of(mesh@),
            removal.root == mesh@.root,
            removal.vertex_allocation == mesh@.vertex_allocation,
            removal.index_allocation == mesh@.index_allocation,
            final(self)@ == (SourceModel {
                metadata: old(self)@.metadata.removed(mesh@.metadata_index, empty),
                ..old(self)@
            }),
            final(self)@.metadata.wf(),
    {
        self.metadata.remove(mesh.metadata_index, empty);
        Removal {
            root: mesh.root,
            vertex_allocation: mesh.vertex_allocation,
            index_allocation: mesh.index_allocation,
        }
    }

    /// The graph node of the vertex pool's buffer for `layout`, or `None` when
    /// the pool was never asked for the layout before and a node has to be
    /// made.
    pub fn vertex_node(&self, layout: &VertexBufferLayoutDesc) -> (node: Option<ResourceId>)
        ensures
            node == self@.vertex_node(layout@),
    {
        let code = layout.code();
        match self.vertex_pool_ids.get(&code) {
            Some(id) => Some(ResourceId(id)),
            None => None,
        }
    }

    /// Record the graph node made for `layout`.
    pub fn add_vertex_node(&mut self, layout: &VertexBufferLayoutDesc, node: ResourceId)
        ensures
            final(self)@ == old(self)@.with_vertex_node(layout@, node),
            final(self)@ == (SourceModel {
                vertex_nodes: old(self)@.vertex_nodes.insert(layout@.code(), node.0),
                ..old(self)@
            }),
    {
        let code = layout.code();
        self.vertex_pool_ids.insert(code, node.0);
    }

    /// Start building a frame: refill `steps` with what is to be done, in order,
    /// up to collecting the visible entities. The draws of the last frame are
    /// dropped on every path, so a frame never replays them; the list they were
    /// in is kept.
    ///
    /// A frame that draws still has to publish a changed metadata array; one
    /// without a camera or without a target publishes it and draws nothing.
    pub fn begin_scene(
        &mut self,
        has_camera: bool,
        has_target: bool,
        steps: &mut Vec<FrameStep>,
    )
        requires
            old(self)@.metadata.entries.len() <= u32::MAX,
            old(self)@.metadata.can_grow(),
        ensures
            final(steps)@ == opening_steps(old(self)@.metadata, has_camera, has_target),
            final(self)@ == old(self)@.opened(),
            final(self)@ == (SourceModel {
                metadata: old(self)@.metadata.uploaded(),
                scene: Seq::empty(),
                ..old(self)@
            }),
    {
        self.scene.clear();
        steps.clear();
        match self.metadata.upload() {
            MetadataUpload::Nothing => {},
            MetadataUpload::InPlace => {
                steps.push(FrameStep::UploadMetadata);
            },
            MetadataUpload::Recreate(capacity) => {
                steps.push(FrameStep::GrowMetadata(capacity));
                // A replaced buffer invalidates every global group bound to it.
                steps.push(FrameStep::RebuildGlobalGroups);
                steps.push(FrameStep::UploadMetadata);
            },
        }
        assert(steps@ =~= metadata_steps(old(self)@.metadata));
        if has_camera && has_target {
            steps.push(FrameStep::UploadGlobals);
            steps.push(FrameStep::UploadCamera);
            steps.push(FrameStep::RebuildGlobalGroups);
            steps.push(FrameStep::CollectVisible);
        }
        assert(steps@ =~= opening_steps(old(self)@.metadata, has_camera, has_target));
    }

    /// Finish building a frame with `count` visible entities: refill `steps`
    /// with what is to be done, in order.
    pub fn finish_scene(&mut self, count: u32, steps: &mut Vec<FrameStep>)
        requires
            count > old(self)@.instance_capacity ==> 2 * old(self)@.instance_capacity <= u32::MAX,
        ensures
            final(steps)@ == closing_steps(old(self)@.instance_capacity, count),
            final(self)@ == old(self)@.closed_with(count),
            final(self)@ == (SourceModel {
                instance_capacity: match crate::metadata::instance_growth(
                    old(self)@.instance_capacity,
                    count,
                ) {
                    Some(grown) => grown,
                    None => old(self)@.instance_capacity,
                },
                ..old(self)@
            }),
    {
        steps.clear();
        if count == 0 {
            return;
        }
        if let Some(grown) = grow_instances(self.instance_capacity, count) {
            self.instance_capacity = grown;
            steps.push(FrameStep::GrowInstances(grown));
        }
        steps.push(FrameStep::UploadPoses);
        steps.push(FrameStep::UploadInstances);
        steps.push(FrameStep::AssembleFrame);
        assert(steps@ =~= closing_steps(old(self)@.instance_capacity, count));
    }

    /// Assemble the draws of the visible entries, in draw order, from the
    /// resources of each.
    pub fn assemble_frame<I: Copy>(
        &mut self,
        visible: &Vec<VisibleEntry<E, I>>,
        handles: &Vec<EntryHandles>,
    )
        requires
            crate::scene::is_drawable(visible@, old(self)@.pipelines, handles@),
        ensures
            crate::scene::is_scene(
                final(self)@.scene,
                crate::scene::states(visible@, handles@),
                old(self)@.pipelines,
            ),
            final(self)@ == (SourceModel { scene: final(self)@.scene, ..old(self)@ }),
    {
        assemble_scene(visible, &self.pipelines, handles, &mut self.scene);
    }

    /// The draws of the frame last built.
    pub fn scene(&self) -> (scene: &Vec<DrawEntry>)
        ensures
            scene@ == self@.scene,
    {
        &self.scene
    }
}

impl<E: 'static, M: 'static> FrameSource for MeshSource<E, M> {
    open spec fn declared_order(&self) -> FrameOrder {
        FrameOrder::mesh()
    }

    fn order(&self) -> (order: FrameOrder) {
        FrameOrder::mesh()
    }
}

/// Meshes that share a layout share one buffer per stream: once a layout has a
/// node, asking for it finds that node, and recording another layout's node
/// does not change it.
pub proof fn law_layouts_share_their_node<E, M>(
    source: SourceModel<E, M>,
    layout: LayoutModel,
    node: ResourceId,
    other: LayoutModel,
)
    requires
        other != layout,
    ensures
        ({
            let after = SourceModel {
                vertex_nodes: source.vertex_nodes.insert(layout.code(), node.0),
                ..source
            };
            after.vertex_node(layout) == Some(node) && after.vertex_node(other)
                == source.vertex_node(other)
        }),
{
    if other.code() == layout.code() {
        crate::mesh::law_layout_codes_are_distinct(other, layout);
    }
}

/// A mesh uploaded through the pools owns no pooled buffer: its root is built
/// from its bind group and what that reads, so removing the mesh leaves the
/// shared buffers alone.
pub proof fn law_pooled_buffers_are_not_under_the_root(upload: UnlitUpload, k: int)
    requires
        0 <= k < upload.own_shape().inserts().len(),
    ensures
        !(upload.own_shape().inserts()[k].part is VertexBuffer),
        !(upload.own_shape().inserts()[k].part is IndexBuffer),
{
}

/// A half-open range of bytes or elements: where it starts and where it ends.
pub type Span = (int, int);

/// Whether two ranges have nothing in common.
pub open spec fn disjoint(a: Span, b: Span) -> bool {
    a.0 >= a.1 || b.0 >= b.1 || a.1 <= b.0 || b.1 <= a.0
}

impl PooledIndices {
    /// The bytes of the index pool the indices take.
    pub open spec fn taken(self) -> Span {
        (
            self.offset as int,
            self.offset + crate::indices::packed_size(self.count as nat, self.format),
        )
    }
}

impl UnlitUpload {
    /// The elements of the vertex pool the mesh's vertices take.
    pub open spec fn taken(self) -> Span {
        (self.vertex_offset as int, self.vertex_offset + self.vertex_count)
    }

    /// Whether the ranges and nodes of this upload came from the pools of
    /// `source`: its indices start where a copy can, and each stream it writes
    /// goes to the node of its layout.
    pub open spec fn is_pooled<E, M>(self, source: SourceModel<E, M>) -> bool {
        &&& self.indices matches Some(indices) ==> indices.offset % 4 == 0
        &&& self.position.array_stride > 0 ==> source.vertex_node(self.position@) == Some(
            self.position_node,
        )
        &&& self.uv_color.array_stride > 0 ==> source.vertex_node(self.uv_color@) == Some(
            self.uv_color_node,
        )
    }
}

/// The bytes of its index buffer a mesh's draws read.
pub open spec fn index_bytes(mesh: MeshModel) -> Span {
    match mesh.index_buffer {
        Some((_, format)) => {
            let size = crate::mesh::index_format_size(format);
            (mesh.first * size, (mesh.first + mesh.count) * size)
        },
        None => (0, 0),
    }
}

impl<E, M> SourceModel<E, M> {
    /// Whether this source is `earlier` after any number of meshes came and
    /// went: the pools' nodes it had are still theirs.
    pub open spec fn keeps_pools_of(self, earlier: SourceModel<E, M>) -> bool {
        &&& self.index_pool_id == earlier.index_pool_id
        &&& forall|code: Seq<u64>| #[trigger]
            earlier.vertex_nodes.contains_key(code) ==> self.vertex_nodes.contains_key(code)
                && self.vertex_nodes[code] == earlier.vertex_nodes[code]
    }
}

/// A source never gives up a pool's node: allocating and removing meshes,
/// building frames and registering pipelines leave the nodes alone, and a
/// layout that has no node yet gets one beside the others.
pub proof fn law_pool_nodes_stay<E, M>(
    earlier: SourceModel<E, M>,
    source: SourceModel<E, M>,
    metadata: MetadataModel<M>,
    instance_capacity: u32,
    pipelines: Seq<Option<ResourceId>>,
    scene: Seq<DrawEntry>,
    layout: LayoutModel,
    node: ResourceId,
)
    requires
        source.keeps_pools_of(earlier),
        source.vertex_node(layout) is None,
    ensures
        earlier.keeps_pools_of(earlier),
        (SourceModel { metadata, instance_capacity, pipelines, scene, ..source }).keeps_pools_of(
            earlier,
        ),
        (SourceModel {
            vertex_nodes: source.vertex_nodes.insert(layout.code(), node.0),
            ..source
        }).keeps_pools_of(earlier),
{
}

/// A mesh reads only what it was given: its draws stay inside the bytes of the
/// index pool its indices take.
proof fn lemma_indices_stay_inside(indices: PooledIndices)
    requires
        indices.offset % 4 == 0,
    ensures
        ({
            let size = crate::mesh::index_format_size(indices.format);
            let first = first_index(indices.offset, indices.format);
            &&& first * size == indices.offset
            &&& (first + indices.count) * size <= indices.taken().1
        }),
{
    crate::indices::law_ranges_start_at_a_whole_index(indices.offset, indices.format);
    let size = crate::mesh::index_format_size(indices.format) as int;
    let first = first_index(indices.offset, indices.format) as int;
    let count = indices.count as int;
    assert((first + count) * size == first * size + count * size) by (nonlinear_arith);
}

/// Meshes that share the pools share their buffers and nothing else. Two meshes
/// of one source and one key, uploaded with any number of others in between,
/// name the same index buffer and the same vertex buffer at every slot; and as
/// long as the pools handed their ranges out apart, no byte of the one's
/// indices is the other's, and no element. A handle names the pools' nodes and
/// its own range, so a pool that grows moves neither.
pub proof fn law_pooled_meshes_stay_apart<E, M>(
    source: SourceModel<E, M>,
    a: UnlitUpload,
    a_ids: Seq<ResourceId>,
    a_slot: u32,
    later: SourceModel<E, M>,
    b: UnlitUpload,
    b_ids: Seq<ResourceId>,
    b_slot: u32,
)
    requires
        later.keeps_pools_of(source),
        a.is_pooled(source),
        b.is_pooled(later),
        // One key has one layout.
        a.slots == b.slots,
        a.position@ == b.position@,
        a.uv_color@ == b.uv_color@,
        // The pools hand out ranges that are apart.
        disjoint(a.taken(), b.taken()),
        a.indices is Some && b.indices is Some ==> disjoint(
            a.indices->0.taken(),
            b.indices->0.taken(),
        ),
    ensures
        ({
            let first = a.mesh(a_ids, a_slot, source.index_pool_id);
            let second = b.mesh(b_ids, b_slot, later.index_pool_id);
            &&& first.vertex_buffers == second.vertex_buffers
            &&& first.indexed && second.indexed ==> {
                &&& (first.index_buffer->0).0 == (second.index_buffer->0).0
                &&& disjoint(index_bytes(first), index_bytes(second))
            }
            &&& disjoint(
                (first.base_vertex as int, first.base_vertex + a.vertex_count),
                (second.base_vertex as int, second.base_vertex + b.vertex_count),
            )
            &&& !first.indexed && !second.indexed ==> disjoint(
                (first.first as int, first.first + first.count),
                (second.first as int, second.first + second.count),
            )
        }),
{
    if a.position.array_stride > 0 {
        assert(source.vertex_nodes.contains_key(a.position@.code()));
    }
    if a.uv_color.array_stride > 0 {
        assert(source.vertex_nodes.contains_key(a.uv_color@.code()));
    }
    assert(a.position.array_stride == a.position@.array_stride);
    assert(a.uv_color.array_stride == a.uv_color@.array_stride);
    if let Some(indices) = a.indices {
        lemma_indices_stay_inside(indices);
    }
    if let Some(indices) = b.indices {
        lemma_indices_stay_inside(indices);
    }
}

/// Removing a mesh that was just uploaded into the pools undoes the upload.
/// What is freed is exactly what the upload took: the nodes of its plan, so
/// that the graph is what it was, pools and other meshes included; its range of
/// each pool; and its metadata slot.
pub proof fn law_removal_undoes_a_pooled_upload<E, M>(
    graph: Map<ResourceId, crate::upload::NodeModel>,
    source: SourceModel<E, M>,
    upload: UnlitUpload,
    ids: Seq<ResourceId>,
    metadata: M,
    empty: M,
)
    requires
        crate::upload::is_closed(graph),
        crate::upload::collected(graph) == graph,
        crate::upload::are_fresh(graph, upload.own_shape(), ids),
        source.metadata.wf(),
        source.metadata.frees_distinct(),
        source.metadata.entries.len() < u32::MAX,
    ensures
        ({
            let mesh = upload.mesh(ids, source.metadata.next_slot(), source.index_pool_id);
            let full = crate::upload::inserted(graph, upload.own_shape(), ids, ids.len());
            let with = source.metadata.allocated(metadata);
            let without = with.removed(mesh.metadata_index, empty);
            &&& crate::upload::collected(full.remove(mesh.root)) == graph
            &&& mesh.vertex_allocation == Some(upload.vertex_allocation)
            &&& mesh.index_allocation == match upload.indices {
                Some(indices) => Some(indices.allocation),
                None => None,
            }
            &&& without.entries.len() == with.entries.len()
            &&& without.next_slot() == mesh.metadata_index
            &&& forall|slot: u32| #[trigger]
                without.is_live(slot) <==> source.metadata.is_live(slot)
            &&& forall|slot: u32| #[trigger]
                source.metadata.is_live(slot) ==> without.entries[slot as int]
                    == source.metadata.entries[slot as int]
        }),
{
    crate::upload::law_removing_the_root_frees_exactly_the_mesh(graph, upload.own_shape(), ids);
    crate::metadata::law_removing_a_new_mesh_frees_its_slot(source.metadata, metadata, empty);
}

/// Removing a mesh that owns its buffers undoes its upload too: the graph is
/// what it was, buffers and all, and its metadata slot is free again. It has no
/// range of a pool to hand back.
pub proof fn law_removal_undoes_an_upload<E, M>(
    graph: Map<ResourceId, crate::upload::NodeModel>,
    source: SourceModel<E, M>,
    desc: MeshDesc,
    ids: Seq<ResourceId>,
    metadata: M,
    empty: M,
)
    requires
        crate::upload::shape_of(desc).fits(),
        crate::upload::is_closed(graph),
        crate::upload::collected(graph) == graph,
        crate::upload::are_fresh(graph, crate::upload::shape_of(desc), ids),
        source.metadata.wf(),
        source.metadata.frees_distinct(),
        source.metadata.entries.len() < u32::MAX,
    ensures
        ({
            let shape = crate::upload::shape_of(desc);
            let mesh = crate::upload::built_mesh(desc, ids, source.metadata.next_slot());
            let full = crate::upload::inserted(graph, shape, ids, ids.len());
            let with = source.metadata.allocated(metadata);
            let without = with.removed(mesh.metadata_index, empty);
            &&& crate::upload::collected(full.remove(mesh.root)) == graph
            &&& mesh.vertex_allocation is None
            &&& mesh.index_allocation is None
            &&& without.entries.len() == with.entries.len()
            &&& without.next_slot() == mesh.metadata_index
            &&& forall|slot: u32| #[trigger]
                without.is_live(slot) <==> source.metadata.is_live(slot)
            &&& forall|slot: u32| #[trigger]
                source.metadata.is_live(slot) ==> without.entries[slot as int]
                    == source.metadata.entries[slot as int]
        }),
{
    crate::upload::law_removing_the_root_frees_exactly_the_mesh(
        graph,
        crate::upload::shape_of(desc),
        ids,
    );
    crate::metadata::law_removing_a_new_mesh_frees_its_slot(source.metadata, metadata, empty);
}

/// A mesh that is removed and uploaded again gets the metadata slot it had.
pub proof fn law_a_reuploaded_mesh_takes_its_old_slot<E, M>(
    source: SourceModel<E, M>,
    mesh: MeshModel,
    empty: M,
)
    requires
        source.metadata.wf(),
        source.metadata.frees_distinct(),
        source.metadata.is_live(mesh.metadata_index),
    ensures
        source.metadata.removed(mesh.metadata_index, empty).next_slot() == mesh.metadata_index,
{
    crate::metadata::law_a_freed_slot_is_handed_out_again(
        source.metadata,
        mesh.metadata_index,
        empty,
        empty,
    );
}

/// Poses are driven from frame to frame, so every frame that draws anything
/// writes them, whatever the frame before it did; and it does before it writes
/// the instances that read them and assembles the draws.
pub proof fn law_every_drawn_frame_uploads_its_poses(capacity: u32, count: u32)
    requires
        count > 0,
    ensures
        ({
            let steps = closing_steps(capacity, count);
            steps.skip(steps.len() - 3) == seq![
                FrameStep::UploadPoses,
                FrameStep::UploadInstances,
                FrameStep::AssembleFrame,
            ]
        }),
{
    let steps = closing_steps(capacity, count);
    assert(steps.skip(steps.len() - 3) =~= seq![
        FrameStep::UploadPoses,
        FrameStep::UploadInstances,
        FrameStep::AssembleFrame,
    ]);
}

/// A frame that follows a frame with nothing changed publishes no metadata and
/// grows nothing.
pub proof fn law_a_steady_frame_grows_nothing<M>(array: MetadataModel<M>, capacity: u32, count: u32)
    requires
        count <= capacity,
    ensures
        metadata_steps(array.uploaded()) == Seq::<FrameStep>::empty(),
        forall|i: int|
            0 <= i < closing_steps(capacity, count).len() ==> !(#[trigger] closing_steps(
                capacity,
                count,
            )[i] is GrowInstances),
{
}

/// A mesh is what was uploaded: it keeps the bounds it was given, so that what
/// can be seen of it is drawn; whether its vertices carry joints; and how many
/// morph targets it has, none where none were given.
pub proof fn law_an_uploaded_mesh_keeps_its_bounds_and_deformation(
    upload: UnlitUpload,
    ids: Seq<ResourceId>,
    slot: u32,
    index_pool: ResourceId,
)
    ensures
        ({
            let mesh = upload.mesh(ids, slot, index_pool);
            &&& mesh.aabb.center == upload.aabb.center
            &&& mesh.aabb.half_extents == upload.aabb.half_extents
            &&& mesh.skinned == upload.skinned
            &&& upload.morph_targets matches Some(targets) ==> mesh.morph_targets == targets
            &&& upload.morph_targets is None ==> mesh.morph_targets == 0
            &&& mesh.metadata_index == slot
        }),
{
}

/// A mesh draws what was uploaded and hands back what it took: all of its
/// indices from where they start in the pool, at the width they were stored, or
/// all of its vertices where it has no indices; and the ranges it gives up are
/// the ones it was given.
pub proof fn law_an_uploaded_mesh_draws_its_own_range(
    upload: UnlitUpload,
    ids: Seq<ResourceId>,
    slot: u32,
    index_pool: ResourceId,
)
    ensures
        ({
            let mesh = upload.mesh(ids, slot, index_pool);
            &&& mesh.indexed <==> upload.indices is Some
            &&& mesh.base_vertex == upload.vertex_offset
            &&& removal_of(mesh).vertex_allocation == Some(upload.vertex_allocation)
            &&& upload.indices matches Some(indices) ==> {
                &&& mesh.count == indices.count
                &&& mesh.index_buffer == Some((index_pool, indices.format))
                &&& indices.offset % 4 == 0 ==> mesh.first * crate::mesh::index_format_size(
                    indices.format,
                ) == indices.offset
                &&& removal_of(mesh).index_allocation == Some(indices.allocation)
            }
            &&& upload.indices is None ==> {
                &&& mesh.count == upload.vertex_count
                &&& mesh.first == upload.vertex_offset
                &&& mesh.index_buffer is None
                &&& removal_of(mesh).index_allocation is None
            }
        }),
{
    if let Some(indices) = upload.indices {
        if indices.offset % 4 == 0 {
            crate::indices::law_ranges_start_at_a_whole_index(indices.offset, indices.format);
        }
    }
}

/// A mesh binds each stream its variant declares, and no other, at that
/// stream's slot and from that stream's node; and its layout declares the
/// instance slot besides, which the source binds.
pub proof fn law_an_uploaded_mesh_binds_its_own_streams(
    upload: UnlitUpload,
    ids: Seq<ResourceId>,
    slot: u32,
    index_pool: ResourceId,
    binding: (u32, ResourceId),
    declared: (u32, LayoutModel),
)
    ensures
        ({
            let mesh = upload.mesh(ids, slot, index_pool);
            let position = upload.position.array_stride > 0;
            let uv_color = upload.uv_color.array_stride > 0;
            &&& mesh.vertex_buffers.contains(binding) <==> (position && binding == (
                upload.slots.position,
                upload.position_node,
            )) || (uv_color && binding == (upload.slots.uv_color, upload.uv_color_node))
            &&& mesh.vertex_layout.contains(declared) <==> declared == (
                upload.slots.instance,
                upload.instance@,
            ) || (position && declared == (upload.slots.position, upload.position@)) || (uv_color
                && declared == (upload.slots.uv_color, upload.uv_color@))
            &&& mesh.vertex_layout.len() == mesh.vertex_buffers.len() + 1
        }),
{
    let mesh = upload.mesh(ids, slot, index_pool);
    let position = upload.position.array_stride > 0;
    let uv_color = upload.uv_color.array_stride > 0;
    let buffers = mesh.vertex_buffers;
    let layout = mesh.vertex_layout;
    assert(layout[0] == (upload.slots.instance, upload.instance@));
    if position {
        assert(buffers[0] == (upload.slots.position, upload.position_node));
        assert(layout[1] == (upload.slots.position, upload.position@));
        if uv_color {
            assert(buffers[1] == (upload.slots.uv_color, upload.uv_color_node));
            assert(layout[2] == (upload.slots.uv_color, upload.uv_color@));
        }
    } else if uv_color {
        assert(buffers[0] == (upload.slots.uv_color, upload.uv_color_node));
        assert(layout[1] == (upload.slots.uv_color, upload.uv_color@));
    }
}

/// A mesh is rooted in the root of its own plan, and its bind group is the one
/// of its plan.
pub proof fn law_an_uploaded_mesh_owns_its_nodes(
    upload: UnlitUpload,
    ids: Seq<ResourceId>,
    slot: u32,
    index_pool: ResourceId,
    k: int,
)
    requires
        ids.len() == upload.own_shape().inserts().len(),
        0 <= k < ids.len(),
    ensures
        ({
            let mesh = upload.mesh(ids, slot, index_pool);
            let plan = upload.own_shape().inserts();
            &&& plan[k].part is Root ==> mesh.root == ids[k]
            &&& plan[k].part is BindGroup ==> mesh.bind_group_id == Some(ids[k])
            &&& plan[k].part is MorphDeltas ==> upload.morph_targets is Some
            &&& mesh.bind_group_id is Some
        }),
{
}

/// Removing a mesh hands back exactly what the mesh holds: its root, and the
/// ranges of the pools it took, where it took any.
pub proof fn law_removing_hands_back_what_the_mesh_holds(mesh: MeshModel)
    ensures
        removal_of(mesh).root == mesh.root,
        removal_of(mesh).vertex_allocation == mesh.vertex_allocation,
        removal_of(mesh).index_allocation == mesh.index_allocation,
{
}

/// A variant reads a material exactly when it has the base-color flag, and reads
/// it through the view and the sampler it was given, whatever other flags it
/// has.
pub proof fn law_a_material_follows_the_base_color_flag(
    flags: u32,
    base_color_texture: u32,
    view: ResourceId,
    sampler: ResourceId,
)
    ensures
        unlit_material(flags | base_color_texture, base_color_texture, view, sampler) == Some(
            MaterialPlan { view, sampler },
        ),
        base_color_texture != 0 ==> unlit_material(
            flags & !base_color_texture,
            base_color_texture,
            view,
            sampler,
        ) is None,
{
    let texture = base_color_texture;
    assert((flags | texture) & texture == texture) by (bit_vector);
    assert((flags & !texture) & texture == 0) by (bit_vector);
}

/// A layout is looked up by its slot: the one declared there, and an empty one
/// where the slot declares nothing or does not exist.
pub proof fn law_a_layout_is_the_one_of_its_slot(
    layouts: Seq<Option<VertexBufferLayoutDesc>>,
    slot: u32,
)
    ensures
        slot < layouts.len() && layouts[slot as int] is Some ==> declared_layout(layouts, slot)
            == layouts[slot as int]->0@,
        slot >= layouts.len() || layouts[slot as int] is None ==> declared_layout(
            layouts,
            slot,
        ).array_stride == 0 && declared_layout(layouts, slot).attributes.len() == 0,
{
}

/// A changed metadata array is written before anything else of a frame, on every
/// path, and into a buffer that holds it: one it outgrew is recreated first, and
/// the groups that read it rebuilt. An array that did not change is not written.
pub proof fn law_changed_metadata_is_published_first<M>(
    array: MetadataModel<M>,
    has_camera: bool,
    has_target: bool,
    k: int,
)
    ensures
        ({
            let steps = opening_steps(array, has_camera, has_target);
            let grows = array.dirty && array.growth() is Some;
            &&& array.dirty && !grows ==> steps.len() > 0 && steps[0] is UploadMetadata
            &&& grows ==> steps.len() > 2 && steps[0] == FrameStep::GrowMetadata(
                array.growth()->0,
            ) && steps[1] is RebuildGlobalGroups && steps[2] is UploadMetadata
            &&& !array.dirty && 0 <= k < steps.len() ==> !(steps[k] is UploadMetadata) && !(
            steps[k] is GrowMetadata)
        }),
{
}

/// A frame with a camera and a target writes the globals and the camera, rebuilds
/// the groups that changed and then collects what is visible; one that lacks
/// either does nothing but publish the metadata.
pub proof fn law_a_frame_needs_a_camera_and_a_target<M>(
    array: MetadataModel<M>,
    has_camera: bool,
    has_target: bool,
)
    ensures
        ({
            let steps = opening_steps(array, has_camera, has_target);
            let published = metadata_steps(array);
            &&& !(has_camera && has_target) ==> steps == published
            &&& has_camera && has_target ==> {
                &&& steps.len() == published.len() + 4
                &&& steps.take(published.len() as int) == published
                &&& steps[published.len() as int] is UploadGlobals
                &&& steps[published.len() as int + 1] is UploadCamera
                &&& steps[published.len() as int + 2] is RebuildGlobalGroups
                &&& steps.last() is CollectVisible
            }
        }),
{
    let steps = opening_steps(array, has_camera, has_target);
    let published = metadata_steps(array);
    if has_camera && has_target {
        assert(steps.take(published.len() as int) =~= published);
    } else {
        assert(steps =~= published);
    }
}

/// A frame that draws nothing has nothing to finish; one that draws grows the
/// instance buffer first where its instances do not fit, and never otherwise.
pub proof fn law_a_frame_is_finished_when_it_draws(capacity: u32, count: u32)
    ensures
        ({
            let steps = closing_steps(capacity, count);
            &&& count == 0 ==> steps.len() == 0
            &&& count > 0 && count <= capacity ==> steps.len() == 3
            &&& count > capacity ==> steps.len() == 4 && (steps[0] matches FrameStep::GrowInstances(
                grown,
            ) && (2 * capacity <= u32::MAX ==> grown >= count && grown >= 2 * capacity))
        }),
{
    if count > capacity && 2 * capacity <= u32::MAX {
        crate::metadata::law_instances_fit_a_grown_buffer(capacity, count);
    }
}

/// A source starts with one buffer of each kind, as large as what it holds: the
/// two uniforms, one metadata entry, and the first bytes of the index pool.
pub proof fn law_a_source_starts_with_its_buffers(
    view_size: u64,
    globals_size: u64,
    metadata_size: u64,
    i: int,
)
    ensures
        ({
            let plan = starting_buffers(view_size, globals_size, metadata_size);
            &&& plan.len() == 4
            &&& 0 <= i < 4 ==> plan[i].size == match plan[i].role {
                BufferRole::Camera => view_size,
                BufferRole::Globals => globals_size,
                BufferRole::Metadata => metadata_size,
                BufferRole::IndexPool => 4096,
            }
            &&& plan[0].role is Camera && plan[1].role is Globals && plan[2].role is Metadata
                && plan[3].role is IndexPool
        }),
{
}

/// A stream is written exactly when the variant declares something for it, the
/// positions first.
pub proof fn law_declared_streams_are_written(position_stride: u64, uv_color_stride: u64)
    ensures
        ({
            let streams = streams_of(position_stride, uv_color_stride);
            &&& streams.contains(Stream::Position) <==> position_stride > 0
            &&& streams.contains(Stream::UvColor) <==> uv_color_stride > 0
            &&& streams.len() <= 2
            &&& streams.len() == 2 ==> streams[0] is Position && streams[1] is UvColor
        }),
{
    let streams = streams_of(position_stride, uv_color_stride);
    if position_stride > 0 {
        assert(streams[0] == Stream::Position);
        if uv_color_stride > 0 {
            assert(streams[1] == Stream::UvColor);
        }
    } else if uv_color_stride > 0 {
        assert(streams[0] == Stream::UvColor);
    }
}

/// A material depends on both of the resources it reads and on nothing else.
pub proof fn law_a_material_depends_on_what_it_reads(plan: MaterialPlan, id: ResourceId)
    ensures
        plan.reads().contains(id) <==> id == plan.view || id == plan.sampler,
        plan.reads()[0] == plan.view,
        plan.reads()[1] == plan.sampler,
{
    assert(plan.reads()[0] == plan.view);
    assert(plan.reads()[1] == plan.sampler);
}

/// A global group binds each of its buffers at that buffer's binding: the camera
/// and the frame globals always, the metadata exactly where it is read.
pub proof fn law_a_global_group_binds_its_buffers(
    buffers: SourceBuffers,
    bindings: GlobalBindings,
    needs_metadata: bool,
    entry: (u32, ResourceId),
)
    ensures
        buffers.bound(bindings, needs_metadata).contains(entry) <==> entry == (
            bindings.camera,
            buffers.camera,
        ) || entry == (bindings.frame, buffers.globals) || (needs_metadata && entry == (
            bindings.mesh_metadata,
            buffers.metadata,
        )),
        buffers.bound(bindings, needs_metadata).len() == if needs_metadata {
            3int
        } else {
            2int
        },
{
    let bound = buffers.bound(bindings, needs_metadata);
    assert(bound[0] == (bindings.camera, buffers.camera));
    assert(bound[1] == (bindings.frame, buffers.globals));
    if needs_metadata {
        assert(bound[2] == (bindings.mesh_metadata, buffers.metadata));
    }
}

/// A global group depends on the camera, the frame globals and the metadata, so
/// that replacing any of them rebuilds it, and on nothing else.
pub proof fn law_a_global_group_depends_on_its_buffers<E, M>(
    source: SourceModel<E, M>,
    id: ResourceId,
)
    ensures
        source.global_reads().contains(id) <==> id == source.camera_buf || id == source.globals_buf
            || id == source.metadata_buf,
        source.global_reads().len() == 3,
{
    assert(source.global_reads()[0] == source.camera_buf);
    assert(source.global_reads()[1] == source.globals_buf);
    assert(source.global_reads()[2] == source.metadata_buf);
}

/// A source keeps the buffers it was started with, each in its own role, and
/// has no mesh, no pooled layout, no pipeline and no draw.
pub proof fn law_a_new_source_is_empty<E, M>(
    context: RenderContext<E>,
    buffers: SourceBuffers,
    layout: LayoutModel,
)
    ensures
        ({
            let source = SourceModel::<E, M>::started(context, buffers);
            &&& source.context == context
            &&& source.buffers() == buffers
            &&& source.camera_buf == buffers.camera
            &&& source.globals_buf == buffers.globals
            &&& source.metadata_buf == buffers.metadata
            &&& source.index_pool_id == buffers.index_pool
            &&& source.vertex_node(layout) is None
            &&& source.metadata.entries.len() == 0
            &&& source.instance_capacity == 0
            &&& source.pipelines.len() == 0
            &&& source.scene.len() == 0
        }),
{
}

/// Each role of a source's buffers is read back from its own node.
pub proof fn law_buffers_keep_their_roles<E, M>(source: SourceModel<E, M>)
    ensures
        source.buffers().camera == source.camera_buf,
        source.buffers().globals == source.globals_buf,
        source.buffers().metadata == source.metadata_buf,
        source.buffers().index_pool == source.index_pool_id,
{
}

/// A pooled layout is found under its own node from then on, every other layout
/// as before, and nothing else of the source changes.
pub proof fn law_a_pooled_layout_is_found_again<E, M>(
    source: SourceModel<E, M>,
    layout: LayoutModel,
    node: ResourceId,
    other: LayoutModel,
)
    ensures
        source.with_vertex_node(layout, node).vertex_node(layout) == Some(node),
        other != layout ==> source.with_vertex_node(layout, node).vertex_node(other)
            == source.vertex_node(other),
        source.with_vertex_node(layout, node).buffers() == source.buffers(),
        source.with_vertex_node(layout, node).metadata == source.metadata,
{
    if other != layout {
        law_layouts_share_their_node(source, layout, node, other);
    }
}

/// A frame starts with no draw and an uploaded array, and ends with a buffer that
/// holds its instances and never shrank; neither changes what the source keeps
/// its meshes in.
pub proof fn law_a_frame_keeps_the_pools<E, M>(source: SourceModel<E, M>, count: u32)
    requires
        count > source.instance_capacity ==> 2 * source.instance_capacity <= u32::MAX,
    ensures
        source.opened().scene.len() == 0,
        !source.opened().metadata.dirty,
        source.opened().metadata.entries == source.metadata.entries,
        source.opened().buffers() == source.buffers(),
        source.opened().vertex_nodes == source.vertex_nodes,
        source.opened().pipelines == source.pipelines,
        source.closed_with(count).instance_capacity >= count,
        source.closed_with(count).instance_capacity >= source.instance_capacity,
        count <= source.instance_capacity ==> source.closed_with(count) == source,
        source.closed_with(count).scene == source.scene,
        source.closed_with(count).metadata == source.metadata,
{
}

/// A mesh uploaded through the pools has nodes of its own for its root, its bind
/// group and its mesh info, and one for its morph deltas exactly when it brings
/// targets.
pub proof fn law_an_upload_has_the_parts_it_brings(upload: UnlitUpload)
    ensures
        crate::upload::has_part(upload.own_shape(), crate::upload::Part::MeshInfo),
        crate::upload::has_part(upload.own_shape(), crate::upload::Part::BindGroup),
        crate::upload::has_part(upload.own_shape(), crate::upload::Part::MorphDeltas)
            <==> upload.morph_targets is Some,
        upload.own_shape().inserts().len() == if upload.morph_targets is Some {
            4int
        } else {
            3int
        },
{
}

/// An index range takes exactly the bytes its packed indices have.
pub proof fn law_an_index_range_takes_its_data(
    pooled: PooledIndices,
    packed: crate::indices::PackedIndices,
    indices: Seq<u32>,
    compressed: Option<Seq<u16>>,
)
    requires
        crate::indices::is_packing_of(packed, indices, compressed),
        compressed matches Some(narrow) ==> narrow.len() == indices.len(),
        pooled.count == packed.count,
        pooled.format == packed.format,
    ensures
        pooled.taken().0 == pooled.offset,
        pooled.taken().1 - pooled.taken().0 == packed.data@.len(),
{
    crate::indices::law_packed_data_has_its_size(packed, indices, compressed);
}

} // verus!
