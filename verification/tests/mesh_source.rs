//! The mesh source: uploads, removal, draw order and a frame's steps.

use std::collections::BTreeMap;

use unlit3d::components::{Aabb, Allocation, GpuMaterial, GpuMesh, ResourceId};
use unlit3d::culling::{collect_visible, Candidate, VisibleMesh};
use unlit3d::indices::{first_index, pack_indices, PackedIndices};
use unlit3d::mesh::{index_format_size, MeshDesc, VertexBufferDesc, VertexBufferLayoutDesc};
use unlit3d::mesh_source::{
    allocate_unlit_material, initial_buffers, layout_of, written_streams, BufferPlan, BufferRole,
    FrameStep, GlobalBindings, MeshSource, PooledIndices, SourceBuffers, Stream, UnlitSlots,
    UnlitUpload,
};
use unlit3d::metadata::{grow_instances, MetadataArray, MetadataUpload};
use unlit3d::pipeline::{
    specialized_flags, unlit_flags_for_layout, DrawKey, FamilyKey, FamilyVariants, PipelineId,
    RegisteredPipelines, RenderPipelineFactory, TrivialSpecializer,
};
use unlit3d::pose::{
    check_channels, check_pose, Deformation, FramePoses, MorphWeights, PoseError, PoseStart,
    SkinPose,
};
use unlit3d::scalar::Scalar;
use unlit3d::scene::{
    collect_and_sort_visible, pack_instances, DrawEntry, DrawRange, EntryHandles, ResolvedDraw,
    VisibleEntry,
};
use unlit3d::source::{FrameOrder, FrameSource, RenderContext};
use unlit3d::surface::SurfaceKey;
use unlit3d::upload::{mesh_info_node, mesh_shape, upload_plan, Part};
use wgpu::{IndexFormat, VertexAttribute, VertexFormat, VertexStepMode};

type Entity = u32;

/// The bits of the unlit shader's flags the tests name.
const VERTEX_POSITION: u32 = 1;
const VERTEX_UV: u32 = 2;
const VERTEX_INSTANCE: u32 = 4;
const MESH_MASK: u32 = 7;
const BASE_COLOR_TEXTURE: u32 = 8;
const VERTEX_COLOR: u32 = 16;
const MORPH_POSITIONS: u32 = 32;

fn slots() -> UnlitSlots {
    UnlitSlots {
        position: 0,
        uv_color: 1,
        instance: 2,
    }
}

fn aabb() -> Aabb {
    let zero = [Scalar::zero(); 3];
    Aabb {
        center: zero,
        half_extents: zero,
    }
}

fn layout(stride: u64, step_mode: VertexStepMode, formats: &[VertexFormat]) -> VertexBufferLayoutDesc {
    VertexBufferLayoutDesc {
        array_stride: stride,
        step_mode,
        attributes: formats
            .iter()
            .enumerate()
            .map(|(i, &format)| VertexAttribute {
                format,
                offset: 4 * i as u64,
                shader_location: i as u32,
            })
            .collect(),
    }
}

fn position_layout() -> VertexBufferLayoutDesc {
    layout(8, VertexStepMode::Vertex, &[VertexFormat::Unorm16x4])
}

fn uv_color_layout() -> VertexBufferLayoutDesc {
    layout(
        8,
        VertexStepMode::Vertex,
        &[VertexFormat::Unorm16x2, VertexFormat::Unorm8x4],
    )
}

fn instance_layout() -> VertexBufferLayoutDesc {
    layout(64, VertexStepMode::Instance, &[VertexFormat::Float32x4])
}

/// A resource graph: strong nodes live on their own, weak ones only as long as
/// something is built from them.
#[derive(Default)]
struct Graph {
    next: u64,
    nodes: BTreeMap<u64, (bool, Vec<u64>)>,
}

impl Graph {
    fn insert(&mut self, strong: bool, dependencies: Vec<u64>) -> ResourceId {
        let id = self.next;
        self.next += 1;
        self.nodes.insert(id, (strong, dependencies));
        ResourceId(id)
    }

    /// Insert the nodes of a mesh and return their ids.
    fn insert_plan(&mut self, desc: &MeshDesc) -> Vec<ResourceId> {
        let mut ids: Vec<ResourceId> = Vec::new();
        for insert in upload_plan(mesh_shape(desc)) {
            let dependencies = insert.dependencies.iter().map(|&at| ids[at].0).collect();
            ids.push(self.insert(insert.strong, dependencies));
        }
        ids
    }

    fn remove(&mut self, id: ResourceId) {
        self.nodes.remove(&id.0);
        loop {
            let orphan = self.nodes.iter().find_map(|(&id, (strong, _))| {
                let needed = self.nodes.values().any(|(_, deps)| deps.contains(&id));
                (!strong && !needed).then_some(id)
            });
            match orphan {
                Some(orphan) => self.nodes.remove(&orphan),
                None => return,
            };
        }
    }

    fn has(&self, id: ResourceId) -> bool {
        self.nodes.contains_key(&id.0)
    }
}

/// A pool that hands out the first range that is free.
#[derive(Default)]
struct Pool {
    ranges: BTreeMap<u32, u32>,
}

impl Pool {
    fn allocate(&mut self, size: u32) -> (u32, Allocation) {
        let mut offset = 0;
        for (&start, &taken) in &self.ranges {
            if start - offset >= size {
                break;
            }
            offset = start + taken;
        }
        self.ranges.insert(offset, size);
        (offset, Allocation(offset as u64))
    }

    fn release(&mut self, allocation: Allocation) {
        self.ranges.remove(&(allocation.0 as u32));
    }
}

/// Everything a source talks to, and the source.
struct Harness {
    graph: Graph,
    index_pool: Pool,
    vertex_pool: Pool,
    source: MeshSource<Entity, u32>,
}

fn harness() -> Harness {
    let mut graph = Graph::default();
    let mut node = || graph.insert(true, vec![]);
    let buffers = SourceBuffers {
        camera: node(),
        globals: node(),
        metadata: node(),
        index_pool: node(),
    };
    let context = RenderContext {
        device: 1,
        queue: 2,
        graph: 3,
    };
    Harness {
        graph,
        index_pool: Pool::default(),
        vertex_pool: Pool::default(),
        source: MeshSource::new(context, buffers),
    }
}

impl Harness {
    fn node(&mut self, layout: &VertexBufferLayoutDesc) -> ResourceId {
        match self.source.vertex_node(layout) {
            Some(node) => node,
            None => {
                let node = self.graph.insert(true, vec![]);
                self.source.add_vertex_node(layout, node);
                node
            }
        }
    }

    /// Upload a triangle in these layouts, with these indices.
    fn upload(&mut self, uv_color: VertexBufferLayoutDesc, indices: Option<Vec<u32>>) -> GpuMesh {
        let compressed = indices
            .as_ref()
            .map(|indices| indices.iter().map(|&index| index as u16).collect());
        let indices = pack_indices(indices.as_ref(), compressed).map(|packed| {
            let (offset, allocation) = self.index_pool.allocate(packed.data.len() as u32);
            PooledIndices {
                format: packed.format,
                count: packed.count,
                offset,
                allocation,
            }
        });
        let position = position_layout();
        let (vertex_offset, vertex_allocation) = self.vertex_pool.allocate(3);
        let mut nodes = [ResourceId(u64::MAX); 2];
        for stream in written_streams(&position, &uv_color) {
            match stream {
                Stream::Position => nodes[0] = self.node(&position),
                Stream::UvColor => nodes[1] = self.node(&uv_color),
            }
        }
        let own = MeshDesc {
            vertex_buffers: arrayvec::ArrayVec::new(),
            index_format: None,
            count: 0,
            indexed: false,
            aabb: aabb(),
            bind_group: true,
            mesh_info: true,
            morph_targets: None,
        };
        let ids = self.graph.insert_plan(&own);
        self.source.allocate_unlit_mesh(
            &UnlitUpload {
                vertex_count: 3,
                indices,
                slots: slots(),
                position,
                uv_color,
                instance: instance_layout(),
                position_node: nodes[0],
                uv_color_node: nodes[1],
                vertex_offset,
                vertex_allocation,
                aabb: aabb(),
                morph_targets: None,
                skinned: false,
            },
            &ids,
            77,
        )
    }

    /// The steps that start a frame.
    fn begin(&mut self, has_camera: bool, has_target: bool) -> Vec<FrameStep> {
        let mut steps = vec![FrameStep::AssembleFrame];
        self.source.begin_scene(has_camera, has_target, &mut steps);
        steps
    }

    /// The steps that finish a frame of `count` entities.
    fn finish(&mut self, count: u32) -> Vec<FrameStep> {
        let mut steps = vec![FrameStep::UploadCamera];
        self.source.finish_scene(count, &mut steps);
        steps
    }

    /// The triangle mesh every mesh-level test allocates.
    fn tri_mesh(&mut self) -> GpuMesh {
        self.upload(uv_color_layout(), Some(vec![0, 1, 2]))
    }

    fn remove_mesh(&mut self, mesh: GpuMesh) {
        let removal = self.source.remove_mesh(&mesh, 0);
        self.graph.remove(removal.root);
        if let Some(allocation) = removal.vertex_allocation {
            self.vertex_pool.release(allocation);
        }
        if let Some(allocation) = removal.index_allocation {
            self.index_pool.release(allocation);
        }
    }
}

fn slots_flags(mesh: &GpuMesh) -> Vec<u32> {
    mesh.vertex_layout
        .iter()
        .map(|&(slot, _)| match slot {
            0 => VERTEX_POSITION,
            1 => VERTEX_UV,
            _ => VERTEX_INSTANCE,
        })
        .collect()
}

// -- pipeline registration ---------------------------------------------------

#[test]
fn registering_a_family_compiles_nothing() {
    let h = harness();
    let family = FamilyVariants::new();
    assert!(family.get(0).is_none());
    assert_eq!(h.source.pipelines().len(), 0);
}

#[test]
fn a_source_starts_with_no_pipelines() {
    let h = harness();
    assert_eq!(h.source.pipelines().len(), 0);
    assert!(h.source.scene().is_empty());
    assert_eq!(h.source.instance_capacity(), 0);
    assert_eq!(h.source.order(), FrameOrder::mesh());
    assert_eq!(h.source.context().graph, 3);
}

#[test]
fn a_unlit_mesh_is_built_from_its_keys_options() {
    let mut h = harness();
    let standard = h.tri_mesh();
    let uv_less = h.upload(VertexBufferLayoutDesc::empty(), Some(vec![0, 1, 2]));

    assert!(unlit_flags_for_layout(&slots_flags(&standard)) & VERTEX_UV != 0);
    assert!(unlit_flags_for_layout(&slots_flags(&uv_less)) & VERTEX_UV == 0);
    assert_eq!(standard.vertex_buffers.len(), 2);
    assert_eq!(uv_less.vertex_buffers.len(), 1);

    let (view, sampler) = (ResourceId(90), ResourceId(91));
    assert!(
        allocate_unlit_material(MESH_MASK | BASE_COLOR_TEXTURE, BASE_COLOR_TEXTURE, view, sampler)
            .is_some()
    );
    assert!(allocate_unlit_material(MESH_MASK, BASE_COLOR_TEXTURE, view, sampler).is_none());
}

#[test]
fn every_registered_pipeline_gets_its_own_global_group() {
    let mut h = harness();
    let mut family = FamilyVariants::new();
    for ordinal in 0..2 {
        let dependencies = h.source.global_dependencies();
        assert_eq!(
            dependencies,
            vec![ResourceId(0), ResourceId(1), ResourceId(2)]
        );
        let group = h
            .graph
            .insert(true, dependencies.iter().map(|id| id.0).collect());
        let id = family.resolve(ordinal, h.source.pipelines_mut(), Some(group));
        assert_eq!(id.as_usize(), ordinal as usize);
    }
    assert_eq!(h.source.pipelines().len(), 2);
    let ids: Vec<_> = (0..2)
        .map(|index| {
            h.source
                .pipelines()
                .global(PipelineId::new(index))
                .expect("has a global group")
        })
        .collect();
    assert!(h.graph.has(ids[0]) && h.graph.has(ids[1]));
    assert_ne!(ids[0], ids[1]);
}

#[test]
fn a_variant_is_compiled_when_a_draw_resolves_it() {
    let mut pipelines = RegisteredPipelines::new();
    let mut family = FamilyVariants::new();
    let first = family.resolve(0, &mut pipelines, Some(ResourceId(5)));
    assert_eq!(pipelines.len(), 1);
    // The same variant again reuses the compiled pipeline.
    assert_eq!(family.get(0), Some(first));
    assert_eq!(family.resolve(0, &mut pipelines, None), first);
    assert_eq!(pipelines.len(), 1);
    assert_eq!(pipelines.global(first), Some(ResourceId(5)));
}

#[test]
fn only_dirty_global_groups_are_rebuilt() {
    let mut pipelines = RegisteredPipelines::new();
    for global in [Some(ResourceId(5)), None, Some(ResourceId(6)), Some(ResourceId(7))] {
        pipelines.register_concrete(global);
    }
    assert_eq!(
        pipelines.dirty_global_groups(&vec![true, true, false, true]),
        vec![ResourceId(5), ResourceId(7)]
    );
    assert!(pipelines
        .dirty_global_groups(&vec![false; 4])
        .is_empty());
}

#[test]
fn a_global_group_binds_metadata_only_where_it_is_read() {
    let h = harness();
    let bindings = GlobalBindings {
        camera: 4,
        frame: 5,
        mesh_metadata: 6,
    };
    let plain = vec![(4, ResourceId(0)), (5, ResourceId(1))];
    assert_eq!(h.source.buffers().global_entries(bindings, false), plain);
    let mut full = plain;
    full.push((6, ResourceId(2)));
    assert_eq!(h.source.buffers().global_entries(bindings, true), full);
    assert_eq!(h.source.buffers().index_pool, ResourceId(3));
}

#[test]
fn specializing_replaces_only_what_the_mesh_decides() {
    assert_eq!(
        specialized_flags(
            BASE_COLOR_TEXTURE | VERTEX_UV,
            MESH_MASK,
            &vec![VERTEX_POSITION, VERTEX_INSTANCE],
            None
        ),
        BASE_COLOR_TEXTURE | VERTEX_POSITION | VERTEX_INSTANCE
    );
    assert_eq!(specialized_flags(MESH_MASK, MESH_MASK, &vec![], None), 0);
    let mask = MESH_MASK | MORPH_POSITIONS;
    assert_eq!(
        specialized_flags(BASE_COLOR_TEXTURE, mask, &vec![1], Some(MORPH_POSITIONS)),
        BASE_COLOR_TEXTURE | VERTEX_POSITION | MORPH_POSITIONS
    );
    assert_eq!(
        specialized_flags(MORPH_POSITIONS, mask, &vec![1], None),
        VERTEX_POSITION
    );
}

#[test]
fn a_trivial_specializer_keeps_the_key_and_the_descriptor() {
    let mut h = harness();
    let mesh = h.tri_mesh();
    let draw = DrawKey::for_mesh("surface", &mesh);
    assert_eq!(draw.vertex_buffers.len(), mesh.vertex_layout.len());
    for (ours, theirs) in draw.vertex_buffers.iter().zip(&mesh.vertex_layout) {
        assert_eq!(ours.0, theirs.0);
        assert_eq!(ours.1.array_stride, theirs.1.array_stride);
        assert_eq!(ours.1.attributes, theirs.1.attributes);
    }
    let mut descriptor = 12;
    let specializer = TrivialSpecializer::<u8>::default();
    let key = specializer
        .clone()
        .specialize(FamilyKey::of(3u8, draw), &mut descriptor);
    assert_eq!((key.key, key.draw.surface, descriptor), (3, "surface", 12));

    let desc = RenderPipelineFactory::default().descriptor::<_, (), ()>("pipeline");
    assert_eq!(desc.pipeline, "pipeline");
    assert!(desc.global.is_none());
    assert!(desc.material_layout.is_none() && desc.mesh_layout.is_none());
}

// -- materials ---------------------------------------------------------------

#[test]
fn a_material_is_allocated_from_caller_owned_resources() {
    let mut h = harness();
    let view = h.graph.insert(true, vec![]);
    let sampler = h.graph.insert(true, vec![]);
    let plan = allocate_unlit_material(BASE_COLOR_TEXTURE, BASE_COLOR_TEXTURE, view, sampler)
        .expect("the standard variant reads a base-color texture");
    assert_eq!(plan.dependencies(), vec![view, sampler]);
    let material = GpuMaterial {
        bind_group_id: h
            .graph
            .insert(true, plan.dependencies().iter().map(|id| id.0).collect()),
    };
    assert!(h.graph.has(material.bind_group_id));
}

#[test]
fn a_variant_without_a_base_color_texture_allocates_no_material() {
    assert!(allocate_unlit_material(
        MESH_MASK,
        BASE_COLOR_TEXTURE,
        ResourceId(1),
        ResourceId(2)
    )
    .is_none());
}

#[test]
fn removing_a_material_keeps_the_resources_it_reads() {
    let mut h = harness();
    let view = h.graph.insert(true, vec![]);
    let sampler = h.graph.insert(true, vec![]);
    let plan = allocate_unlit_material(BASE_COLOR_TEXTURE, BASE_COLOR_TEXTURE, view, sampler)
        .expect("the standard variant reads a base-color texture");
    let group = h
        .graph
        .insert(true, plan.dependencies().iter().map(|id| id.0).collect());
    h.graph.remove(group);
    assert!(!h.graph.has(group), "the bind group is gone");
    assert!(h.graph.has(view), "the view stays");
    assert!(h.graph.has(sampler), "the sampler stays");
}

// -- uploads and removal -----------------------------------------------------

#[test]
fn a_source_starts_with_its_shared_buffers() {
    let plan = |role, size| BufferPlan { role, size };
    assert_eq!(
        initial_buffers(80, 16, 48),
        vec![
            plan(BufferRole::Camera, 80),
            plan(BufferRole::Globals, 16),
            plan(BufferRole::Metadata, 48),
            plan(BufferRole::IndexPool, 4096),
        ]
    );
}

#[test]
fn removing_a_mesh_frees_every_resource_built_from_it() {
    let mut h = harness();
    let mesh = h.tri_mesh();
    let before = h.graph.nodes.len();
    let bind_group = mesh.bind_group_id.expect("the mesh has a group");
    let root = mesh.root;
    let ranges = h.index_pool.ranges.len();

    h.remove_mesh(mesh);

    assert!(!h.graph.has(root), "root removed");
    assert!(
        !h.graph.has(bind_group),
        "the bind group built from them removed"
    );
    assert_eq!(
        h.graph.nodes.len(),
        before - 3,
        "the root, the group and the uniform are gone"
    );
    assert!(
        h.index_pool.ranges.len() < ranges,
        "the mesh's index range is free again"
    );
}

#[test]
fn a_mesh_registers_its_pooled_parts_nowhere_under_its_root() {
    let mut h = harness();
    let mesh = h.tri_mesh();
    let dependencies = h.graph.nodes[&mesh.root.0].1.clone();
    let bind_group = mesh.bind_group_id.expect("the mesh has a group");
    assert!(
        dependencies.contains(&bind_group.0),
        "the bind group is under the root"
    );
    let pool = h.source.buffers().index_pool;
    assert!(
        !dependencies.contains(&pool.0),
        "the index pool is not under the root"
    );
    for (_, id) in &mesh.vertex_buffers {
        assert!(!dependencies.contains(&id.0), "nor is a vertex stream");
    }
    h.remove_mesh(mesh);
    assert!(h.graph.has(pool), "the index pool survives");
}

#[test]
fn a_mesh_that_owns_its_buffers_takes_them_along() {
    let mut h = harness();
    let desc = MeshDesc {
        vertex_buffers: [
            VertexBufferDesc {
                slot: 0,
                layout: position_layout(),
            },
            VertexBufferDesc {
                slot: 3,
                layout: uv_color_layout(),
            },
        ]
        .into_iter()
        .collect(),
        index_format: Some(IndexFormat::Uint32),
        count: 36,
        indexed: true,
        aabb: aabb(),
        bind_group: true,
        mesh_info: true,
        morph_targets: Some(2),
    };
    let plan = upload_plan(mesh_shape(&desc));
    let parts: Vec<Part> = plan.iter().map(|insert| insert.part).collect();
    assert_eq!(
        parts,
        vec![
            Part::VertexBuffer(0),
            Part::VertexBuffer(1),
            Part::IndexBuffer,
            Part::MeshInfo,
            Part::MorphDeltas,
            Part::BindGroup,
            Part::Root,
        ]
    );
    assert_eq!(plan[5].dependencies, vec![3, 4], "what the group reads");
    assert_eq!(plan[6].dependencies, vec![0, 1, 2, 5, 3, 4]);
    assert!(plan[6].strong && plan[..6].iter().all(|insert| !insert.strong));

    let before = h.graph.nodes.len();
    let ids = h.graph.insert_plan(&desc);
    assert_eq!(mesh_info_node(mesh_shape(&desc), &ids), Some(ids[3]));
    let mesh = h.source.allocate_mesh_with_metadata(&desc, &ids, 5);
    assert_eq!(mesh.root, ids[6]);
    assert_eq!(
        mesh.vertex_buffers.as_slice(),
        &[(0, ids[0]), (3, ids[1])]
    );
    assert_eq!(mesh.index_buffer, Some((ids[2], IndexFormat::Uint32)));
    assert_eq!(mesh.bind_group_id, Some(ids[5]));
    assert_eq!((mesh.count, mesh.first, mesh.base_vertex), (36, 0, 0));
    assert_eq!(mesh.morph_targets, 2);
    assert!(mesh.vertex_allocation.is_none() && mesh.index_allocation.is_none());

    h.remove_mesh(mesh);
    assert_eq!(h.graph.nodes.len(), before, "every part went with the root");
}

#[test]
fn a_removed_mesh_frees_its_metadata_slot() {
    let mut h = harness();
    let first = h.tri_mesh();
    let second = h.tri_mesh();
    let first_index = first.metadata_index;
    assert_ne!(first_index, second.metadata_index);

    h.remove_mesh(first);
    let reused = h.tri_mesh();

    assert_eq!(
        reused.metadata_index, first_index,
        "the slot the removed mesh held is handed out again"
    );
    assert_ne!(reused.metadata_index, second.metadata_index);
}

#[test]
fn indexed_meshes_share_one_index_buffer() {
    let mut h = harness();
    let first = h.tri_mesh();
    let second = h.tri_mesh();

    let pool = h.source.buffers().index_pool;
    assert_eq!(first.index_buffer.map(|(id, _)| id), Some(pool));
    assert_eq!(second.index_buffer.map(|(id, _)| id), Some(pool));
    assert_ne!(first.first, second.first, "the slices do not overlap");

    // The ranges tile the pool in allocation order.
    let allocation = first
        .index_allocation
        .expect("the mesh holds an allocation");
    let first_range = h.index_pool.ranges[&(allocation.0 as u32)];
    assert_eq!(
        first.first + first_range / index_format_size(IndexFormat::Uint16),
        second.first,
        "the second mesh starts where the first ends"
    );
}

#[test]
fn a_removed_mesh_frees_its_index_range_for_the_next_mesh() {
    let mut h = harness();
    let first = h.tri_mesh();
    let first_offset = first.first;
    h.remove_mesh(first);

    let again = h.tri_mesh();
    assert_eq!(
        again.first, first_offset,
        "the freed range is handed out again"
    );
}

#[test]
fn a_non_indexed_mesh_holds_no_index_allocation() {
    let mut h = harness();
    let mesh = h.upload(uv_color_layout(), None);

    assert!(!mesh.indexed);
    assert!(mesh.index_buffer.is_none());
    assert!(mesh.index_allocation.is_none());
    assert_eq!(mesh.first, 0);
    assert_eq!(mesh.count, 3);

    // A second one starts at its own vertices, and an empty index list is none.
    let second = h.upload(uv_color_layout(), Some(vec![]));
    assert!(!second.indexed && second.index_buffer.is_none());
    assert_eq!((second.first, second.base_vertex), (3, 3));
}

#[test]
fn meshes_sharing_a_layout_share_one_buffer_per_stream() {
    let mut h = harness();
    let first = h.tri_mesh();
    let second = h.tri_mesh();
    for ((_, first_id), (_, second_id)) in first
        .vertex_buffers
        .iter()
        .zip(second.vertex_buffers.iter())
    {
        assert_eq!(first_id, second_id, "the streams share a buffer");
        assert!(h.graph.has(*first_id), "the stream's node is in the graph");
    }
    assert_ne!(
        first.vertex_buffers[0].1, first.vertex_buffers[1].1,
        "layouts that differ do not share a buffer"
    );
    assert_eq!(first.base_vertex, 0);
    assert_ne!(second.base_vertex, first.base_vertex);
}

#[test]
fn a_layout_is_found_by_all_it_declares() {
    let mut h = harness();
    let base = uv_color_layout();
    assert_eq!(h.source.vertex_node(&base), None);
    h.source.add_vertex_node(&base, ResourceId(40));
    assert_eq!(h.source.vertex_node(&base), Some(ResourceId(40)));
    assert_eq!(h.source.vertex_node(&base.clone()), Some(ResourceId(40)));

    let mut stride = base.clone();
    stride.array_stride += 4;
    let mut step = base.clone();
    step.step_mode = VertexStepMode::Instance;
    let mut fewer = base.clone();
    fewer.attributes.pop();
    let mut moved = base.clone();
    moved.attributes[1].offset += 4;
    let mut located = base.clone();
    located.attributes[1].shader_location += 1;
    let mut format = base.clone();
    format.attributes[1].format = VertexFormat::Float32;
    for other in [stride, step, fewer, moved, located, format] {
        assert_eq!(h.source.vertex_node(&other), None);
        h.source.add_vertex_node(&other, ResourceId(41));
        assert_eq!(h.source.vertex_node(&other), Some(ResourceId(41)));
    }
    assert_eq!(h.source.vertex_node(&base), Some(ResourceId(40)));
}

#[test]
fn a_removed_mesh_frees_its_vertex_range_for_the_next_mesh() {
    let mut h = harness();
    let first = h.tri_mesh();
    let vertex_offset = first.base_vertex;
    h.remove_mesh(first);

    let again = h.tri_mesh();
    assert_eq!(
        again.base_vertex, vertex_offset,
        "the freed element range is handed out again"
    );
}

#[test]
fn a_slot_no_layout_declares_is_an_empty_stream() {
    let layouts = vec![None, Some(position_layout())];
    assert_eq!(layout_of(&layouts, 1).array_stride, 8);
    for slot in [0, 2] {
        let empty = layout_of(&layouts, slot);
        assert_eq!(empty.array_stride, 0);
        assert_eq!(empty.step_mode, VertexStepMode::Vertex);
        assert!(empty.attributes.is_empty());
    }
    assert_eq!(
        written_streams(&position_layout(), &VertexBufferLayoutDesc::empty()),
        vec![Stream::Position]
    );
    assert_eq!(
        written_streams(&position_layout(), &uv_color_layout()),
        vec![Stream::Position, Stream::UvColor]
    );
}

#[test]
fn indices_are_packed_narrow_and_padded() {
    let indices = vec![0u32, 1, 0x0203];
    let narrow: Vec<u16> = vec![0, 1, 0x0203];
    let mut expected: Vec<u8> = Vec::new();
    for value in &narrow {
        expected.extend(value.to_ne_bytes());
    }
    expected.extend([0, 0]);
    assert_eq!(
        pack_indices(Some(&indices), Some(narrow)),
        Some(PackedIndices {
            format: IndexFormat::Uint16,
            count: 3,
            data: expected,
        })
    );
}

#[test]
fn indices_that_do_not_fit_stay_wide() {
    let indices = vec![7u32, 0x0102_0304];
    let mut expected: Vec<u8> = Vec::new();
    for value in &indices {
        expected.extend(value.to_ne_bytes());
    }
    assert_eq!(
        pack_indices(Some(&indices), None),
        Some(PackedIndices {
            format: IndexFormat::Uint32,
            count: 2,
            data: expected,
        })
    );
    assert_eq!(pack_indices(Some(&vec![]), None), None);
    assert_eq!(pack_indices(None, None), None);
}

#[test]
fn a_range_starts_at_a_whole_index() {
    assert_eq!(first_index(8, IndexFormat::Uint16), 4);
    assert_eq!(first_index(8, IndexFormat::Uint32), 2);
}

// -- draw ordering -----------------------------------------------------------

/// An entity of the frame: what it was resolved to.
fn resolved(pipeline: u32, material: Option<u64>, depth: f32, z_sorted: bool) -> ResolvedDraw {
    ResolvedDraw {
        root: ResourceId(1),
        pipeline_id: PipelineId::new(pipeline),
        material: material.map(|id| GpuMaterial {
            bind_group_id: ResourceId(id),
        }),
        depth: Scalar(depth.to_bits()),
        z_sorted,
    }
}

/// The lists a frame refills.
#[derive(Default)]
struct Caches {
    visible: Vec<VisibleEntry<Entity, u32>>,
    scratch: Vec<VisibleEntry<Entity, u32>>,
    instances: Vec<u32>,
    handles: Vec<EntryHandles>,
}

impl Caches {
    /// Refill the visible entries with what one family resolves `draws` to:
    /// entities are numbered from one, and carry ten times their number as
    /// their instance.
    fn fill(&mut self, draws: Vec<Option<ResolvedDraw>>) {
        let meshes = (1..=draws.len() as u32)
            .map(|entity| VisibleMesh {
                entity,
                instance: 10 * entity,
            })
            .collect();
        collect_and_sort_visible(&meshes, &vec![draws], &mut self.visible, &mut self.scratch);
    }

    /// How much each list has room for.
    fn capacities(&self) -> [usize; 4] {
        [
            self.visible.capacity(),
            self.scratch.capacity(),
            self.instances.capacity(),
            self.handles.capacity(),
        ]
    }
}

/// The frame one family resolves `draws` to.
fn frame(draws: Vec<Option<ResolvedDraw>>) -> Vec<VisibleEntry<Entity, u32>> {
    let mut caches = Caches::default();
    caches.fill(draws);
    caches.visible
}

fn drawn(visible: &[VisibleEntry<Entity, u32>]) -> Vec<Entity> {
    visible.iter().map(|entry| entry.mesh.entity).collect()
}

#[test]
fn entities_without_a_sort_marker_are_drawn_first() {
    // The z-sorted entity is the nearer of the two.
    let visible = frame(vec![
        Some(resolved(0, None, 1.0, true)),
        Some(resolved(0, None, 5.0, false)),
    ]);
    assert_eq!(drawn(&visible), vec![2, 1]);
    assert!(visible[0].depth.0 > visible[1].depth.0);
}

#[test]
fn z_sorted_entities_are_drawn_back_to_front() {
    let visible = frame(vec![
        Some(resolved(0, None, 1.0, true)),
        Some(resolved(0, None, 5.0, true)),
        Some(resolved(0, None, 9.0, true)),
    ]);
    assert_eq!(drawn(&visible), vec![3, 2, 1]);
    // Whatever they are drawn with.
    let visible = frame(vec![
        Some(resolved(0, None, 1.0, true)),
        Some(resolved(1, Some(4), 5.0, true)),
        Some(resolved(0, None, 9.0, true)),
    ]);
    assert_eq!(drawn(&visible), vec![3, 2, 1]);
}

#[test]
fn entities_are_drawn_in_pipeline_id_order() {
    let visible = frame(vec![
        Some(resolved(1, None, 5.0, false)),
        Some(resolved(0, None, 5.0, false)),
    ]);
    assert_eq!(drawn(&visible), vec![2, 1]);
}

#[test]
fn opaque_draws_sharing_a_material_stay_adjacent() {
    let visible = frame(vec![
        Some(resolved(0, Some(7), 5.0, false)),
        Some(resolved(0, Some(8), 5.0, false)),
        Some(resolved(0, Some(7), 5.0, false)),
    ]);
    let order = drawn(&visible);
    assert_eq!(order.len(), 3);
    let at = |entity| order.iter().position(|&e| e == entity).expect("it is drawn");
    let (a, c): (usize, usize) = (at(1), at(3));
    assert_eq!(a.abs_diff(c), 1);
}

#[test]
fn sorting_survives_a_second_frame_on_the_reused_cache() {
    let draws = vec![
        Some(resolved(0, None, 5.0, false)),
        Some(resolved(0, None, 5.0, true)),
    ];
    let mut caches = Caches::default();
    caches.fill(draws.clone());
    assert_eq!(drawn(&caches.visible), vec![1, 2]);

    // The cache is cleared and refilled, not reallocated.
    let capacities = caches.capacities();
    caches.fill(draws);
    assert_eq!(drawn(&caches.visible), vec![1, 2]);
    assert_eq!(caches.capacities(), capacities);
}

#[test]
fn an_entity_without_a_pipeline_is_not_drawn() {
    let visible = frame(vec![None, Some(resolved(0, None, 5.0, false))]);
    assert_eq!(drawn(&visible), vec![2]);
    let mut instances = vec![7, 7];
    pack_instances(&visible, &mut instances);
    assert_eq!(instances, vec![20]);
}

#[test]
fn two_families_share_one_order() {
    let meshes = vec![
        VisibleMesh {
            entity: 1,
            instance: 10,
        },
        VisibleMesh {
            entity: 2,
            instance: 20,
        },
    ];
    let mut caches = Caches::default();
    collect_and_sort_visible(
        &meshes,
        &vec![
            vec![None, Some(resolved(1, None, 1.0, false))],
            vec![Some(resolved(0, None, 1.0, false)), None],
        ],
        &mut caches.visible,
        &mut caches.scratch,
    );
    assert_eq!(drawn(&caches.visible), vec![1, 2]);
}

#[test]
fn collect_visible_keeps_only_the_visible_meshes() {
    let candidate = |entity, culled| Candidate {
        entity,
        instance: 10 * entity,
        culled,
    };
    let mut out = vec![VisibleMesh {
        entity: 9u32,
        instance: 90,
    }];
    collect_visible(
        &vec![
            candidate(1, false),
            candidate(2, true),
            candidate(3, false),
        ],
        &mut out,
    );
    let kept: Vec<(u32, u32)> = out.iter().map(|mesh| (mesh.entity, mesh.instance)).collect();
    assert_eq!(kept, vec![(1, 10), (3, 30)]);
}

// -- metadata ----------------------------------------------------------------

#[test]
fn the_metadata_buffer_grows_only_when_the_array_outgrows_it() {
    let mut h = harness();
    assert_eq!(h.source.metadata().capacity(), 1);

    h.tri_mesh();
    h.begin(false, false);
    assert_eq!(h.source.metadata().capacity(), 1, "one entry fills the room");

    h.tri_mesh();
    assert_eq!(
        h.begin(false, false),
        vec![
            FrameStep::GrowMetadata(2),
            FrameStep::RebuildGlobalGroups,
            FrameStep::UploadMetadata,
        ]
    );
    assert_eq!(
        h.source.metadata().capacity(),
        2,
        "a second entry outgrows room for one"
    );

    h.tri_mesh();
    h.begin(false, false);
    assert_eq!(h.source.metadata().capacity(), 4);

    h.tri_mesh();
    assert_eq!(
        h.begin(false, false),
        vec![FrameStep::UploadMetadata],
        "no growth means the same buffer, so no global group is rebuilt"
    );
    assert_eq!(h.source.metadata().capacity(), 4, "four entries fit");
    assert_eq!(h.source.metadata().entries(), &vec![77; 4]);
}

#[test]
fn a_removed_mesh_marks_the_metadata_array_for_upload() {
    let mut h = harness();
    let mesh = h.tri_mesh();
    h.begin(false, false);
    assert!(
        !h.source.metadata().is_dirty(),
        "the mesh's own upload cleared it"
    );

    h.remove_mesh(mesh);
    assert!(
        h.source.metadata().is_dirty(),
        "removing a mesh marks the array"
    );
    assert_eq!(h.source.metadata().entries(), &vec![0]);
    h.begin(false, false);
    assert!(
        !h.source.metadata().is_dirty(),
        "the upload cleared the mark"
    );
}

#[test]
fn a_slot_that_does_not_exist_is_not_freed() {
    let mut array = MetadataArray::new();
    array.remove(3, 0u32);
    assert!(!array.is_dirty());
    assert_eq!(array.upload(), MetadataUpload::Nothing);
    assert_eq!(array.allocate(1), 0);
    assert_eq!(array.upload(), MetadataUpload::InPlace);
}

#[test]
fn an_instance_buffer_at_least_doubles() {
    assert_eq!(grow_instances(0, 0), None);
    assert_eq!(grow_instances(0, 1), Some(1));
    assert_eq!(grow_instances(4, 4), None);
    assert_eq!(grow_instances(4, 5), Some(8));
    assert_eq!(grow_instances(4, 100), Some(100));
}

// -- a whole built scene -----------------------------------------------------

#[test]
fn a_frame_without_a_camera_only_clears() {
    let mut h = harness();
    h.tri_mesh();
    assert_eq!(
        h.begin(false, true),
        vec![FrameStep::UploadMetadata]
    );
    assert!(h.source.scene().is_empty(), "the scene is empty");
    assert!(h.begin(true, false).is_empty());
    assert!(h.finish(0).is_empty());
}

/// The range a draw covers, and its instances.
fn range(draw: &DrawEntry) -> (bool, u32, u32, i32, (u32, u32)) {
    match &draw.range {
        DrawRange::Indexed {
            indices,
            base_vertex,
            instances,
        } => (
            true,
            indices.start,
            indices.end,
            *base_vertex,
            (instances.start, instances.end),
        ),
        DrawRange::Vertices {
            vertices,
            instances,
        } => (
            false,
            vertices.start,
            vertices.end,
            0,
            (instances.start, instances.end),
        ),
    }
}

/// Build a frame of entities drawn with these meshes, through one pipeline.
fn build(h: &mut Harness, meshes: &[&GpuMesh], z_sorted: bool) -> Vec<Entity> {
    build_in(&mut Caches::default(), h, meshes, z_sorted)
}

/// Build a frame in these lists.
fn build_in(
    caches: &mut Caches,
    h: &mut Harness,
    meshes: &[&GpuMesh],
    z_sorted: bool,
) -> Vec<Entity> {
    if h.source.pipelines().len() == 0 {
        h.source
            .pipelines_mut()
            .register_concrete(Some(ResourceId(50)));
    }
    let steps = h.begin(true, true);
    assert_eq!(
        &steps[steps.len() - 4..],
        &[
            FrameStep::UploadGlobals,
            FrameStep::UploadCamera,
            FrameStep::RebuildGlobalGroups,
            FrameStep::CollectVisible,
        ]
    );
    let draws = meshes
        .iter()
        .map(|mesh| {
            Some(ResolvedDraw {
                root: mesh.root,
                ..resolved(0, Some(60), 5.0, z_sorted)
            })
        })
        .collect();
    caches.fill(draws);
    let steps = h.finish(caches.visible.len() as u32);
    assert_eq!(
        &steps[steps.len() - 3..],
        &[
            FrameStep::UploadPoses,
            FrameStep::UploadInstances,
            FrameStep::AssembleFrame,
        ],
        "every frame that draws uploads its poses"
    );
    pack_instances(&caches.visible, &mut caches.instances);
    let material = GpuMaterial {
        bind_group_id: ResourceId(60),
    };
    caches.handles.clear();
    caches.handles.extend(caches.visible.iter().map(|entry| {
        EntryHandles::of(meshes[entry.mesh.entity as usize - 1], Some(material))
    }));
    h.source.assemble_frame(&caches.visible, &caches.handles);
    drawn(&caches.visible)
}

#[test]
fn rendering_a_world_twice_reuses_every_per_frame_cache() {
    let mut h = harness();
    let mesh = h.tri_mesh();
    let mut caches = Caches::default();
    let first = build_in(&mut caches, &mut h, &[&mesh], true);
    assert_eq!(first.len(), 1, "the entity was drawn");
    assert_eq!(h.source.scene().len(), 1);
    let instances = h.source.instance_capacity();
    let capacities = (caches.capacities(), h.source.scene().capacity());
    assert_eq!(
        build_in(&mut caches, &mut h, &[&mesh], true),
        first,
        "the same draws, in order"
    );
    assert_eq!(h.source.scene().len(), 1, "nothing is replayed");
    assert_eq!(h.source.instance_capacity(), instances);
    assert_eq!(
        (caches.capacities(), h.source.scene().capacity()),
        capacities,
        "a second frame allocates nothing"
    );
}

#[test]
fn an_indexed_mesh_followed_by_another_keeps_its_own_slice() {
    let mut h = harness();
    let first = h.tri_mesh();
    let second = h.tri_mesh();
    assert!(first.indexed && second.indexed, "both meshes are indexed");
    assert_ne!(first.first, second.first, "the slices do not overlap");

    let order = build(&mut h, &[&first, &second], false);
    assert_eq!(order.len(), 2, "both entities were drawn");
    let draws = h.source.scene();
    assert_eq!(range(&draws[0]), (true, 0, 3, 0, (0, 1)));
    assert_eq!(range(&draws[1]), (true, 4, 7, 3, (1, 2)));
    for draw in draws {
        assert_eq!(draw.global_bg, Some(ResourceId(50)));
        assert_eq!(draw.material_bg, Some(ResourceId(60)));
        assert_eq!(draw.vertex_buffers, first.vertex_buffers);
        assert_eq!(draw.index_buffer, first.index_buffer);
    }
    assert_eq!(draws[1].mesh_bg, second.bind_group_id);
}

/// Three entities that share a mesh, a material and a pipeline are one
/// instanced draw, whatever stood between them.
#[test]
fn matching_draws_collapse_into_one_instanced_draw() {
    let mut h = harness();
    let shared = h.tri_mesh();
    let other = h.upload(uv_color_layout(), None);
    let order = build(&mut h, &[&shared, &other, &shared, &shared], false);
    assert_eq!(order, vec![1, 3, 4, 2]);
    let draws = h.source.scene();
    assert_eq!(draws.len(), 2, "the shared mesh is one instanced draw");
    assert_eq!(range(&draws[0]), (true, 0, 3, 0, (0, 3)));
    assert_eq!(range(&draws[1]), (false, 3, 6, 0, (3, 4)));
    assert_eq!(h.source.instance_capacity(), 4);
}

// -- poses -------------------------------------------------------------------

fn posed(skinned: bool, morph_targets: u32) -> GpuMesh {
    let mut h = harness();
    let mut mesh = h.tri_mesh();
    mesh.skinned = skinned;
    mesh.morph_targets = morph_targets;
    mesh
}

#[test]
fn a_mesh_needs_the_pose_it_reads() {
    let skin = SkinPose::new(vec![0u8, 1]);
    let one = MorphWeights::new(vec![Scalar::one()]);
    let two = MorphWeights::new(vec![Scalar::one(); 2]);
    let plain = posed(false, 0);
    assert_eq!(check_pose::<u8>(&plain, None, None), Ok(()));
    assert_eq!(check_pose(&plain, Some(&skin), Some(&one)), Ok(()));

    let skinned = posed(true, 0);
    assert_eq!(
        check_pose::<u8>(&skinned, None, None),
        Err(PoseError::NoSkinBinding)
    );
    assert_eq!(check_pose(&skinned, Some(&skin), None), Ok(()));

    let morphed = posed(false, 2);
    assert_eq!(
        check_pose::<u8>(&morphed, None, None),
        Err(PoseError::NoMorphBinding)
    );
    assert_eq!(
        check_pose::<u8>(&morphed, None, Some(&one)),
        Err(PoseError::WeightCount)
    );
    assert_eq!(check_pose::<u8>(&morphed, None, Some(&two)), Ok(()));
}

#[test]
fn a_variant_needs_the_channels_it_reads() {
    let none = Deformation {
        reads_joints: false,
        has_skin: false,
        reads_morphs: false,
        morph_targets: 0,
    };
    assert_eq!(check_channels(none), Ok(()));
    assert_eq!(
        check_channels(Deformation {
            reads_joints: true,
            ..none
        }),
        Err(PoseError::NoSkin)
    );
    assert_eq!(
        check_channels(Deformation {
            reads_morphs: true,
            ..none
        }),
        Err(PoseError::NoTargets)
    );
    assert_eq!(
        check_channels(Deformation {
            reads_joints: true,
            has_skin: true,
            reads_morphs: true,
            morph_targets: 1,
        }),
        Ok(())
    );
}

#[test]
fn variants_of_two_families_share_no_pipeline() {
    let mut pipelines = RegisteredPipelines::new();
    let mut first = FamilyVariants::new();
    let mut second = FamilyVariants::new();
    let a = first.resolve(0, &mut pipelines, None);
    let b = second.resolve(0, &mut pipelines, Some(ResourceId(4)));
    let c = first.resolve(1, &mut pipelines, None);
    assert_eq!((a.as_usize(), b.as_usize(), c.as_usize()), (0, 1, 2));

    // A variant that was seen is found again and registers nothing.
    assert_eq!(first.resolve(0, &mut pipelines, None), a);
    assert_eq!(first.resolve(1, &mut pipelines, None), c);
    assert_eq!(second.resolve(0, &mut pipelines, None), b);
    assert_eq!(pipelines.len(), 3);
}

#[test]
fn pooled_meshes_read_ranges_of_their_own() {
    let mut h = harness();
    let meshes = [h.tri_mesh(), h.tri_mesh(), h.tri_mesh()];
    for (i, a) in meshes.iter().enumerate() {
        for b in &meshes[i + 1..] {
            assert_eq!(
                a.index_buffer.map(|(id, _)| id),
                b.index_buffer.map(|(id, _)| id)
            );
            assert_eq!(a.vertex_buffers, b.vertex_buffers);
            assert!(a.first + a.count <= b.first || b.first + b.count <= a.first);
            assert!(a.base_vertex + 3 <= b.base_vertex || b.base_vertex + 3 <= a.base_vertex);
        }
    }
}

// -- specialization cache ----------------------------------------------------

/// The built-in family, as far as a draw's variant goes: variants are numbered
/// in the order their canonical keys are first asked for.
struct Family {
    keys: Vec<(SurfaceKey, u32)>,
    variants: FamilyVariants,
    pipelines: RegisteredPipelines,
}

fn family() -> Family {
    Family {
        keys: vec![],
        variants: FamilyVariants::new(),
        pipelines: RegisteredPipelines::new(),
    }
}

/// The flags each slot of a draw implies, from where its attributes are read.
fn channel_flags(draw: &DrawKey<SurfaceKey>) -> Vec<u32> {
    draw.vertex_buffers
        .iter()
        .map(|(slot, layout)| match slot {
            0 => VERTEX_POSITION,
            1 => layout
                .attributes
                .iter()
                .map(|attribute| match attribute.shader_location {
                    1 => VERTEX_UV,
                    _ => VERTEX_COLOR,
                })
                .sum(),
            _ => VERTEX_INSTANCE,
        })
        .collect()
}

impl Family {
    /// The pipeline an entity drawn with `mesh` resolves to.
    fn resolve_draw(&mut self, surface: SurfaceKey, mesh: &GpuMesh) -> PipelineId {
        let draw = DrawKey::for_mesh(surface, mesh);
        let flags = specialized_flags(
            BASE_COLOR_TEXTURE,
            MESH_MASK | VERTEX_COLOR | MORPH_POSITIONS,
            &channel_flags(&draw),
            draw.morphed.then_some(MORPH_POSITIONS),
        );
        let key = (draw.surface, flags);
        let ordinal = self.keys.iter().position(|&known| known == key);
        let ordinal = ordinal.unwrap_or_else(|| {
            self.keys.push(key);
            self.keys.len() - 1
        });
        self.variants
            .resolve(ordinal as u32, &mut self.pipelines, None)
    }
}

fn internal() -> SurfaceKey {
    SurfaceKey {
        color_format: wgpu::TextureFormat::Rgba8UnormSrgb,
        depth_stencil_format: Some(wgpu::TextureFormat::Depth24PlusStencil8),
        sample_count: 1,
    }
}

/// A triangle whose UVs are read at location one and whose colors at two.
fn standard_mesh(h: &mut Harness) -> GpuMesh {
    let mut uv_color = uv_color_layout();
    for attribute in &mut uv_color.attributes {
        attribute.shader_location += 1;
    }
    h.upload(uv_color, Some(vec![0, 1, 2]))
}

#[test]
fn a_render_target_change_respecializes_the_family() {
    let mut h = harness();
    let mesh = standard_mesh(&mut h);
    let mut family = family();
    let first = family.resolve_draw(internal(), &mesh);
    // The same key twice reuses one compiled pipeline.
    assert_eq!(family.resolve_draw(internal(), &mesh), first);

    // A different color format is a different surface, so the family compiles
    // a second variant for it.
    let other = SurfaceKey {
        color_format: wgpu::TextureFormat::Bgra8Unorm,
        ..internal()
    };
    let second = family.resolve_draw(other, &mesh);
    assert_ne!(second, first);
    assert_eq!(family.pipelines.len(), 2);
}

#[test]
fn a_mesh_layout_change_respecializes_the_family() {
    let mut h = harness();
    let standard = standard_mesh(&mut h);
    let mut family = family();
    let first = family.resolve_draw(internal(), &standard);

    // A second mesh whose layout declares fewer channels implies a different
    // variant.
    const COLOR: u32 = 2;
    let mut other = standard.clone();
    for (_, layout) in &mut other.vertex_layout {
        layout
            .attributes
            .retain(|attribute| attribute.shader_location != COLOR);
    }
    assert_ne!(
        DrawKey::for_mesh(internal(), &other),
        DrawKey::for_mesh(internal(), &standard)
    );

    let second = family.resolve_draw(internal(), &other);
    assert_ne!(second, first);
    assert_eq!(family.pipelines.len(), 2);
}

#[test]
fn meshes_that_share_flags_share_one_variant() {
    let mut h = harness();
    let base = standard_mesh(&mut h);
    let mut family = family();
    let first = family.resolve_draw(internal(), &base);

    // A layout the flags cannot tell from `base`: the attributes are at the
    // same locations, so the implied flags are identical even though the raw
    // keys differ.
    let mut twin = base.clone();
    for (_, layout) in &mut twin.vertex_layout {
        for attribute in &mut layout.attributes {
            attribute.offset += 4;
        }
        layout.array_stride += 4;
    }
    assert_ne!(
        DrawKey::for_mesh(internal(), &twin),
        DrawKey::for_mesh(internal(), &base)
    );

    let second = family.resolve_draw(internal(), &twin);
    assert_eq!(second, first);
    assert_eq!(family.pipelines.len(), 1);
}

/// Morph positions are no vertex stream, so the mesh itself tells its draw's
/// key that they are read.
#[test]
fn a_morphed_mesh_gets_a_variant_of_its_own() {
    let mut h = harness();
    let plain = standard_mesh(&mut h);
    let mut morphed = plain.clone();
    morphed.morph_targets = 2;
    let key = DrawKey::for_mesh(internal(), &morphed);
    assert!(key.morphed && !DrawKey::for_mesh(internal(), &plain).morphed);
    assert_ne!(key, DrawKey::for_mesh(internal(), &plain));
    assert_eq!(key, key.clone());

    let mut family = family();
    let first = family.resolve_draw(internal(), &plain);
    let second = family.resolve_draw(internal(), &morphed);
    assert_ne!(first, second);
    assert_eq!(family.resolve_draw(internal(), &morphed), second);
    assert_eq!(family.pipelines.len(), 2);
}

// -- copies ------------------------------------------------------------------

#[test]
fn a_copied_mesh_names_the_same_resources() {
    let mut h = harness();
    let mesh = h.tri_mesh();
    let copy = mesh.clone();
    assert_eq!(copy.root, mesh.root);
    assert_eq!(copy.vertex_buffers, mesh.vertex_buffers);
    assert_eq!(copy.vertex_layout, mesh.vertex_layout);
    assert_eq!(copy.index_buffer, mesh.index_buffer);
    assert_eq!((copy.first, copy.count), (mesh.first, mesh.count));
    assert_eq!(copy.base_vertex, mesh.base_vertex);
    assert_eq!(copy.metadata_index, mesh.metadata_index);
    assert_eq!(copy.vertex_allocation, mesh.vertex_allocation);
    assert_eq!(copy.index_allocation, mesh.index_allocation);
    assert_eq!(copy.bind_group_id, mesh.bind_group_id);
}

#[test]
fn keys_are_compared_and_hashed_by_what_they_hold() {
    let mut h = harness();
    let mesh = h.tri_mesh();
    let other = h.upload(VertexBufferLayoutDesc::empty(), None);
    let key = FamilyKey::of(3u8, DrawKey::for_mesh(internal(), &mesh));
    assert_eq!(key.clone(), key);
    assert_ne!(FamilyKey::of(4u8, key.draw.clone()), key);
    assert_ne!(
        FamilyKey::of(3u8, DrawKey::for_mesh(internal(), &other)),
        key
    );
    let mut draws = std::collections::HashSet::new();
    for mesh in [&mesh, &other, &mesh] {
        draws.insert(DrawKey::for_mesh(1u8, mesh));
    }
    assert_eq!(draws.len(), 2);
    let mut layouts = std::collections::HashSet::new();
    layouts.insert(position_layout());
    assert!(!layouts.insert(position_layout()));
    assert!(layouts.insert(uv_color_layout()));
}

#[test]
fn a_default_description_describes_nothing() {
    let desc = MeshDesc::default();
    assert!(desc.vertex_buffers.is_empty() && desc.index_format.is_none());
    assert_eq!((desc.count, desc.indexed), (0, false));
    assert_eq!(desc.aabb, aabb());
    assert_eq!(Aabb::default(), aabb());
    assert!(SkinPose::<u8>::default().matrices.is_empty());
    assert!(MorphWeights::default().weights.is_empty());

    let full = MeshDesc {
        vertex_buffers: [VertexBufferDesc {
            slot: 3,
            layout: position_layout(),
        }]
        .into_iter()
        .collect(),
        count: 5,
        ..MeshDesc::default()
    };
    let copy = full.clone();
    assert_eq!((copy.count, copy.vertex_buffers.len()), (5, 1));
    assert_eq!(copy.vertex_buffers[0].slot, 3);
    assert_eq!(copy.vertex_buffers[0].layout, position_layout());
}

// -- poses of a frame --------------------------------------------------------

#[test]
fn every_instance_reads_its_own_pose() {
    let mut h = harness();
    let plain = h.tri_mesh();
    let mut skinned = plain.clone();
    skinned.skinned = true;
    let mut morphed = plain.clone();
    morphed.morph_targets = 2;
    let (bent, straight) = (SkinPose::new(vec![1u8, 2, 3]), SkinPose::new(vec![4, 5]));
    let weights = MorphWeights::new(vec![Scalar(6), Scalar(7)]);
    let start = |first_joint, first_weight| PoseStart {
        first_joint,
        first_weight,
    };

    let mut poses = FramePoses::new();
    // Two instances of one mesh have a pose each.
    assert_eq!(poses.push(&skinned, Some(&bent), None), Ok(()));
    assert_eq!(poses.push(&skinned, Some(&straight), None), Ok(()));
    // What a mesh does not read is not uploaded for it.
    assert_eq!(poses.push(&plain, Some(&bent), Some(&weights)), Ok(()));
    assert_eq!(poses.push(&morphed, None, Some(&weights)), Ok(()));
    assert_eq!(poses.push(&skinned, Some(&straight), None), Ok(()));
    assert_eq!(poses.joints, vec![1, 2, 3, 4, 5, 4, 5]);
    assert_eq!(poses.weights, vec![Scalar(6), Scalar(7)]);
    assert_eq!(
        poses.starts,
        vec![start(0, 0), start(3, 0), start(5, 0), start(5, 0), start(5, 2)]
    );

    // A refused pose leaves the frame as it was.
    let one = MorphWeights::new(vec![Scalar(1)]);
    assert_eq!(
        poses.push(&skinned, None, None),
        Err(PoseError::NoSkinBinding)
    );
    assert_eq!(
        poses.push(&morphed, None, None),
        Err(PoseError::NoMorphBinding)
    );
    assert_eq!(
        poses.push(&morphed, None, Some(&one)),
        Err(PoseError::WeightCount)
    );
    assert_eq!((poses.joints.len(), poses.starts.len()), (7, 5));

    // The next frame refills the same lists.
    let capacity = poses.joints.capacity();
    poses.clear();
    assert!(poses.joints.is_empty() && poses.weights.is_empty() && poses.starts.is_empty());
    assert_eq!(poses.push(&skinned, Some(&straight), None), Ok(()));
    assert_eq!(poses.starts, vec![start(0, 0)]);
    assert_eq!(poses.joints.capacity(), capacity);
}

// -- indices read back -------------------------------------------------------

/// The indices packed data holds, read in the byte order of the machine.
fn read_back(packed: &PackedIndices) -> Vec<u32> {
    let size = index_format_size(packed.format) as usize;
    packed
        .data
        .chunks(size)
        .take(packed.count as usize)
        .map(|bytes| match packed.format {
            IndexFormat::Uint16 => u32::from(u16::from_ne_bytes([bytes[0], bytes[1]])),
            IndexFormat::Uint32 => {
                u32::from_ne_bytes([bytes[0], bytes[1], bytes[2], bytes[3]])
            }
        })
        .collect()
}

#[test]
fn packed_indices_read_back_at_either_width() {
    let indices = vec![0, 513, 65535, 7, 258];
    let narrow = vec![0u16, 513, 65535, 7, 258];
    let packed = pack_indices(Some(&indices), Some(narrow)).expect("there are indices");
    assert_eq!(packed.format, IndexFormat::Uint16);
    assert_eq!(packed.data.len(), 12);
    assert_eq!(read_back(&packed), indices);

    let wide = vec![70000, 1, u32::MAX];
    let packed = pack_indices(Some(&wide), None).expect("there are indices");
    assert_eq!(packed.format, IndexFormat::Uint32);
    assert_eq!(read_back(&packed), wide);
}

/// Meshes may be removed in any order: each takes its own resources along and
/// leaves the others theirs.
#[test]
fn meshes_are_removed_in_any_order() {
    let mut h = harness();
    h.tri_mesh();
    let before: Vec<u64> = h.graph.nodes.keys().copied().collect();
    let (a, b, c) = (h.tri_mesh(), h.tri_mesh(), h.tri_mesh());
    let slots = [a.metadata_index, b.metadata_index, c.metadata_index];
    assert_eq!(slots, [1, 2, 3]);
    let of_b = b.root;
    h.remove_mesh(a);
    assert!(h.graph.has(of_b));
    let again = h.tri_mesh();
    assert_eq!(again.metadata_index, slots[0], "the freed slot, and no live one");
    h.remove_mesh(c);
    assert!(h.graph.has(of_b));
    h.remove_mesh(again);
    h.remove_mesh(b);
    let after: Vec<u64> = h.graph.nodes.keys().copied().collect();
    assert_eq!(after, before);
}
