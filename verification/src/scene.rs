//! Assembling a frame's draw list.
//!
//! Each visible entity arrives here resolved to a pipeline and tagged with what
//! groups it. This module puts the entities in the order they are drawn and
//! turns them into draws: the entities without the z-sorting marker first,
//! grouped by pipeline, material and mesh, then the ones with it,
//! back-to-front. Neighbours whose state matches collapse into one instanced
//! draw.

use vstd::prelude::*;

use crate::collections::{
    no_slots, push_slot, slot_at, slot_count, VertexSlots, MAX_VERTEX_BUFFERS,
};
use crate::components::{GpuMaterial, GpuMesh, MeshModel, ResourceId};
use crate::culling::VisibleMesh;
use crate::pipeline::{PipelineId, RegisteredPipelines};
use crate::scalar::Scalar;
use crate::sort::{sort_with, Ranked};
use core::ops::Range;
use wgpu::IndexFormat;

verus! {

/// A visible entity awaiting its draw command, tagged with everything that
/// decides where in the frame it is drawn.
#[derive(Clone, Copy, Debug)]
pub struct VisibleEntry<E, I> {
    /// The culled mesh this draw came from, with its entity and placement.
    pub mesh: VisibleMesh<E, I>,
    /// The root of the mesh the entity is drawn with, equal for entities that
    /// share one.
    pub root: ResourceId,
    /// The concrete pipeline this entity resolves to.
    pub pipeline_id: PipelineId,
    /// Groups opaque draws by material, so neighbours share a bind group.
    pub sort_key: u64,
    /// Distance to the camera. Distances are not negative, and the encodings of
    /// such numbers order as the numbers do.
    pub depth: Scalar,
    /// Whether the entity carries the z-sorting marker.
    pub z_sorted: bool,
}

impl<E: Copy, I: Copy> VisibleEntry<E, I> {
    /// The entry of an entity drawn with `pipeline_id`: grouped by its
    /// material, or by none.
    pub fn new(
        mesh: VisibleMesh<E, I>,
        root: ResourceId,
        pipeline_id: PipelineId,
        material: Option<GpuMaterial>,
        depth: Scalar,
        z_sorted: bool,
    ) -> (entry: Self)
        ensures
            entry == entry_of(
                mesh,
                (ResolvedDraw { root, pipeline_id, material, depth, z_sorted }),
            ),
            entry == (VisibleEntry {
                mesh,
                root,
                pipeline_id,
                sort_key: match material {
                    Some(material) => material.sort_key(),
                    None => 0,
                },
                depth,
                z_sorted,
            }),
    {
        let sort_key: u64 = match material {
            Some(material) => material.sort_key(),
            None => 0,
        };
        VisibleEntry { mesh, root, pipeline_id, sort_key, depth, z_sorted }
    }
}

impl<E: Copy, I: Copy> Ranked for VisibleEntry<E, I> {
    /// Entries without the marker come first, by pipeline, then by material,
    /// then by mesh; entries with it follow, the farthest first, and by
    /// pipeline where the distance is the same.
    open spec fn rank(self) -> (int, int, int, int) {
        if self.z_sorted {
            (1, -self.depth.0, self.pipeline_id@ as int, 0)
        } else {
            (0, self.pipeline_id@ as int, self.sort_key as int, self.root.0 as int)
        }
    }

    fn precedes(&self, other: &Self) -> (before: bool) {
        if self.z_sorted != other.z_sorted {
            return other.z_sorted;
        }
        let a = self.pipeline_id.number();
        let b = other.pipeline_id.number();
        if self.z_sorted {
            self.depth.0 > other.depth.0 || (self.depth.0 == other.depth.0 && a < b)
        } else {
            a < b || (a == b && (self.sort_key < other.sort_key || (self.sort_key == other.sort_key
                && self.root.0 < other.root.0)))
        }
    }
}

/// What a family resolved a visible entity to.
#[derive(Clone, Copy, Debug)]
pub struct ResolvedDraw {
    /// The root of the mesh the entity is drawn with.
    pub root: ResourceId,
    /// The concrete pipeline the entity's variant was registered as.
    pub pipeline_id: PipelineId,
    /// The entity's material, if it has one.
    pub material: Option<GpuMaterial>,
    /// Distance to the camera.
    pub depth: Scalar,
    /// Whether the entity carries the z-sorting marker.
    pub z_sorted: bool,
}

/// The entry of an entity that was resolved to `draw`.
pub open spec fn entry_of<E: Copy, I: Copy>(
    mesh: VisibleMesh<E, I>,
    draw: ResolvedDraw,
) -> VisibleEntry<E, I> {
    VisibleEntry {
        mesh,
        root: draw.root,
        pipeline_id: draw.pipeline_id,
        sort_key: match draw.material {
            Some(material) => material.sort_key(),
            None => 0,
        },
        depth: draw.depth,
        z_sorted: draw.z_sorted,
    }
}

/// The entries one family contributes: one per visible mesh it resolved, in the
/// order of the meshes. It resolves none whose entity carries another family's
/// key or no mesh.
pub open spec fn family_entries<E: Copy, I: Copy>(
    meshes: Seq<VisibleMesh<E, I>>,
    resolved: Seq<Option<ResolvedDraw>>,
) -> Seq<VisibleEntry<E, I>>
    decreases meshes.len(),
{
    if meshes.len() == 0 {
        Seq::empty()
    } else {
        let rest = family_entries(meshes.drop_last(), resolved);
        match resolved[meshes.len() - 1] {
            Some(draw) => rest.push(entry_of(meshes.last(), draw)),
            None => rest,
        }
    }
}

/// The entries every family contributes, family after family.
pub open spec fn frame_entries<E: Copy, I: Copy>(
    meshes: Seq<VisibleMesh<E, I>>,
    families: Seq<Vec<Option<ResolvedDraw>>>,
) -> Seq<VisibleEntry<E, I>>
    decreases families.len(),
{
    if families.len() == 0 {
        Seq::empty()
    } else {
        frame_entries(meshes, families.drop_last()) + family_entries(meshes, families.last()@)
    }
}

/// Append the entries of the visible meshes one family resolved.
pub fn collect_and_resolve<E: Copy, I: Copy>(
    meshes: &Vec<VisibleMesh<E, I>>,
    resolved: &Vec<Option<ResolvedDraw>>,
    visible: &mut Vec<VisibleEntry<E, I>>,
)
    requires
        resolved@.len() == meshes@.len(),
    ensures
        final(visible)@ == old(visible)@ + family_entries(meshes@, resolved@),
{
    let mut i: usize = 0;
    assert(visible@ =~= old(visible)@ + family_entries(meshes@.take(0), resolved@));
    while i < meshes.len()
        invariant
            i <= meshes.len(),
            resolved@.len() == meshes@.len(),
            visible@ == old(visible)@ + family_entries(meshes@.take(i as int), resolved@),
        decreases meshes.len() - i,
    {
        let ghost before = family_entries(meshes@.take(i as int), resolved@);
        proof {
            let next = meshes@.take(i + 1);
            assert(next.drop_last() =~= meshes@.take(i as int));
            assert(next.last() == meshes@[i as int]);
        }
        if let Some(draw) = resolved[i] {
            visible.push(
                VisibleEntry::new(
                    meshes[i],
                    draw.root,
                    draw.pipeline_id,
                    draw.material,
                    draw.depth,
                    draw.z_sorted,
                ),
            );
            assert(visible@ =~= old(visible)@ + before.push(entry_of(meshes@[i as int], draw)));
        }
        i = i + 1;
    }
    assert(meshes@.take(i as int) =~= meshes@);
}

/// Refill `visible` with the visible entries of a frame in the order they are
/// drawn, given what each registered family resolved each visible mesh to.
///
/// The list is cleared and refilled rather than made anew, and so is `scratch`,
/// which the sort works in: a steady scene allocates nothing here.
pub fn collect_and_sort_visible<E: Copy, I: Copy>(
    meshes: &Vec<VisibleMesh<E, I>>,
    families: &Vec<Vec<Option<ResolvedDraw>>>,
    visible: &mut Vec<VisibleEntry<E, I>>,
    scratch: &mut Vec<VisibleEntry<E, I>>,
)
    requires
        forall|f: int|
            #![trigger families@[f]]
            0 <= f < families@.len() ==> families@[f]@.len() == meshes@.len(),
    ensures
        crate::sort::is_sort_of(final(visible)@, frame_entries(meshes@, families@)),
{
    visible.clear();
    let mut f: usize = 0;
    assert(families@.take(0) =~= Seq::empty());
    while f < families.len()
        invariant
            f <= families.len(),
            forall|f: int|
                #![trigger families@[f]]
                0 <= f < families@.len() ==> families@[f]@.len() == meshes@.len(),
            visible@ == frame_entries(meshes@, families@.take(f as int)),
        decreases families.len() - f,
    {
        assert(families@[f as int]@.len() == meshes@.len());
        collect_and_resolve(meshes, &families[f], visible);
        proof {
            let next = families@.take(f + 1);
            assert(next.drop_last() =~= families@.take(f as int));
            assert(next.last() == families@[f as int]);
        }
        f = f + 1;
    }
    assert(families@.take(f as int) =~= families@);
    sort_visible(visible, scratch);
}

/// A visible mesh is drawn exactly where a family resolved it: what a family
/// contributes comes from a mesh it resolved, as it resolved it, and every mesh
/// it resolved is among what it contributes.
pub proof fn law_a_family_draws_what_it_resolved<E: Copy, I: Copy>(
    meshes: Seq<VisibleMesh<E, I>>,
    resolved: Seq<Option<ResolvedDraw>>,
    entry: VisibleEntry<E, I>,
)
    requires
        resolved.len() == meshes.len(),
    ensures
        family_entries(meshes, resolved).contains(entry) <==> exists|i: int|
            #![trigger meshes[i]]
            0 <= i < meshes.len() && resolved[i] is Some && entry == entry_of(
                meshes[i],
                resolved[i]->0,
            ),
{
    lemma_family_entries(meshes, resolved, entry);
}

/// A visible mesh adds one entry, its own, where a family resolved it, and none
/// where it did not.
pub proof fn law_a_mesh_adds_its_own_entry<E: Copy, I: Copy>(
    meshes: Seq<VisibleMesh<E, I>>,
    resolved: Seq<Option<ResolvedDraw>>,
    mesh: VisibleMesh<E, I>,
    draw: Option<ResolvedDraw>,
)
    requires
        resolved.len() == meshes.len(),
    ensures
        family_entries(meshes.push(mesh), resolved.push(draw)) == match draw {
            Some(draw) => family_entries(meshes, resolved).push(entry_of(mesh, draw)),
            None => family_entries(meshes, resolved),
        },
{
    assert(meshes.push(mesh).drop_last() =~= meshes);
    lemma_later_resolutions(meshes, resolved, resolved.push(draw));
}

/// Only the resolutions of the meshes themselves are read.
proof fn lemma_later_resolutions<E: Copy, I: Copy>(
    meshes: Seq<VisibleMesh<E, I>>,
    resolved: Seq<Option<ResolvedDraw>>,
    longer: Seq<Option<ResolvedDraw>>,
)
    requires
        meshes.len() <= resolved.len(),
        resolved.is_prefix_of(longer),
    ensures
        family_entries(meshes, longer) == family_entries(meshes, resolved),
    decreases meshes.len(),
{
    if meshes.len() > 0 {
        lemma_later_resolutions(meshes.drop_last(), resolved, longer);
        assert(longer[meshes.len() - 1] == resolved[meshes.len() - 1]);
    }
}

/// As [`law_a_family_draws_what_it_resolved`], for a list of resolutions that
/// may be longer.
proof fn lemma_family_entries<E: Copy, I: Copy>(
    meshes: Seq<VisibleMesh<E, I>>,
    resolved: Seq<Option<ResolvedDraw>>,
    entry: VisibleEntry<E, I>,
)
    requires
        resolved.len() >= meshes.len(),
    ensures
        family_entries(meshes, resolved).contains(entry) <==> exists|i: int|
            #![trigger meshes[i]]
            0 <= i < meshes.len() && resolved[i] is Some && entry == entry_of(
                meshes[i],
                resolved[i]->0,
            ),
    decreases meshes.len(),
{
    if meshes.len() > 0 {
        let head = meshes.drop_last();
        let rest = family_entries(head, resolved);
        let all = family_entries(meshes, resolved);
        let last = meshes.len() - 1;
        lemma_family_entries(head, resolved, entry);
        if all.contains(entry) {
            let k = choose|k: int| 0 <= k < all.len() && all[k] == entry;
            if k < rest.len() {
                assert(rest[k] == entry);
                assert(rest.contains(entry));
                let i = choose|i: int|
                    #![trigger head[i]]
                    0 <= i < head.len() && resolved[i] is Some && entry == entry_of(
                        head[i],
                        resolved[i]->0,
                    );
                assert(meshes[i] == head[i]);
            } else {
                assert(entry == entry_of(meshes[last], resolved[last]->0));
            }
        }
        if exists|i: int|
            #![trigger meshes[i]]
            0 <= i < meshes.len() && resolved[i] is Some && entry == entry_of(
                meshes[i],
                resolved[i]->0,
            ) {
            let i = choose|i: int|
                #![trigger meshes[i]]
                0 <= i < meshes.len() && resolved[i] is Some && entry == entry_of(
                    meshes[i],
                    resolved[i]->0,
                );
            if i < last {
                assert(head[i] == meshes[i]);
                assert(rest.contains(entry));
                let k = choose|k: int| 0 <= k < rest.len() && rest[k] == entry;
                assert(all[k] == entry);
            } else {
                assert(all[all.len() - 1] == entry);
            }
        }
    }
}

/// Put the visible entries in the order they are drawn, working in `scratch`.
pub fn sort_visible<E: Copy, I: Copy>(
    visible: &mut Vec<VisibleEntry<E, I>>,
    scratch: &mut Vec<VisibleEntry<E, I>>,
)
    ensures
        crate::sort::is_sort_of(final(visible)@, old(visible)@),
{
    sort_with(visible, scratch);
}

/// The instance data of a frame, in draw order.
pub open spec fn instances_of<E: Copy, I: Copy>(visible: Seq<VisibleEntry<E, I>>) -> Seq<I> {
    visible.map_values(|entry: VisibleEntry<E, I>| entry.mesh.instance)
}

/// Refill `packed` with the frame's instance data, one per visible entry, in
/// draw order.
pub fn pack_instances<E: Copy, I: Copy>(
    visible: &Vec<VisibleEntry<E, I>>,
    packed: &mut Vec<I>,
)
    ensures
        final(packed)@ == instances_of(visible@),
        final(packed)@ == visible@.map_values(|entry: VisibleEntry<E, I>| entry.mesh.instance),
{
    let ghost instance = |entry: VisibleEntry<E, I>| entry.mesh.instance;
    packed.clear();
    let mut i: usize = 0;
    while i < visible.len()
        invariant
            i <= visible.len(),
            instance == (|entry: VisibleEntry<E, I>| entry.mesh.instance),
            packed@ == visible@.take(i as int).map_values(instance),
        decreases visible.len() - i,
    {
        packed.push(visible[i].mesh.instance);
        i = i + 1;
        assert(packed@ =~= visible@.take(i as int).map_values(instance));
    }
    assert(visible@.take(i as int) =~= visible@);
}

/// Entries with the marker are drawn after every entry without it.
pub proof fn law_marked_entries_are_drawn_last<E: Copy, I: Copy>(
    drawn: Seq<VisibleEntry<E, I>>,
    i: int,
    j: int,
)
    requires
        crate::sort::is_ranked(drawn),
        0 <= i < j < drawn.len(),
    ensures
        drawn[i].z_sorted ==> drawn[j].z_sorted,
{
    assert(!crate::sort::rank_less(drawn[j].rank(), drawn[i].rank()));
}

/// Entries with the marker are drawn back-to-front.
pub proof fn law_marked_entries_are_drawn_back_to_front<E: Copy, I: Copy>(
    drawn: Seq<VisibleEntry<E, I>>,
    i: int,
    j: int,
)
    requires
        crate::sort::is_ranked(drawn),
        0 <= i < j < drawn.len(),
        drawn[i].z_sorted,
    ensures
        drawn[i].depth.0 >= drawn[j].depth.0,
{
    assert(!crate::sort::rank_less(drawn[j].rank(), drawn[i].rank()));
}

/// Entries without the marker are drawn in the order their pipelines were
/// registered, and those of one pipeline grouped by material.
pub proof fn law_unmarked_entries_are_drawn_in_pipeline_order<E: Copy, I: Copy>(
    drawn: Seq<VisibleEntry<E, I>>,
    i: int,
    j: int,
)
    requires
        crate::sort::is_ranked(drawn),
        0 <= i < j < drawn.len(),
        !drawn[j].z_sorted,
    ensures
        drawn[i].pipeline_id@ <= drawn[j].pipeline_id@,
        drawn[i].pipeline_id@ == drawn[j].pipeline_id@ ==> drawn[i].sort_key <= drawn[j].sort_key,
{
    assert(!crate::sort::rank_less(drawn[j].rank(), drawn[i].rank()));
}

/// Draws that share a pipeline and a material stay adjacent: whatever lies
/// between two unmarked entries that do shares both too.
pub proof fn law_shared_materials_stay_adjacent<E: Copy, I: Copy>(
    drawn: Seq<VisibleEntry<E, I>>,
    i: int,
    k: int,
    j: int,
)
    requires
        crate::sort::is_ranked(drawn),
        0 <= i <= k <= j < drawn.len(),
        !drawn[i].z_sorted,
        !drawn[j].z_sorted,
        drawn[i].pipeline_id == drawn[j].pipeline_id,
        drawn[i].sort_key == drawn[j].sort_key,
    ensures
        !drawn[k].z_sorted,
        drawn[k].pipeline_id == drawn[i].pipeline_id,
        drawn[k].sort_key == drawn[i].sort_key,
{
    if i < k {
        assert(!crate::sort::rank_less(drawn[k].rank(), drawn[i].rank()));
    }
    if k < j {
        assert(!crate::sort::rank_less(drawn[j].rank(), drawn[k].rank()));
    }
    PipelineId::lemma_positions_distinct(drawn[k].pipeline_id, drawn[i].pipeline_id);
}

/// What a draw reads of a mesh beyond its buffers.
#[derive(Clone, Copy, Debug, PartialEq, Eq, Structural)]
pub struct DrawShape {
    /// Whether to issue an indexed draw.
    pub indexed: bool,
    /// Number of indices or vertices.
    pub count: u32,
    /// The first index or vertex.
    pub first: u32,
    /// What an indexed draw adds to every index.
    pub base_vertex: u32,
}

/// One visible entry's resources, resolved before the draws are assembled.
#[derive(Debug)]
pub struct EntryHandles {
    /// The mesh bind group, if any.
    pub mesh_bg: Option<ResourceId>,
    /// The material bind group, if any.
    pub material_bg: Option<ResourceId>,
    /// The vertex buffers, each tagged with its slot.
    pub vertex_buffers: VertexSlots,
    /// The index buffer with its format, when the mesh is indexed.
    pub index_buffer: Option<(ResourceId, IndexFormat)>,
    /// What the draw reads of the mesh.
    pub shape: DrawShape,
}

/// Everything two entries have to agree on to be drawn as one.
#[verifier::ext_equal]
pub struct DrawState {
    /// The pipeline.
    pub pipeline_id: PipelineId,
    /// The mesh bind group, if any.
    pub mesh_bg: Option<ResourceId>,
    /// The material bind group, if any.
    pub material_bg: Option<ResourceId>,
    /// The vertex buffers, each tagged with its slot.
    pub vertex_buffers: Seq<(u32, ResourceId)>,
    /// The index buffer with its format, when the mesh is indexed.
    pub index_buffer: Option<(ResourceId, IndexFormat)>,
    /// What the draw reads of the mesh.
    pub shape: DrawShape,
}

/// The state of a draw of `mesh` and `material` through a pipeline.
pub open spec fn mesh_state(
    mesh: MeshModel,
    material: Option<GpuMaterial>,
    pipeline_id: PipelineId,
) -> DrawState {
    DrawState {
        pipeline_id,
        mesh_bg: mesh.bind_group_id,
        material_bg: match material {
            Some(material) => Some(material.bind_group_id),
            None => None,
        },
        vertex_buffers: mesh.vertex_buffers,
        index_buffer: mesh.index_buffer,
        shape: DrawShape {
            indexed: mesh.indexed,
            count: mesh.count,
            first: mesh.first,
            base_vertex: mesh.base_vertex,
        },
    }
}

impl EntryHandles {
    /// The state of a draw with these resources through a pipeline.
    pub open spec fn state(self, pipeline_id: PipelineId) -> DrawState {
        DrawState {
            pipeline_id,
            mesh_bg: self.mesh_bg,
            material_bg: self.material_bg,
            vertex_buffers: crate::collections::slots_of(self.vertex_buffers),
            index_buffer: self.index_buffer,
            shape: self.shape,
        }
    }

    /// The resources of an entity drawn with `mesh` and `material`.
    pub fn of(mesh: &GpuMesh, material: Option<GpuMaterial>) -> (handles: Self)
        ensures
            forall|pipeline_id: PipelineId| #[trigger]
                handles.state(pipeline_id) == mesh_state(mesh@, material, pipeline_id),
    {
        EntryHandles {
            mesh_bg: mesh.bind_group_id,
            material_bg: match material {
                Some(material) => Some(material.bind_group_id),
                None => None,
            },
            vertex_buffers: copy_slots(&mesh.vertex_buffers),
            index_buffer: mesh.index_buffer,
            shape: DrawShape {
                indexed: mesh.indexed,
                count: mesh.count,
                first: mesh.first,
                base_vertex: mesh.base_vertex,
            },
        }
    }
}

/// A copy of a list of vertex buffers.
pub fn copy_slots(slots: &VertexSlots) -> (copy: VertexSlots)
    ensures
        crate::collections::slots_of(copy) == crate::collections::slots_of(*slots),
{
    let mut copy = no_slots();
    let count = slot_count(slots);
    let mut i: usize = 0;
    while i < count
        invariant
            i <= count <= MAX_VERTEX_BUFFERS,
            count == crate::collections::slots_of(*slots).len(),
            crate::collections::slots_of(copy) == crate::collections::slots_of(*slots).take(
                i as int,
            ),
        decreases count - i,
    {
        let (slot, buffer) = slot_at(slots, i);
        push_slot(&mut copy, slot, buffer);
        i = i + 1;
        assert(crate::collections::slots_of(copy) =~= crate::collections::slots_of(*slots).take(
            i as int,
        ));
    }
    assert(crate::collections::slots_of(*slots).take(i as int) =~= crate::collections::slots_of(
        *slots,
    ));
    copy
}

/// Whether two lists of vertex buffers are the same.
fn same_slots(a: &VertexSlots, b: &VertexSlots) -> (same: bool)
    ensures
        same == (crate::collections::slots_of(*a) == crate::collections::slots_of(*b)),
{
    let count = slot_count(a);
    if count != slot_count(b) {
        return false;
    }
    let ghost left = crate::collections::slots_of(*a);
    let ghost right = crate::collections::slots_of(*b);
    let mut i: usize = 0;
    while i < count
        invariant
            i <= count,
            left == crate::collections::slots_of(*a),
            right == crate::collections::slots_of(*b),
            count == left.len(),
            count == right.len(),
            forall|j: int| 0 <= j < i ==> left[j] == right[j],
        decreases count - i,
    {
        let (slot_a, buffer_a) = slot_at(a, i);
        let (slot_b, buffer_b) = slot_at(b, i);
        if slot_a != slot_b || buffer_a != buffer_b {
            assert(left[i as int] != right[i as int]);
            return false;
        }
        i = i + 1;
    }
    assert(left =~= right);
    true
}

/// Whether two optional resources are the same.
fn same_resource(a: Option<ResourceId>, b: Option<ResourceId>) -> (same: bool)
    ensures
        same == (a == b),
{
    match (a, b) {
        (Some(a), Some(b)) => a == b,
        (None, None) => true,
        _ => false,
    }
}

/// Whether two index buffers are the same.
fn same_index_buffer(
    a: Option<(ResourceId, IndexFormat)>,
    b: Option<(ResourceId, IndexFormat)>,
) -> (same: bool)
    ensures
        same == (a == b),
{
    match (a, b) {
        (Some((a, a_format)), Some((b, b_format))) => {
            let same_format = match (a_format, b_format) {
                (IndexFormat::Uint16, IndexFormat::Uint16) => true,
                (IndexFormat::Uint32, IndexFormat::Uint32) => true,
                _ => false,
            };
            a == b && same_format
        },
        (None, None) => true,
        _ => false,
    }
}

/// Whether two entries can be drawn as one.
fn same_state(
    a_pipeline: PipelineId,
    a: &EntryHandles,
    b_pipeline: PipelineId,
    b: &EntryHandles,
) -> (same: bool)
    ensures
        same == (a.state(a_pipeline) == b.state(b_pipeline)),
{
    let same = a_pipeline == b_pipeline && same_resource(a.mesh_bg, b.mesh_bg) && same_resource(
        a.material_bg,
        b.material_bg,
    ) && same_slots(&a.vertex_buffers, &b.vertex_buffers) && same_index_buffer(
        a.index_buffer,
        b.index_buffer,
    ) && a.shape == b.shape;
    same
}

/// The part of its buffers a draw covers, and the instances it draws.
#[derive(Debug, PartialEq, Eq)]
pub enum DrawRange {
    /// An indexed draw.
    Indexed {
        /// The indices read.
        indices: Range<u32>,
        /// What is added to every index.
        base_vertex: i32,
        /// The instances drawn.
        instances: Range<u32>,
    },
    /// A non-indexed draw.
    Vertices {
        /// The vertices drawn.
        vertices: Range<u32>,
        /// The instances drawn.
        instances: Range<u32>,
    },
}

impl DrawRange {
    /// The instances drawn.
    pub open spec fn instances(self) -> (int, int) {
        match self {
            DrawRange::Indexed { instances, .. } => (instances.start as int, instances.end as int),
            DrawRange::Vertices { instances, .. } => (instances.start as int, instances.end as int),
        }
    }
}

/// The range of a draw of `shape` over the instances from `start` to `end`.
pub open spec fn range_of(shape: DrawShape, start: int, end: int) -> DrawRange {
    let covered = Range { start: shape.first, end: (shape.first + shape.count) as u32 };
    let instances = Range { start: start as u32, end: end as u32 };
    if shape.indexed {
        DrawRange::Indexed {
            indices: covered,
            base_vertex: shape.base_vertex as i32,
            instances,
        }
    } else {
        DrawRange::Vertices { vertices: covered, instances }
    }
}

/// One draw of the frame. The source's instance buffer is bound for every one.
#[derive(Debug)]
pub struct DrawEntry {
    /// The pipeline drawn with.
    pub pipeline_id: PipelineId,
    /// What the draw covers.
    pub range: DrawRange,
    /// The bind group bound at the global index, if the pipeline binds one.
    pub global_bg: Option<ResourceId>,
    /// The bind group bound at the material index, if any.
    pub material_bg: Option<ResourceId>,
    /// The bind group bound at the mesh index, if any.
    pub mesh_bg: Option<ResourceId>,
    /// The vertex buffers bound, each tagged with its slot.
    pub vertex_buffers: VertexSlots,
    /// The index buffer bound, with its format, if any.
    pub index_buffer: Option<(ResourceId, IndexFormat)>,
}

impl DrawEntry {
    /// Whether this is the draw of the entries with `state` from `start` to
    /// `end`, through a pipeline that binds `global`.
    pub open spec fn is_draw_of(
        self,
        state: DrawState,
        global: Option<ResourceId>,
        start: int,
        end: int,
    ) -> bool {
        &&& self.pipeline_id == state.pipeline_id
        &&& self.range == range_of(state.shape, start, end)
        &&& self.global_bg == global
        &&& self.material_bg == state.material_bg
        &&& self.mesh_bg == state.mesh_bg
        &&& crate::collections::slots_of(self.vertex_buffers) == state.vertex_buffers
        &&& self.index_buffer == state.index_buffer
    }
}

/// The states of the visible entries, in draw order.
pub open spec fn states<E: Copy, I: Copy>(
    visible: Seq<VisibleEntry<E, I>>,
    handles: Seq<EntryHandles>,
) -> Seq<DrawState> {
    Seq::new(visible.len(), |i: int| handles[i].state(visible[i].pipeline_id))
}

/// Where the run of equal states that starts at `start` ends.
pub open spec fn state_run_end(states: Seq<DrawState>, start: int, end: int) -> int
    decreases states.len() - end,
{
    if end < states.len() && states[end] == states[start] {
        state_run_end(states, start, end + 1)
    } else {
        end
    }
}

/// The maximal runs of equal states from index `start` on, each as the indices
/// it starts and ends at.
pub open spec fn state_runs(states: Seq<DrawState>, start: int) -> Seq<(int, int)>
    decreases states.len() - start,
{
    if !(0 <= start < states.len()) {
        Seq::empty()
    } else {
        proof {
            lemma_state_run_end(states, start, start + 1);
        }
        let end = state_run_end(states, start, start + 1);
        seq![(start, end)] + state_runs(states, end)
    }
}

/// A run ends where it is said to: all of it has one state, and what follows
/// does not.
pub proof fn lemma_state_run_end(states: Seq<DrawState>, start: int, end: int)
    requires
        0 <= start < end <= states.len(),
    ensures
        end <= state_run_end(states, start, end) <= states.len(),
        forall|i: int|
            end <= i < state_run_end(states, start, end) ==> #[trigger] states[i]
                == states[start],
        state_run_end(states, start, end) < states.len() ==> states[state_run_end(
            states,
            start,
            end,
        )] != states[start],
    decreases states.len() - end,
{
    if end < states.len() && states[end] == states[start] {
        lemma_state_run_end(states, start, end + 1);
    }
}

/// A prefix of a run belongs to it.
proof fn lemma_state_run_step(states: Seq<DrawState>, start: int, end: int)
    requires
        0 <= start < end <= states.len(),
        forall|i: int| start <= i < end ==> #[trigger] states[i] == states[start],
    ensures
        state_run_end(states, start, start + 1) == state_run_end(states, start, end),
    decreases end - start,
{
    if end > start + 1 {
        lemma_state_run_step(states, start, end - 1);
        assert(states[end - 1] == states[start]);
    }
}

/// Whether the draws of a frame are well formed: every entry has its resources,
/// its pipeline is registered, and what it covers fits the types a draw is
/// issued with.
pub open spec fn is_drawable<E: Copy, I: Copy>(
    visible: Seq<VisibleEntry<E, I>>,
    pipelines: Seq<Option<ResourceId>>,
    handles: Seq<EntryHandles>,
) -> bool {
    &&& handles.len() == visible.len()
    &&& visible.len() <= u32::MAX
    &&& forall|i: int|
        #![trigger visible[i]]
        0 <= i < visible.len() ==> visible[i].pipeline_id@ < pipelines.len()
    &&& forall|i: int|
        #![trigger handles[i]]
        0 <= i < handles.len() ==> {
            &&& handles[i].shape.first + handles[i].shape.count <= u32::MAX
            &&& handles[i].shape.base_vertex <= i32::MAX
        }
}

/// Whether `draws` are the draws of entries with these states, through
/// pipelines that bind `globals`: one per run of neighbours whose state
/// matches, over the instances of that run.
pub open spec fn is_scene(
    draws: Seq<DrawEntry>,
    states: Seq<DrawState>,
    globals: Seq<Option<ResourceId>>,
) -> bool {
    let runs = state_runs(states, 0);
    &&& draws.len() == runs.len()
    &&& forall|d: int|
        #![trigger draws[d]]
        0 <= d < draws.len() ==> draws[d].is_draw_of(
            states[runs[d].0],
            globals[states[runs[d].0].pipeline_id@ as int],
            runs[d].0,
            runs[d].1,
        )
}

/// Refill `draws` with the draws of the frame: one per run of neighbours whose
/// state matches, over the instances of that run.
pub fn assemble_scene<E: Copy, I: Copy>(
    visible: &Vec<VisibleEntry<E, I>>,
    pipelines: &RegisteredPipelines,
    handles: &Vec<EntryHandles>,
    draws: &mut Vec<DrawEntry>,
)
    requires
        is_drawable(visible@, pipelines@, handles@),
    ensures
        is_scene(final(draws)@, states(visible@, handles@), pipelines@),
{
    let ghost all = states(visible@, handles@);
    let ghost runs = state_runs(all, 0);
    let ghost mut done: int = 0;
    draws.clear();
    let mut start: usize = 0;
    assert(runs.skip(0) =~= runs);
    while start < visible.len()
        invariant
            is_drawable(visible@, pipelines@, handles@),
            all == states(visible@, handles@),
            runs == state_runs(all, 0),
            start <= visible.len(),
            done == draws@.len(),
            0 <= done <= runs.len(),
            runs.skip(done) == state_runs(all, start as int),
            forall|d: int|
                #![trigger draws@[d]]
                0 <= d < draws@.len() ==> draws@[d].is_draw_of(
                    all[runs[d].0],
                    pipelines@[visible@[runs[d].0].pipeline_id@ as int],
                    runs[d].0,
                    runs[d].1,
                ),
        decreases visible.len() - start,
    {
        let pipeline_id = visible[start].pipeline_id;
        let handle = &handles[start];
        let mut end: usize = start + 1;
        while end < visible.len() && same_state(
            pipeline_id,
            handle,
            visible[end].pipeline_id,
            &handles[end],
        )
            invariant
                handles@.len() == visible@.len(),
                start < end <= visible.len(),
                all == states(visible@, handles@),
                handle == handles@[start as int],
                pipeline_id == visible@[start as int].pipeline_id,
                forall|i: int| start <= i < end ==> #[trigger] all[i] == all[start as int],
            decreases visible.len() - end,
        {
            end = end + 1;
        }
        let shape = handle.shape;
        assert(visible@[start as int].pipeline_id@ < pipelines@.len());
        assert(handles@[start as int].shape.first + handles@[start as int].shape.count
            <= u32::MAX);
        let covered = Range { start: shape.first, end: shape.first + shape.count };
        let instances = Range { start: start as u32, end: end as u32 };
        let range = if shape.indexed {
            DrawRange::Indexed {
                indices: covered,
                base_vertex: shape.base_vertex as i32,
                instances,
            }
        } else {
            DrawRange::Vertices { vertices: covered, instances }
        };
        let ghost before = draws@;
        draws.push(
            DrawEntry {
                pipeline_id,
                range,
                global_bg: pipelines.global(pipeline_id),
                material_bg: handle.material_bg,
                mesh_bg: handle.mesh_bg,
                vertex_buffers: copy_slots(&handle.vertex_buffers),
                index_buffer: handle.index_buffer,
            },
        );
        proof {
            lemma_state_run_step(all, start as int, end as int);
            lemma_state_run_end(all, start as int, end as int);
            let run = (start as int, end as int);
            assert(state_runs(all, start as int) == seq![run] + state_runs(all, end as int));
            assert(runs.skip(done)[0] == run);
            assert(runs[done] == run);
            assert(runs.skip(done + 1) =~= runs.skip(done).skip(1));
            assert(runs.skip(done).skip(1) =~= state_runs(all, end as int));
            assert forall|d: int|
                #![trigger draws@[d]]
                0 <= d < draws@.len() implies draws@[d].is_draw_of(
                all[runs[d].0],
                pipelines@[visible@[runs[d].0].pipeline_id@ as int],
                runs[d].0,
                runs[d].1,
            ) by {
                if d < done {
                    assert(draws@[d] == before[d]);
                }
            }
            done = done + 1;
        }
        start = end;
    }
    assert(runs.skip(done).len() == 0);
    proof {
        lemma_runs_tile(all, 0);
    }
}

/// The runs from `start` on follow one another without a gap, up to the end,
/// and each is of one state that the next does not have.
proof fn lemma_runs_tile(states: Seq<DrawState>, start: int)
    requires
        0 <= start <= states.len(),
    ensures
        ({
            let runs = state_runs(states, start);
            &&& start < states.len() ==> runs.len() > 0 && runs[0].0 == start
            &&& runs.len() > 0 ==> runs.last().1 == states.len()
            &&& forall|d: int|
                #![trigger runs[d]]
                0 <= d < runs.len() ==> start <= runs[d].0 < runs[d].1 <= states.len()
            &&& forall|d: int, i: int|
                #![trigger runs[d], states[i]]
                0 <= d < runs.len() && runs[d].0 <= i < runs[d].1 ==> states[i]
                    == states[runs[d].0]
            &&& forall|d: int|
                #![trigger runs[d]]
                0 < d < runs.len() ==> runs[d].0 == runs[d - 1].1 && states[runs[d].0]
                    != states[runs[d - 1].0]
        }),
    decreases states.len() - start,
{
    if start < states.len() {
        let end = state_run_end(states, start, start + 1);
        lemma_state_run_end(states, start, start + 1);
        lemma_runs_tile(states, end);
        let rest = state_runs(states, end);
        let runs = state_runs(states, start);
        assert(runs == seq![(start, end)] + rest);
        assert forall|d: int| 0 < d < runs.len() implies runs[d] == rest[d - 1] by {}
        assert forall|d: int|
            #![trigger runs[d]]
            0 < d < runs.len() implies runs[d].0 == runs[d - 1].1 && states[runs[d].0]
            != states[runs[d - 1].0] by {
            if d > 1 {
                assert(rest[d - 1].0 == rest[d - 2].1);
            } else {
                assert(rest[0].0 == end);
            }
        }
        assert forall|d: int, i: int|
            #![trigger runs[d], states[i]]
            0 <= d < runs.len() && runs[d].0 <= i < runs[d].1 implies states[i]
            == states[runs[d].0] by {
            if d > 0 {
                assert(runs[d] == rest[d - 1]);
            } else {
                assert(runs[0] == (start, end));
            }
        }
        if rest.len() > 0 {
            assert(runs.last() == rest.last());
        } else {
            assert(runs.last() == (start, end));
        }
    }
}

/// The draws of a frame cover every instance exactly once, in order: the first
/// starts at the first instance, each starts where the one before it ends, and
/// the last ends at the last instance.
pub proof fn law_draws_cover_every_instance<E: Copy, I: Copy>(
    visible: Seq<VisibleEntry<E, I>>,
    handles: Seq<EntryHandles>,
)
    requires
        visible.len() > 0,
    ensures
        ({
            let runs = state_runs(states(visible, handles), 0);
            &&& runs.len() > 0
            &&& runs[0].0 == 0
            &&& runs.last().1 == visible.len()
            &&& forall|d: int|
                #![trigger runs[d]]
                0 <= d < runs.len() ==> runs[d].0 < runs[d].1
            &&& forall|d: int|
                #![trigger runs[d]]
                0 < d < runs.len() ==> runs[d].0 == runs[d - 1].1
        }),
{
    lemma_runs_tile(states(visible, handles), 0);
}

/// An instance is drawn with its own entry's pipeline and resources.
pub proof fn law_an_instance_is_drawn_with_its_own_state<E: Copy, I: Copy>(
    visible: Seq<VisibleEntry<E, I>>,
    handles: Seq<EntryHandles>,
    d: int,
    i: int,
)
    requires
        0 <= d < state_runs(states(visible, handles), 0).len(),
        state_runs(states(visible, handles), 0)[d].0 <= i < state_runs(
            states(visible, handles),
            0,
        )[d].1,
    ensures
        0 <= i < visible.len(),
        states(visible, handles)[state_runs(states(visible, handles), 0)[d].0]
            == handles[i].state(visible[i].pipeline_id),
{
    let all = states(visible, handles);
    lemma_runs_tile(all, 0);
    let run = state_runs(all, 0)[d];
    assert(all[i] == all[run.0]);
}

/// Neighbours whose state matches share a draw: two draws in a row never have
/// the same state.
pub proof fn law_matching_neighbours_share_a_draw<E: Copy, I: Copy>(
    visible: Seq<VisibleEntry<E, I>>,
    handles: Seq<EntryHandles>,
    d: int,
)
    requires
        0 < d < state_runs(states(visible, handles), 0).len(),
    ensures
        ({
            let all = states(visible, handles);
            let runs = state_runs(all, 0);
            all[runs[d].0] != all[runs[d - 1].0]
        }),
{
    lemma_runs_tile(states(visible, handles), 0);
}

/// Which run index `i` falls in.
proof fn lemma_run_of(states: Seq<DrawState>, start: int, i: int) -> (d: int)
    requires
        0 <= start <= i < states.len(),
    ensures
        0 <= d < state_runs(states, start).len(),
        state_runs(states, start)[d].0 <= i < state_runs(states, start)[d].1,
    decreases states.len() - start,
{
    let end = state_run_end(states, start, start + 1);
    lemma_state_run_end(states, start, start + 1);
    let rest = state_runs(states, end);
    assert(state_runs(states, start) == seq![(start, end)] + rest);
    if i < end {
        assert(state_runs(states, start)[0] == (start, end));
        0
    } else {
        let d = lemma_run_of(states, end, i);
        assert(state_runs(states, start)[d + 1] == rest[d]);
        d + 1
    }
}

/// Whatever lies between two unmarked entries that share pipeline, material and
/// mesh shares all three too.
proof fn lemma_shared_meshes_stay_adjacent<E: Copy, I: Copy>(
    drawn: Seq<VisibleEntry<E, I>>,
    i: int,
    k: int,
    j: int,
)
    requires
        crate::sort::is_ranked(drawn),
        0 <= i <= k <= j < drawn.len(),
        !drawn[i].z_sorted,
        !drawn[j].z_sorted,
        drawn[i].pipeline_id == drawn[j].pipeline_id,
        drawn[i].sort_key == drawn[j].sort_key,
        drawn[i].root == drawn[j].root,
    ensures
        drawn[k].pipeline_id == drawn[i].pipeline_id,
        drawn[k].sort_key == drawn[i].sort_key,
        drawn[k].root == drawn[i].root,
{
    law_shared_materials_stay_adjacent(drawn, i, k, j);
    if i < k {
        assert(!crate::sort::rank_less(drawn[k].rank(), drawn[i].rank()));
    }
    if k < j {
        assert(!crate::sort::rank_less(drawn[j].rank(), drawn[k].rank()));
    }
}

/// The entry right after a run, if there is one, has another state.
proof fn lemma_a_run_ends(states: Seq<DrawState>, d: int)
    requires
        0 <= d < state_runs(states, 0).len(),
    ensures
        ({
            let run = state_runs(states, 0)[d];
            &&& 0 <= run.0 < run.1 <= states.len()
            &&& forall|i: int| run.0 <= i < run.1 ==> #[trigger] states[i] == states[run.0]
            &&& run.1 < states.len() ==> states[run.1] != states[run.0]
        }),
{
    lemma_runs_tile(states, 0);
    let runs = state_runs(states, 0);
    let run = runs[d];
    assert forall|i: int| run.0 <= i < run.1 implies #[trigger] states[i] == states[run.0] by {
        assert(runs[d].0 <= i < runs[d].1);
    }
    if d + 1 < runs.len() {
        assert(runs[d + 1].0 == runs[d].1);
    } else {
        assert(runs.last() == run);
    }
}

/// Whether what an entity is drawn with follows from its mesh, its material and
/// its pipeline.
pub open spec fn drawn_by_mesh<E: Copy, I: Copy>(
    visible: Seq<VisibleEntry<E, I>>,
    handles: Seq<EntryHandles>,
) -> bool {
    forall|a: int, b: int|
        #![trigger handles[a], handles[b]]
        0 <= a < visible.len() && 0 <= b < visible.len() && visible[a].root == visible[b].root
            && visible[a].sort_key == visible[b].sort_key && visible[a].pipeline_id
            == visible[b].pipeline_id ==> handles[a].state(visible[a].pipeline_id)
            == handles[b].state(visible[b].pipeline_id)
}

/// Whatever lies between two unmarked entries that share pipeline, material and
/// mesh is drawn with the same state.
proof fn lemma_shared_meshes_share_state<E: Copy, I: Copy>(
    visible: Seq<VisibleEntry<E, I>>,
    handles: Seq<EntryHandles>,
    i: int,
    k: int,
    j: int,
)
    requires
        crate::sort::is_ranked(visible),
        drawn_by_mesh(visible, handles),
        0 <= i <= k <= j < visible.len(),
        !visible[i].z_sorted,
        !visible[j].z_sorted,
        visible[i].pipeline_id == visible[j].pipeline_id,
        visible[i].sort_key == visible[j].sort_key,
        visible[i].root == visible[j].root,
    ensures
        states(visible, handles)[k] == states(visible, handles)[i],
{
    lemma_shared_meshes_stay_adjacent(visible, i, k, j);
    assert(handles[k].state(visible[k].pipeline_id) == handles[i].state(visible[i].pipeline_id));
}

/// Entities without the z-sorting marker that share pipeline, material and mesh
/// are drawn as one instanced draw, wherever they stood before the sort: some
/// draw covers both of any two of them, and with them all that lies between.
#[verifier::spinoff_prover]
pub proof fn law_matching_entities_collapse_into_one_draw<E: Copy, I: Copy>(
    visible: Seq<VisibleEntry<E, I>>,
    handles: Seq<EntryHandles>,
    i: int,
    j: int,
) -> (d: int)
    requires
        crate::sort::is_ranked(visible),
        handles.len() == visible.len(),
        drawn_by_mesh(visible, handles),
        0 <= i <= j < visible.len(),
        !visible[i].z_sorted,
        !visible[j].z_sorted,
        visible[i].pipeline_id == visible[j].pipeline_id,
        visible[i].sort_key == visible[j].sort_key,
        visible[i].root == visible[j].root,
    ensures
        0 <= d < state_runs(states(visible, handles), 0).len(),
        state_runs(states(visible, handles), 0)[d].0 <= i,
        j < state_runs(states(visible, handles), 0)[d].1,
{
    let all = states(visible, handles);
    let d = lemma_run_of(all, 0, i);
    let run = state_runs(all, 0)[d];
    lemma_a_run_ends(all, d);
    if j >= run.1 {
        lemma_shared_meshes_share_state(visible, handles, i, run.1, j);
        assert(all[i] == all[run.0]);
    }
    d
}

/// An entry is drawn as it was resolved: with the pipeline, the mesh, the
/// distance and the marker the family found, and for the entity it was seen as.
/// Entries of one material share a key and those of two do not; one without a
/// material has the lowest.
pub proof fn law_an_entry_is_drawn_as_resolved<E: Copy, I: Copy>(
    mesh: VisibleMesh<E, I>,
    draw: ResolvedDraw,
    other_mesh: VisibleMesh<E, I>,
    other: ResolvedDraw,
)
    ensures
        ({
            let entry = entry_of(mesh, draw);
            &&& entry.mesh == mesh
            &&& entry.root == draw.root
            &&& entry.pipeline_id == draw.pipeline_id
            &&& entry.depth == draw.depth
            &&& entry.z_sorted == draw.z_sorted
            &&& draw.material is None ==> entry.sort_key == 0
            &&& draw.material is Some && other.material is Some ==> (entry.sort_key == entry_of(
                other_mesh,
                other,
            ).sort_key <==> draw.material->0.bind_group_id == other.material->0.bind_group_id)
        }),
{
}

/// Every family's entries are drawn, and no others.
pub proof fn law_a_frame_draws_every_family<E: Copy, I: Copy>(
    meshes: Seq<VisibleMesh<E, I>>,
    families: Seq<Vec<Option<ResolvedDraw>>>,
    entry: VisibleEntry<E, I>,
)
    ensures
        frame_entries(meshes, families).contains(entry) <==> exists|f: int|
            0 <= f < families.len() && family_entries(
                meshes,
                (#[trigger] families[f])@,
            ).contains(entry),
    decreases families.len(),
{
    if families.len() > 0 {
        let rest = families.drop_last();
        let before = frame_entries(meshes, rest);
        let last = family_entries(meshes, families.last()@);
        let all = frame_entries(meshes, families);
        law_a_frame_draws_every_family(meshes, rest, entry);
        if all.contains(entry) {
            let k = choose|k: int| 0 <= k < all.len() && all[k] == entry;
            if k < before.len() {
                assert(before[k] == entry);
                let f = choose|f: int|
                    0 <= f < rest.len() && family_entries(
                        meshes,
                        (#[trigger] rest[f])@,
                    ).contains(entry);
                assert(families[f] == rest[f]);
            } else {
                assert(last[k - before.len()] == entry);
                assert(families[families.len() - 1]@ == families.last()@);
            }
        }
        if exists|f: int|
            0 <= f < families.len() && family_entries(
                meshes,
                (#[trigger] families[f])@,
            ).contains(entry) {
            let f = choose|f: int|
                0 <= f < families.len() && family_entries(
                    meshes,
                    (#[trigger] families[f])@,
                ).contains(entry);
            if f < rest.len() {
                assert(rest[f] == families[f]);
                let k = choose|k: int| 0 <= k < before.len() && before[k] == entry;
                assert(all[k] == entry);
            } else {
                let k = choose|k: int| 0 <= k < last.len() && last[k] == entry;
                assert(all[before.len() + k] == entry);
            }
        }
    }
}

/// A frame has as many entries as its families resolved, so that no entity is
/// drawn twice by one family.
pub proof fn law_families_add_their_entries<E: Copy, I: Copy>(
    meshes: Seq<VisibleMesh<E, I>>,
    families: Seq<Vec<Option<ResolvedDraw>>>,
    family: Vec<Option<ResolvedDraw>>,
)
    ensures
        frame_entries(meshes, families.push(family)).len() == frame_entries(meshes, families).len()
            + family_entries(meshes, family@).len(),
        frame_entries(meshes, families).len() <= families.len() * meshes.len(),
    decreases families.len(),
{
    assert(families.push(family).drop_last() =~= families);
    if families.len() > 0 {
        let rest = families.drop_last();
        law_families_add_their_entries(meshes, rest, families.last());
        lemma_family_entries_len(meshes, families.last()@);
        assert(families =~= rest.push(families.last()));
        assert(families.len() * meshes.len() == rest.len() * meshes.len() + meshes.len())
            by (nonlinear_arith)
            requires
                families.len() == rest.len() + 1,
        ;
    } else {
        assert(0 * meshes.len() == 0) by (nonlinear_arith);
    }
}

/// A family adds at most one entry per visible mesh.
proof fn lemma_family_entries_len<E: Copy, I: Copy>(
    meshes: Seq<VisibleMesh<E, I>>,
    resolved: Seq<Option<ResolvedDraw>>,
)
    ensures
        family_entries(meshes, resolved).len() <= meshes.len(),
    decreases meshes.len(),
{
    if meshes.len() > 0 {
        lemma_family_entries_len(meshes.drop_last(), resolved);
    }
}

/// Marked entries at one distance are drawn in the order their pipelines were
/// registered, and unmarked entries that share a pipeline and a material are
/// grouped by mesh.
pub proof fn law_ties_are_settled_by_pipeline_and_mesh<E: Copy, I: Copy>(
    drawn: Seq<VisibleEntry<E, I>>,
    i: int,
    j: int,
)
    requires
        crate::sort::is_ranked(drawn),
        0 <= i < j < drawn.len(),
        drawn[i].z_sorted == drawn[j].z_sorted,
    ensures
        drawn[i].z_sorted && drawn[i].depth == drawn[j].depth ==> drawn[i].pipeline_id@
            <= drawn[j].pipeline_id@,
        !drawn[i].z_sorted && drawn[i].pipeline_id@ == drawn[j].pipeline_id@ && drawn[i].sort_key
            == drawn[j].sort_key ==> drawn[i].root.0 <= drawn[j].root.0,
{
    assert(!crate::sort::rank_less(drawn[j].rank(), drawn[i].rank()));
}

/// A draw binds its own mesh and its own material: the buffers, the bind groups
/// and the range of the mesh, and the material's bind group where there is one.
pub proof fn law_a_draw_binds_its_own_mesh(
    mesh: MeshModel,
    material: Option<GpuMaterial>,
    pipeline_id: PipelineId,
)
    ensures
        ({
            let state = mesh_state(mesh, material, pipeline_id);
            &&& state.pipeline_id == pipeline_id
            &&& state.vertex_buffers == mesh.vertex_buffers
            &&& state.index_buffer == mesh.index_buffer
            &&& state.mesh_bg == mesh.bind_group_id
            &&& state.material_bg is Some <==> material is Some
            &&& material is Some ==> state.material_bg == Some(material->0.bind_group_id)
            &&& state.shape.indexed == mesh.indexed
            &&& state.shape.count == mesh.count
            &&& state.shape.first == mesh.first
            &&& state.shape.base_vertex == mesh.base_vertex
        }),
{
}

/// A draw covers the range of its mesh: from its first index or vertex on, as
/// many as it has, indexed exactly where the mesh is, and every instance of its
/// run.
pub proof fn law_a_draw_covers_its_mesh(shape: DrawShape, start: int, end: int)
    requires
        shape.first + shape.count <= u32::MAX,
        shape.base_vertex <= i32::MAX,
        0 <= start <= end <= u32::MAX,
    ensures
        ({
            let range = range_of(shape, start, end);
            &&& range is Indexed <==> shape.indexed
            &&& range.instances() == (start, end)
            &&& range matches DrawRange::Indexed { indices, base_vertex, instances } ==> {
                &&& indices.start == shape.first
                &&& indices.end - indices.start == shape.count
                &&& base_vertex == shape.base_vertex
                &&& instances.start == start && instances.end == end
            }
            &&& range matches DrawRange::Vertices { vertices, instances } ==> {
                &&& vertices.start == shape.first
                &&& vertices.end - vertices.start == shape.count
                &&& instances.start == start && instances.end == end
            }
        }),
{
}

/// A draw of a run binds the state of that run, and the global group of its
/// pipeline.
pub proof fn law_a_draw_binds_the_state_of_its_run(
    draw: DrawEntry,
    state: DrawState,
    global: Option<ResourceId>,
    start: int,
    end: int,
)
    requires
        draw.is_draw_of(state, global, start, end),
    ensures
        draw.pipeline_id == state.pipeline_id,
        draw.global_bg == global,
        draw.material_bg == state.material_bg,
        draw.mesh_bg == state.mesh_bg,
        draw.index_buffer == state.index_buffer,
        crate::collections::slots_of(draw.vertex_buffers) == state.vertex_buffers,
        draw.range == range_of(state.shape, start, end),
{
}

/// Whatever is drawn is drawn for some visible entry, with that entry's own
/// pipeline, mesh and material: every draw of a scene has the state of the first
/// instance it draws.
pub proof fn law_a_draw_is_of_its_first_instance<E: Copy, I: Copy>(
    draws: Seq<DrawEntry>,
    visible: Seq<VisibleEntry<E, I>>,
    handles: Seq<EntryHandles>,
    globals: Seq<Option<ResourceId>>,
    d: int,
)
    requires
        is_scene(draws, states(visible, handles), globals),
        visible.len() <= u32::MAX,
        0 <= d < draws.len(),
    ensures
        ({
            let at = draws[d].range.instances().0;
            &&& 0 <= at < visible.len()
            &&& draws[d].pipeline_id == visible[at].pipeline_id
            &&& draws[d].mesh_bg == handles[at].mesh_bg
            &&& draws[d].material_bg == handles[at].material_bg
            &&& draws[d].index_buffer == handles[at].index_buffer
            &&& crate::collections::slots_of(draws[d].vertex_buffers)
                == crate::collections::slots_of(handles[at].vertex_buffers)
            &&& draws[d].global_bg == globals[visible[at].pipeline_id@ as int]
        }),
{
    let all = states(visible, handles);
    let runs = state_runs(all, 0);
    lemma_runs_tile(all, 0);
    let run = runs[d];
    assert(draws[d].is_draw_of(all[run.0], globals[all[run.0].pipeline_id@ as int], run.0, run.1));
}

/// An entry's instance is packed at its own place: as many as there are entries,
/// each where its entry is drawn.
pub proof fn law_instances_are_packed_in_draw_order<E: Copy, I: Copy>(
    visible: Seq<VisibleEntry<E, I>>,
    i: int,
)
    ensures
        instances_of(visible).len() == visible.len(),
        0 <= i < visible.len() ==> instances_of(visible)[i] == visible[i].mesh.instance,
{
}

} // verus!
