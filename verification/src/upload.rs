//! How a mesh's resources enter the resource graph.
//!
//! A mesh is one strong virtual root and the weak nodes it is built from, so
//! removing the root orphans every part at once. The plan here says which nodes
//! are inserted, in which order and what each depends on; a node is named by
//! its place in the plan, and [`finish_mesh`] turns the ids the graph gave the
//! nodes into the mesh's handle.

use vstd::prelude::*;

use crate::collections::{
    desc_at, desc_count, no_layouts, no_slots, push_layout, push_slot, MAX_MESH_PARTS,
    MAX_VERTEX_BUFFERS,
};
use crate::components::{GpuMesh, MeshModel, ResourceId};
use crate::mesh::MeshDesc;

verus! {

/// What a node of a mesh holds.
#[derive(Clone, Copy, Debug, PartialEq, Eq, Structural)]
pub enum Part {
    /// The vertex buffer at this place in the description.
    VertexBuffer(usize),
    /// The index buffer.
    IndexBuffer,
    /// The uniform the mesh's bind group reads.
    MeshInfo,
    /// The displacements the mesh's bind group reads.
    MorphDeltas,
    /// The mesh's bind group.
    BindGroup,
    /// Nothing: the node that keeps the others alive.
    Root,
}

/// One node to insert into the graph.
#[derive(Debug)]
pub struct GraphInsert {
    /// What the node holds.
    pub part: Part,
    /// Whether the node lives on its own, or only as long as something is built
    /// from it.
    pub strong: bool,
    /// The nodes it depends on, by their place in the plan.
    pub dependencies: Vec<usize>,
}

/// What a [`GraphInsert`] says.
#[verifier::ext_equal]
pub struct InsertModel {
    /// What the node holds.
    pub part: Part,
    /// Whether the node lives on its own.
    pub strong: bool,
    /// The nodes it depends on.
    pub dependencies: Seq<usize>,
}

impl View for GraphInsert {
    type V = InsertModel;

    open spec fn view(&self) -> InsertModel {
        InsertModel {
            part: self.part,
            strong: self.strong,
            dependencies: self.dependencies@,
        }
    }
}

/// What a plan says.
pub open spec fn plan_view(plan: Seq<GraphInsert>) -> Seq<InsertModel> {
    plan.map_values(|insert: GraphInsert| insert@)
}

/// One item, or none.
pub open spec fn maybe<T>(present: bool, item: T) -> Seq<T> {
    if present {
        seq![item]
    } else {
        Seq::empty()
    }
}

/// The parts a mesh description has.
#[derive(Clone, Copy, Debug, PartialEq, Eq, Structural)]
pub struct MeshShape {
    /// How many vertex buffers there are.
    pub vertex_buffers: usize,
    /// Whether there is an index buffer.
    pub index: bool,
    /// Whether there is a mesh-info uniform.
    pub mesh_info: bool,
    /// Whether there are morph displacements.
    pub morph: bool,
    /// Whether there is a bind group.
    pub bind_group: bool,
}

impl MeshShape {
    /// Where the index buffer is in the plan.
    #[verifier::inline]
    pub open spec fn index_at(self) -> int {
        self.vertex_buffers as int
    }

    /// Where the mesh-info uniform is in the plan.
    pub open spec fn info_at(self) -> int {
        self.index_at() + if self.index {
            1int
        } else {
            0
        }
    }

    /// Where the morph displacements are in the plan.
    pub open spec fn morph_at(self) -> int {
        self.info_at() + if self.mesh_info {
            1int
        } else {
            0
        }
    }

    /// Where the bind group is in the plan.
    pub open spec fn group_at(self) -> int {
        self.morph_at() + if self.morph {
            1int
        } else {
            0
        }
    }

    /// Where the root is in the plan: last.
    pub open spec fn root_at(self) -> int {
        self.group_at() + if self.bind_group {
            1int
        } else {
            0
        }
    }

    /// What the bind group depends on: what it reads, and nothing a draw binds
    /// directly.
    pub open spec fn group_dependencies(self) -> Seq<usize> {
        maybe(self.mesh_info, self.info_at() as usize) + maybe(self.morph, self.morph_at() as usize)
    }

    /// What the root is built from: every other node.
    pub open spec fn parts(self) -> Seq<usize> {
        Seq::new(self.vertex_buffers as nat, |i: int| i as usize) + maybe(
            self.index,
            self.index_at() as usize,
        ) + maybe(self.bind_group, self.group_at() as usize) + maybe(
            self.mesh_info,
            self.info_at() as usize,
        ) + maybe(self.morph, self.morph_at() as usize)
    }

    /// A weak node with no dependencies.
    pub open spec fn leaf(part: Part) -> InsertModel {
        InsertModel { part, strong: false, dependencies: Seq::empty() }
    }

    /// The nodes of the mesh, in the order they are inserted.
    pub open spec fn inserts(self) -> Seq<InsertModel> {
        Seq::new(
            self.vertex_buffers as nat,
            |i: int| Self::leaf(Part::VertexBuffer(i as usize)),
        ) + maybe(self.index, Self::leaf(Part::IndexBuffer)) + maybe(
            self.mesh_info,
            Self::leaf(Part::MeshInfo),
        ) + maybe(self.morph, Self::leaf(Part::MorphDeltas)) + maybe(
            self.bind_group,
            InsertModel {
                part: Part::BindGroup,
                strong: false,
                dependencies: self.group_dependencies(),
            },
        ) + seq![InsertModel { part: Part::Root, strong: true, dependencies: self.parts() }]
    }

    /// Whether a pass can bind the mesh's vertex buffers.
    pub open spec fn fits(self) -> bool {
        self.vertex_buffers <= MAX_VERTEX_BUFFERS
    }
}

/// The parts of a description.
pub open spec fn shape_of(desc: MeshDesc) -> MeshShape {
    MeshShape {
        vertex_buffers: crate::collections::descs_of(desc.vertex_buffers).len() as usize,
        index: desc.index_format is Some,
        mesh_info: desc.mesh_info,
        morph: desc.morph_targets is Some,
        bind_group: desc.bind_group,
    }
}

/// The parts of a description, whose list of vertex buffers never outgrows what
/// a pass can bind.
pub fn mesh_shape(desc: &MeshDesc) -> (shape: MeshShape)
    ensures
        shape == shape_of(*desc),
        shape.fits(),
        shape.vertex_buffers == crate::collections::descs_of(desc.vertex_buffers).len(),
{
    let index = match desc.index_format {
        Some(_) => true,
        None => false,
    };
    let morph = match desc.morph_targets {
        Some(_) => true,
        None => false,
    };
    MeshShape {
        vertex_buffers: desc_count(&desc.vertex_buffers),
        index,
        mesh_info: desc.mesh_info,
        morph,
        bind_group: desc.bind_group,
    }
}

/// Append a node to a plan.
fn push_node(plan: &mut Vec<GraphInsert>, part: Part, strong: bool, dependencies: Vec<usize>)
    ensures
        plan_view(final(plan)@) == plan_view(old(plan)@) + seq![
            InsertModel { part, strong, dependencies: dependencies@ },
        ],
{
    let insert = GraphInsert { part, strong, dependencies };
    let ghost model = insert@;
    plan.push(insert);
    assert(plan_view(plan@) =~= plan_view(old(plan)@) + seq![model]);
}

/// Append a weak node with no dependencies to a plan, if there is one.
fn push_leaf(plan: &mut Vec<GraphInsert>, present: bool, part: Part)
    ensures
        plan_view(final(plan)@) == plan_view(old(plan)@) + maybe(present, MeshShape::leaf(part)),
{
    if present {
        let none: Vec<usize> = Vec::new();
        assert(none@ =~= Seq::empty());
        push_node(plan, part, false, none);
    }
    assert(plan_view(plan@) =~= plan_view(old(plan)@) + maybe(present, MeshShape::leaf(part)));
}

/// Append a place in the plan to a list, if there is something there.
fn push_place(places: &mut Vec<usize>, present: bool, place: usize)
    ensures
        final(places)@ == old(places)@ + maybe(present, place),
{
    if present {
        places.push(place);
    }
    assert(places@ =~= old(places)@ + maybe(present, place));
}

/// The place after `place`, if there is something there, or else `place`.
fn after(place: usize, present: bool) -> (next: usize)
    requires
        place < usize::MAX,
    ensures
        next == place + if present {
            1int
        } else {
            0
        },
{
    if present {
        place + 1
    } else {
        place
    }
}

/// What the bind group of a mesh of `shape` depends on.
fn group_dependencies(shape: MeshShape) -> (dependencies: Vec<usize>)
    requires
        shape.fits(),
    ensures
        dependencies@ == shape.group_dependencies(),
{
    let info_at = after(shape.vertex_buffers, shape.index);
    let morph_at = after(info_at, shape.mesh_info);
    let mut dependencies: Vec<usize> = Vec::new();
    push_place(&mut dependencies, shape.mesh_info, info_at);
    push_place(&mut dependencies, shape.morph, morph_at);
    assert(dependencies@ =~= shape.group_dependencies());
    dependencies
}

/// What the root of a mesh of `shape` is built from.
fn root_parts(shape: MeshShape) -> (parts: Vec<usize>)
    requires
        shape.fits(),
    ensures
        parts@ == shape.parts(),
{
    let info_at = after(shape.vertex_buffers, shape.index);
    let morph_at = after(info_at, shape.mesh_info);
    let group_at = after(morph_at, shape.morph);
    let ghost buffers = Seq::new(shape.vertex_buffers as nat, |i: int| i as usize);
    let mut parts: Vec<usize> = Vec::new();
    let mut i: usize = 0;
    assert(parts@ =~= buffers.take(0));
    while i < shape.vertex_buffers
        invariant
            i <= shape.vertex_buffers,
            buffers == Seq::new(shape.vertex_buffers as nat, |i: int| i as usize),
            parts@ == buffers.take(i as int),
        decreases shape.vertex_buffers - i,
    {
        parts.push(i);
        i = i + 1;
        assert(parts@ =~= buffers.take(i as int));
    }
    assert(buffers.take(i as int) =~= buffers);
    push_place(&mut parts, shape.index, shape.vertex_buffers);
    push_place(&mut parts, shape.bind_group, group_at);
    push_place(&mut parts, shape.mesh_info, info_at);
    push_place(&mut parts, shape.morph, morph_at);
    parts
}

/// A plan of `count` vertex buffers.
fn vertex_leaves(count: usize) -> (plan: Vec<GraphInsert>)
    ensures
        plan_view(plan@) == Seq::new(
            count as nat,
            |i: int| MeshShape::leaf(Part::VertexBuffer(i as usize)),
        ),
{
    let mut plan: Vec<GraphInsert> = Vec::new();
    let ghost leaves = Seq::new(
        count as nat,
        |i: int| MeshShape::leaf(Part::VertexBuffer(i as usize)),
    );
    let mut i: usize = 0;
    assert(plan_view(plan@) =~= leaves.take(0));
    while i < count
        invariant
            i <= count,
            leaves == Seq::new(
                count as nat,
                |i: int| MeshShape::leaf(Part::VertexBuffer(i as usize)),
            ),
            plan_view(plan@) == leaves.take(i as int),
        decreases count - i,
    {
        push_leaf(&mut plan, true, Part::VertexBuffer(i));
        i = i + 1;
        assert(plan_view(plan@) =~= leaves.take(i as int));
    }
    assert(leaves.take(i as int) =~= leaves);
    plan
}

/// The nodes a mesh of `shape` is inserted into the graph as.
pub fn upload_plan(shape: MeshShape) -> (plan: Vec<GraphInsert>)
    requires
        shape.fits(),
    ensures
        plan_view(plan@) == shape.inserts(),
{
    let mut plan = vertex_leaves(shape.vertex_buffers);
    push_leaf(&mut plan, shape.index, Part::IndexBuffer);
    push_leaf(&mut plan, shape.mesh_info, Part::MeshInfo);
    push_leaf(&mut plan, shape.morph, Part::MorphDeltas);
    let ghost leaves = plan_view(plan@);
    if shape.bind_group {
        push_node(&mut plan, Part::BindGroup, false, group_dependencies(shape));
    } else {
        assert(leaves + Seq::<InsertModel>::empty() =~= leaves);
    }
    push_node(&mut plan, Part::Root, true, root_parts(shape));
    plan
}

/// The mesh a description became, once its nodes got `ids` and it took the
/// metadata slot `metadata_index`.
pub open spec fn built_mesh(desc: MeshDesc, ids: Seq<ResourceId>, metadata_index: u32) -> MeshModel {
    let shape = shape_of(desc);
    let buffers = crate::collections::descs_of(desc.vertex_buffers);
    MeshModel {
        root: ids[shape.root_at()],
        vertex_buffers: Seq::new(buffers.len(), |i: int| (buffers[i].slot, ids[i])),
        vertex_layout: Seq::new(buffers.len(), |i: int| (buffers[i].slot, buffers[i].layout@)),
        index_buffer: match desc.index_format {
            Some(format) => Some((ids[shape.index_at()], format)),
            None => None,
        },
        count: desc.count,
        first: 0,
        base_vertex: 0,
        indexed: desc.indexed,
        aabb: desc.aabb,
        vertex_allocation: None,
        index_allocation: None,
        metadata_index,
        bind_group_id: if shape.bind_group {
            Some(ids[shape.group_at()])
        } else {
            None
        },
        morph_targets: match desc.morph_targets {
            Some(targets) => targets,
            None => 0,
        },
        skinned: false,
    }
}

/// The handle of a mesh whose nodes the graph gave `ids`, in the order of
/// [`upload_plan`].
pub fn finish_mesh(desc: &MeshDesc, ids: &Vec<ResourceId>, metadata_index: u32) -> (mesh: GpuMesh)
    requires
        ids@.len() == shape_of(*desc).inserts().len(),
    ensures
        mesh@ == built_mesh(*desc, ids@, metadata_index),
{
    let shape = mesh_shape(desc);
    proof {
        lemma_plan_len(shape);
    }
    assert(ids@.len() == shape.root_at() + 1);
    let ghost buffers = crate::collections::descs_of(desc.vertex_buffers);
    let ghost target = built_mesh(*desc, ids@, metadata_index);
    let mut vertex_buffers = no_slots();
    let mut vertex_layout = no_layouts();
    let count = desc_count(&desc.vertex_buffers);
    let mut i: usize = 0;
    assert(crate::pipeline::layout_view(crate::collections::layouts_of(vertex_layout))
        =~= target.vertex_layout.take(0));
    while i < count
        invariant
            i <= count <= MAX_VERTEX_BUFFERS,
            buffers == crate::collections::descs_of(desc.vertex_buffers),
            count == buffers.len(),
            ids@.len() > count,
            target == built_mesh(*desc, ids@, metadata_index),
            crate::collections::slots_of(vertex_buffers) == target.vertex_buffers.take(i as int),
            crate::collections::layouts_of(vertex_layout).len() == i,
            crate::pipeline::layout_view(crate::collections::layouts_of(vertex_layout))
                == target.vertex_layout.take(i as int),
        decreases count - i,
    {
        let ghost before = crate::collections::layouts_of(vertex_layout);
        let described = desc_at(&desc.vertex_buffers, i);
        push_slot(&mut vertex_buffers, described.slot, ids[i]);
        push_layout(&mut vertex_layout, described.slot, described.layout.clone());
        i = i + 1;
        assert(crate::collections::slots_of(vertex_buffers) =~= target.vertex_buffers.take(
            i as int,
        ));
        assert(crate::pipeline::layout_view(crate::collections::layouts_of(vertex_layout))
            =~= crate::pipeline::layout_view(before).push(target.vertex_layout[i - 1]));
        assert(crate::pipeline::layout_view(crate::collections::layouts_of(vertex_layout))
            =~= target.vertex_layout.take(i as int));
    }
    assert(target.vertex_buffers.take(i as int) =~= target.vertex_buffers);
    assert(target.vertex_layout.take(i as int) =~= target.vertex_layout);
    let mut next: usize = shape.vertex_buffers;
    let index_buffer = match desc.index_format {
        Some(format) => {
            let id = ids[next];
            next = next + 1;
            Some((id, format))
        },
        None => None,
    };
    if shape.mesh_info {
        next = next + 1;
    }
    if shape.morph {
        next = next + 1;
    }
    let bind_group_id = if shape.bind_group {
        let id = ids[next];
        next = next + 1;
        Some(id)
    } else {
        None
    };
    let morph_targets: u32 = match desc.morph_targets {
        Some(targets) => targets,
        None => 0,
    };
    let mesh = GpuMesh {
        root: ids[next],
        vertex_buffers,
        vertex_layout,
        index_buffer,
        count: desc.count,
        first: 0,
        base_vertex: 0,
        indexed: desc.indexed,
        aabb: desc.aabb,
        vertex_allocation: None,
        index_allocation: None,
        metadata_index,
        bind_group_id,
        morph_targets,
        skinned: false,
    };
    assert(mesh@ =~= target);
    mesh
}

/// The node of the mesh-info uniform among the nodes of a plan, if there is one.
pub open spec fn info_node(shape: MeshShape, ids: Seq<ResourceId>) -> Option<ResourceId> {
    if shape.mesh_info {
        Some(ids[shape.info_at()])
    } else {
        None
    }
}

/// The node of the mesh-info uniform, which names the metadata slot and is
/// written once that is known.
pub fn mesh_info_node(shape: MeshShape, ids: &Vec<ResourceId>) -> (id: Option<ResourceId>)
    requires
        shape.fits(),
        ids@.len() == shape.inserts().len(),
    ensures
        id == info_node(shape, ids@),
        id == if shape.mesh_info {
            Some(ids@[shape.info_at()])
        } else {
            None
        },
{
    proof {
        lemma_plan_len(shape);
    }
    if shape.mesh_info {
        let at: usize = if shape.index {
            shape.vertex_buffers + 1
        } else {
            shape.vertex_buffers
        };
        Some(ids[at])
    } else {
        None
    }
}

/// A plan has one node per part and the root.
proof fn lemma_plan_len(shape: MeshShape)
    ensures
        shape.inserts().len() == shape.root_at() + 1,
        shape.parts().len() == shape.root_at(),
{
}

/// Where each node is in the plan.
proof fn lemma_plan_at(shape: MeshShape, k: int)
    requires
        shape.fits(),
        0 <= k < shape.inserts().len(),
    ensures
        k < shape.vertex_buffers ==> shape.inserts()[k] == MeshShape::leaf(
            Part::VertexBuffer(k as usize),
        ),
        shape.index && k == shape.index_at() ==> shape.inserts()[k] == MeshShape::leaf(
            Part::IndexBuffer,
        ),
        shape.mesh_info && k == shape.info_at() ==> shape.inserts()[k] == MeshShape::leaf(
            Part::MeshInfo,
        ),
        shape.morph && k == shape.morph_at() ==> shape.inserts()[k] == MeshShape::leaf(
            Part::MorphDeltas,
        ),
        shape.bind_group && k == shape.group_at() ==> shape.inserts()[k] == (InsertModel {
            part: Part::BindGroup,
            strong: false,
            dependencies: shape.group_dependencies(),
        }),
        k == shape.root_at() ==> shape.inserts()[k] == (InsertModel {
            part: Part::Root,
            strong: true,
            dependencies: shape.parts(),
        }),
{
}

/// A node depends only on nodes inserted before it, so the graph has them all.
pub proof fn law_dependencies_come_first(shape: MeshShape, k: int, d: int)
    requires
        shape.fits(),
        0 <= k < shape.inserts().len(),
        0 <= d < shape.inserts()[k].dependencies.len(),
    ensures
        shape.inserts()[k].dependencies[d] < k,
{
    lemma_plan_len(shape);
    lemma_plan_at(shape, k);
}

/// The root, and only the root, keeps the mesh alive: it is the one strong
/// node, nothing is built from it, and every other node is one of the parts it
/// is built from, exactly once.
pub proof fn law_the_root_owns_every_part(shape: MeshShape, k: int)
    requires
        shape.fits(),
        0 <= k < shape.inserts().len(),
    ensures
        shape.inserts()[k].strong <==> k == shape.root_at(),
        k < shape.root_at() ==> shape.parts().contains(k as usize),
        shape.parts().no_duplicates(),
        !shape.parts().contains(shape.root_at() as usize),
        shape.parts().len() <= MAX_MESH_PARTS,
{
    lemma_plan_len(shape);
    lemma_plan_at(shape, k);
    let parts = shape.parts();
    let n = shape.vertex_buffers as int;
    let i = n + if shape.index {
        1int
    } else {
        0
    };
    let g = i + if shape.bind_group {
        1int
    } else {
        0
    };
    let m = g + if shape.mesh_info {
        1int
    } else {
        0
    };
    assert forall|j: int| 0 <= j < parts.len() implies parts[j] == if j < n {
        j
    } else if j < i {
        shape.index_at()
    } else if j < g {
        shape.group_at()
    } else if j < m {
        shape.info_at()
    } else {
        shape.morph_at()
    } by {}
    if k < shape.root_at() {
        let j = if k < n {
            k
        } else if shape.index && k == shape.index_at() {
            n
        } else if shape.bind_group && k == shape.group_at() {
            i
        } else if shape.mesh_info && k == shape.info_at() {
            g
        } else {
            m
        };
        assert(parts[j] == k);
    }
}

/// The bind group depends on what it reads and on nothing else: no vertex or
/// index buffer, which a draw binds directly, is among its dependencies, so
/// replacing one rebuilds no group.
pub proof fn law_the_bind_group_depends_on_what_it_reads(shape: MeshShape, d: int)
    requires
        shape.fits(),
        0 <= d < shape.group_dependencies().len(),
    ensures
        shape.inserts()[shape.group_dependencies()[d] as int].part == Part::MeshInfo
            || shape.inserts()[shape.group_dependencies()[d] as int].part == Part::MorphDeltas,
{
    lemma_plan_len(shape);
    lemma_plan_at(shape, shape.group_dependencies()[d] as int);
}

/// A node of a resource graph, as far as its lifetime goes.
#[verifier::ext_equal]
pub struct NodeModel {
    /// Whether the node lives on its own.
    pub strong: bool,
    /// What it is built from.
    pub dependencies: Seq<ResourceId>,
}

/// Whether every node is built from nodes of the graph.
pub open spec fn is_closed(graph: Map<ResourceId, NodeModel>) -> bool {
    forall|id: ResourceId, d: int|
        #![trigger graph[id].dependencies[d]]
        graph.contains_key(id) && 0 <= d < graph[id].dependencies.len() ==> graph.contains_key(
            graph[id].dependencies[d],
        )
}

/// Whether `path` leads from a strong node to `id`, each node on it built from
/// the next.
pub open spec fn keeps_alive(
    graph: Map<ResourceId, NodeModel>,
    path: Seq<ResourceId>,
    id: ResourceId,
) -> bool {
    &&& path.len() > 0
    &&& path.last() == id
    &&& forall|i: int| 0 <= i < path.len() ==> graph.contains_key(#[trigger] path[i])
    &&& graph[path[0]].strong
    &&& forall|i: int|
        #![trigger path[i]]
        0 < i < path.len() ==> graph[path[i - 1]].dependencies.contains(path[i])
}

/// Whether `id` lives: it is strong, or something that lives is built from it.
pub open spec fn lives(graph: Map<ResourceId, NodeModel>, id: ResourceId) -> bool {
    exists|path: Seq<ResourceId>| keeps_alive(graph, path, id)
}

/// The graph once the nodes that do not live are collected.
pub open spec fn collected(graph: Map<ResourceId, NodeModel>) -> Map<ResourceId, NodeModel> {
    graph.restrict(Set::new(|id: ResourceId| lives(graph, id)))
}

/// The node at place `k` of a plan whose nodes got `ids`.
pub open spec fn planned_node(shape: MeshShape, ids: Seq<ResourceId>, k: int) -> NodeModel {
    let insert = shape.inserts()[k];
    NodeModel {
        strong: insert.strong,
        dependencies: Seq::new(
            insert.dependencies.len(),
            |d: int| ids[insert.dependencies[d] as int],
        ),
    }
}

/// The graph once the first `n` nodes of a mesh of `shape` are inserted, as
/// `ids`.
pub open spec fn inserted(
    graph: Map<ResourceId, NodeModel>,
    shape: MeshShape,
    ids: Seq<ResourceId>,
    n: nat,
) -> Map<ResourceId, NodeModel>
    decreases n,
{
    if n == 0 {
        graph
    } else {
        inserted(graph, shape, ids, (n - 1) as nat).insert(
            ids[n - 1],
            planned_node(shape, ids, n - 1),
        )
    }
}

/// Whether `ids` are names the graph can give the nodes of a mesh of `shape`:
/// one each, none of them twice and none in use.
pub open spec fn are_fresh(
    graph: Map<ResourceId, NodeModel>,
    shape: MeshShape,
    ids: Seq<ResourceId>,
) -> bool {
    &&& ids.len() == shape.inserts().len()
    &&& ids.no_duplicates()
    &&& forall|k: int| 0 <= k < ids.len() ==> !graph.contains_key(#[trigger] ids[k])
}

/// What a graph holds after the first `n` nodes of a mesh are inserted.
proof fn lemma_inserted(
    graph: Map<ResourceId, NodeModel>,
    shape: MeshShape,
    ids: Seq<ResourceId>,
    n: nat,
)
    requires
        are_fresh(graph, shape, ids),
        n <= ids.len(),
    ensures
        ({
            let after = inserted(graph, shape, ids, n);
            &&& forall|k: int|
                0 <= k < n ==> after.contains_key(#[trigger] ids[k]) && after[ids[k]]
                    == planned_node(shape, ids, k)
            &&& forall|id: ResourceId|
                graph.contains_key(id) ==> #[trigger] after.contains_key(id) && after[id]
                    == graph[id]
            &&& forall|id: ResourceId| #[trigger]
                after.contains_key(id) ==> graph.contains_key(id) || exists|k: int|
                    0 <= k < n && #[trigger] ids[k] == id
        }),
    decreases n,
{
    if n > 0 {
        lemma_inserted(graph, shape, ids, (n - 1) as nat);
        let before = inserted(graph, shape, ids, (n - 1) as nat);
        let after = inserted(graph, shape, ids, n);
        assert forall|k: int| 0 <= k < n implies after.contains_key(#[trigger] ids[k])
            && after[ids[k]] == planned_node(shape, ids, k) by {
            if k < n - 1 {
                assert(ids[k] != ids[n - 1]);
            }
        }
        assert forall|id: ResourceId| #[trigger] after.contains_key(id) implies graph.contains_key(
            id,
        ) || exists|k: int| 0 <= k < n && #[trigger] ids[k] == id by {
            if id == ids[n - 1] {
            } else if !graph.contains_key(id) {
                assert(before.contains_key(id));
                let k = choose|k: int| 0 <= k < n - 1 && #[trigger] ids[k] == id;
                assert(0 <= k < n && ids[k] == id);
            }
        }
    }
}

/// What keeps a node alive once the root of a mesh is gone kept it alive before
/// the mesh was there.
proof fn lemma_paths_avoid_the_mesh(
    graph: Map<ResourceId, NodeModel>,
    shape: MeshShape,
    ids: Seq<ResourceId>,
    path: Seq<ResourceId>,
    id: ResourceId,
)
    requires
        shape.fits(),
        is_closed(graph),
        are_fresh(graph, shape, ids),
        keeps_alive(
            inserted(graph, shape, ids, ids.len()).remove(ids[shape.root_at()]),
            path,
            id,
        ),
    ensures
        keeps_alive(graph, path, id),
{
    let full = inserted(graph, shape, ids, ids.len());
    let root = ids[shape.root_at()];
    let left = full.remove(root);
    lemma_plan_len(shape);
    lemma_inserted(graph, shape, ids, ids.len());
    assert(left.contains_key(path[0]));
    if !graph.contains_key(path[0]) {
        let k = choose|k: int| 0 <= k < ids.len() && #[trigger] ids[k] == path[0];
        law_the_root_owns_every_part(shape, k);
        assert(full[ids[k]] == planned_node(shape, ids, k));
        assert(k == shape.root_at());
    }
    assert forall|i: int| 0 <= i < path.len() implies graph.contains_key(#[trigger] path[i]) by {
        lemma_path_stays(graph, left, path, i);
    }
    assert forall|i: int| #![trigger path[i]] 0 < i < path.len() implies graph[path[i
        - 1]].dependencies.contains(path[i]) by {
        assert(graph.contains_key(path[i - 1]));
        assert(full.contains_key(path[i - 1]));
        assert(left[path[i - 1]].dependencies.contains(path[i]));
    }
    assert(graph[path[0]] == full[path[0]]);
}

/// A path that starts in a closed part of a graph stays in it.
proof fn lemma_path_stays(
    part: Map<ResourceId, NodeModel>,
    graph: Map<ResourceId, NodeModel>,
    path: Seq<ResourceId>,
    i: int,
)
    requires
        is_closed(part),
        0 <= i < path.len(),
        part.contains_key(path[0]),
        forall|k: int| 0 <= k < path.len() ==> graph.contains_key(#[trigger] path[k]),
        forall|id: ResourceId|
            part.contains_key(id) && #[trigger] graph.contains_key(id) ==> graph[id] == part[id],
        forall|k: int|
            #![trigger path[k]]
            0 < k < path.len() ==> graph[path[k - 1]].dependencies.contains(path[k]),
    ensures
        part.contains_key(path[i]),
    decreases i,
{
    if i > 0 {
        lemma_path_stays(part, graph, path, i - 1);
        let before = path[i - 1];
        assert(graph.contains_key(before));
        assert(graph[before].dependencies.contains(path[i]));
        let d = choose|d: int|
            0 <= d < part[before].dependencies.len() && part[before].dependencies[d] == path[i];
        assert(part.contains_key(part[before].dependencies[d]));
    }
}

/// What kept a node alive keeps it alive in any graph that has the same nodes
/// and more.
proof fn lemma_lives_in_more(
    graph: Map<ResourceId, NodeModel>,
    more: Map<ResourceId, NodeModel>,
    id: ResourceId,
)
    requires
        collected(graph) == graph,
        graph.contains_key(id),
        forall|id: ResourceId|
            graph.contains_key(id) ==> #[trigger] more.contains_key(id) && more[id] == graph[id],
    ensures
        lives(more, id),
{
    assert(collected(graph).contains_key(id));
    let path = choose|path: Seq<ResourceId>| keeps_alive(graph, path, id);
    assert forall|i: int| 0 <= i < path.len() implies more.contains_key(#[trigger] path[i])
        && more[path[i]] == graph[path[i]] by {
        assert(graph.contains_key(path[i]));
    }
    assert forall|i: int| #![trigger path[i]] 0 < i < path.len() implies more[path[i
        - 1]].dependencies.contains(path[i]) by {
        assert(more.contains_key(path[i - 1]));
    }
    assert(keeps_alive(more, path, id));
}

/// With a mesh inserted, a graph that keeps only what lives keeps only what
/// lives.
proof fn lemma_the_mesh_lives(
    graph: Map<ResourceId, NodeModel>,
    shape: MeshShape,
    ids: Seq<ResourceId>,
)
    requires
        shape.fits(),
        collected(graph) == graph,
        are_fresh(graph, shape, ids),
    ensures
        collected(inserted(graph, shape, ids, ids.len())) == inserted(
            graph,
            shape,
            ids,
            ids.len(),
        ),
{
    let full = inserted(graph, shape, ids, ids.len());
    lemma_inserted(graph, shape, ids, ids.len());
    assert forall|id: ResourceId| full.contains_key(id) implies lives(full, id) by {
        if graph.contains_key(id) {
            lemma_lives_in_more(graph, full, id);
        } else {
            let k = choose|k: int| 0 <= k < ids.len() && #[trigger] ids[k] == id;
            lemma_part_lives(graph, shape, ids, k);
        }
    }
    assert(collected(full) =~= full);
}

/// Once the root of a mesh is removed, what lives is what the graph held before
/// the mesh.
proof fn lemma_the_root_was_all(
    graph: Map<ResourceId, NodeModel>,
    shape: MeshShape,
    ids: Seq<ResourceId>,
)
    requires
        shape.fits(),
        is_closed(graph),
        collected(graph) == graph,
        are_fresh(graph, shape, ids),
    ensures
        collected(
            inserted(graph, shape, ids, ids.len()).remove(ids[shape.root_at()]),
        ) == graph,
{
    let full = inserted(graph, shape, ids, ids.len());
    let root = ids[shape.root_at()];
    let left = full.remove(root);
    lemma_plan_len(shape);
    lemma_inserted(graph, shape, ids, ids.len());
    assert(!graph.contains_key(root));
    assert forall|id: ResourceId| graph.contains_key(id) implies #[trigger] left.contains_key(id)
        && left[id] == graph[id] by {
        assert(full.contains_key(id));
    }
    assert forall|id: ResourceId| graph.contains_key(id) implies lives(left, id) by {
        lemma_lives_in_more(graph, left, id);
    }
    assert forall|id: ResourceId| left.contains_key(id) && lives(
        left,
        id,
    ) implies graph.contains_key(id) by {
        let path = choose|path: Seq<ResourceId>| keeps_alive(left, path, id);
        lemma_paths_avoid_the_mesh(graph, shape, ids, path, id);
    }
    assert(collected(left) =~= graph);
}

/// Removing a mesh undoes its upload: while its root is there every node of its
/// plan lives, and once the root is removed and what does not live is collected
/// the graph is what it was, so exactly the nodes of the plan are freed and
/// every other node stays.
pub proof fn law_removing_the_root_frees_exactly_the_mesh(
    graph: Map<ResourceId, NodeModel>,
    shape: MeshShape,
    ids: Seq<ResourceId>,
)
    requires
        shape.fits(),
        is_closed(graph),
        collected(graph) == graph,
        are_fresh(graph, shape, ids),
    ensures
        ({
            let full = inserted(graph, shape, ids, ids.len());
            &&& is_closed(full)
            &&& collected(full) == full
            &&& collected(full.remove(ids[shape.root_at()])) == graph
        }),
{
    lemma_inserted_is_closed(graph, shape, ids);
    lemma_the_mesh_lives(graph, shape, ids);
    lemma_the_root_was_all(graph, shape, ids);
}

/// Every node of a mesh lives as long as its root is there.
proof fn lemma_part_lives(
    graph: Map<ResourceId, NodeModel>,
    shape: MeshShape,
    ids: Seq<ResourceId>,
    k: int,
)
    requires
        shape.fits(),
        are_fresh(graph, shape, ids),
        0 <= k < ids.len(),
    ensures
        lives(inserted(graph, shape, ids, ids.len()), ids[k]),
{
    let full = inserted(graph, shape, ids, ids.len());
    let at = shape.root_at();
    let root = ids[at];
    lemma_plan_len(shape);
    lemma_plan_at(shape, at);
    lemma_inserted(graph, shape, ids, ids.len());
    law_the_root_owns_every_part(shape, k);
    assert(full[root] == planned_node(shape, ids, at));
    if k == at {
        assert(keeps_alive(full, seq![root], root));
    } else {
        let parts = shape.parts();
        let d = choose|d: int| 0 <= d < parts.len() && parts[d] == k as usize;
        assert(full[root].dependencies[d] == ids[k]);
        assert(keeps_alive(full, seq![root, ids[k]], ids[k]));
    }
}

/// A mesh's nodes are built from one another, so a graph that was closed is
/// closed with them.
proof fn lemma_inserted_is_closed(
    graph: Map<ResourceId, NodeModel>,
    shape: MeshShape,
    ids: Seq<ResourceId>,
)
    requires
        shape.fits(),
        is_closed(graph),
        are_fresh(graph, shape, ids),
    ensures
        is_closed(inserted(graph, shape, ids, ids.len())),
{
    let full = inserted(graph, shape, ids, ids.len());
    lemma_inserted(graph, shape, ids, ids.len());
    assert forall|id: ResourceId, d: int|
        #![trigger full[id].dependencies[d]]
        full.contains_key(id) && 0 <= d < full[id].dependencies.len() implies full.contains_key(
        full[id].dependencies[d],
    ) by {
        if graph.contains_key(id) {
            assert(full[id] == graph[id]);
            let dependency = graph[id].dependencies[d];
            assert(graph.contains_key(dependency));
            assert(full.contains_key(dependency));
        } else {
            let k = choose|k: int| 0 <= k < ids.len() && #[trigger] ids[k] == id;
            assert(full[ids[k]] == planned_node(shape, ids, k));
            law_dependencies_come_first(shape, k, d);
            let at = shape.inserts()[k].dependencies[d] as int;
            assert(full.contains_key(ids[at]));
        }
    }
}

/// One mesh in a graph: what it is built from and what its nodes were named.
#[verifier::ext_equal]
pub struct PlacedMesh {
    /// What the mesh is built from.
    pub shape: MeshShape,
    /// The names of its nodes, in the order of its plan.
    pub ids: Seq<ResourceId>,
}

/// The graph once each of `meshes` is inserted, first to last.
pub open spec fn with_meshes(
    graph: Map<ResourceId, NodeModel>,
    meshes: Seq<PlacedMesh>,
) -> Map<ResourceId, NodeModel>
    decreases meshes.len(),
{
    if meshes.len() == 0 {
        graph
    } else {
        let mesh = meshes.last();
        inserted(with_meshes(graph, meshes.drop_last()), mesh.shape, mesh.ids, mesh.ids.len())
    }
}

/// Whether each of `meshes` fits and gets names the graph can give it when it is
/// inserted.
pub open spec fn are_placeable(
    graph: Map<ResourceId, NodeModel>,
    meshes: Seq<PlacedMesh>,
) -> bool
    decreases meshes.len(),
{
    meshes.len() > 0 ==> {
        &&& are_placeable(graph, meshes.drop_last())
        &&& meshes.last().shape.fits()
        &&& are_fresh(
            with_meshes(graph, meshes.drop_last()),
            meshes.last().shape,
            meshes.last().ids,
        )
    }
}

/// The order two meshes are inserted in does not matter.
proof fn lemma_inserts_commute(
    graph: Map<ResourceId, NodeModel>,
    a: PlacedMesh,
    b: PlacedMesh,
)
    requires
        are_fresh(graph, a.shape, a.ids),
        are_fresh(inserted(graph, a.shape, a.ids, a.ids.len()), b.shape, b.ids),
    ensures
        are_fresh(graph, b.shape, b.ids),
        are_fresh(inserted(graph, b.shape, b.ids, b.ids.len()), a.shape, a.ids),
        inserted(
            inserted(graph, a.shape, a.ids, a.ids.len()),
            b.shape,
            b.ids,
            b.ids.len(),
        ) == inserted(
            inserted(graph, b.shape, b.ids, b.ids.len()),
            a.shape,
            a.ids,
            a.ids.len(),
        ),
{
    let with_a = inserted(graph, a.shape, a.ids, a.ids.len());
    lemma_inserted(graph, a.shape, a.ids, a.ids.len());
    assert forall|k: int| 0 <= k < b.ids.len() implies !graph.contains_key(#[trigger] b.ids[k]) by {
        assert(!with_a.contains_key(b.ids[k]));
    }
    let with_b = inserted(graph, b.shape, b.ids, b.ids.len());
    lemma_inserted(graph, b.shape, b.ids, b.ids.len());
    assert forall|k: int| 0 <= k < a.ids.len() implies !with_b.contains_key(#[trigger] a.ids[k]) by {
        if with_b.contains_key(a.ids[k]) {
            assert(!graph.contains_key(a.ids[k]));
            let j = choose|j: int| 0 <= j < b.ids.len() && #[trigger] b.ids[j] == a.ids[k];
            assert(with_a.contains_key(a.ids[k]));
            assert(!with_a.contains_key(b.ids[j]));
        }
    }
    let ab = inserted(with_a, b.shape, b.ids, b.ids.len());
    let ba = inserted(with_b, a.shape, a.ids, a.ids.len());
    lemma_inserted(with_a, b.shape, b.ids, b.ids.len());
    lemma_inserted(with_b, a.shape, a.ids, a.ids.len());
    assert forall|id: ResourceId| ab.contains_key(id) implies #[trigger] ba.contains_key(id)
        && ab[id] == ba[id] by {
        if with_a.contains_key(id) {
            if graph.contains_key(id) {
                assert(with_b.contains_key(id));
            } else {
                let k = choose|k: int| 0 <= k < a.ids.len() && #[trigger] a.ids[k] == id;
                assert(ba[a.ids[k]] == planned_node(a.shape, a.ids, k));
            }
        } else {
            let k = choose|k: int| 0 <= k < b.ids.len() && #[trigger] b.ids[k] == id;
            assert(ab[b.ids[k]] == planned_node(b.shape, b.ids, k));
            assert(with_b.contains_key(b.ids[k]));
        }
    }
    assert forall|id: ResourceId| ba.contains_key(id) implies #[trigger] ab.contains_key(id) by {
        if with_b.contains_key(id) {
            if graph.contains_key(id) {
                assert(with_a.contains_key(id));
            } else {
                let k = choose|k: int| 0 <= k < b.ids.len() && #[trigger] b.ids[k] == id;
                assert(ab.contains_key(b.ids[k]));
            }
        } else {
            let k = choose|k: int| 0 <= k < a.ids.len() && #[trigger] a.ids[k] == id;
            assert(with_a.contains_key(a.ids[k]));
        }
    }
    assert(ab =~= ba);
}

/// Any mesh may as well have been inserted last.
proof fn lemma_inserted_last(
    graph: Map<ResourceId, NodeModel>,
    meshes: Seq<PlacedMesh>,
    i: int,
)
    requires
        are_placeable(graph, meshes),
        0 <= i < meshes.len(),
    ensures
        ({
            let others = meshes.remove(i);
            let mesh = meshes[i];
            &&& are_placeable(graph, others)
            &&& mesh.shape.fits()
            &&& are_fresh(with_meshes(graph, others), mesh.shape, mesh.ids)
            &&& with_meshes(graph, meshes) == inserted(
                with_meshes(graph, others),
                mesh.shape,
                mesh.ids,
                mesh.ids.len(),
            )
        }),
    decreases meshes.len(),
{
    let others = meshes.remove(i);
    let last = meshes.last();
    let rest = meshes.drop_last();
    if i == meshes.len() - 1 {
        assert(others =~= rest);
    } else {
        lemma_inserted_last(graph, rest, i);
        let fewer = rest.remove(i);
        assert(others.drop_last() =~= fewer);
        assert(others.last() == last);
        assert(rest[i] == meshes[i]);
        lemma_inserts_commute(with_meshes(graph, fewer), meshes[i], last);
    }
}

/// With any meshes inserted, a closed graph stays closed, and one that keeps
/// only what lives keeps only what lives.
proof fn lemma_meshes_live(graph: Map<ResourceId, NodeModel>, meshes: Seq<PlacedMesh>)
    requires
        is_closed(graph),
        collected(graph) == graph,
        are_placeable(graph, meshes),
    ensures
        is_closed(with_meshes(graph, meshes)),
        collected(with_meshes(graph, meshes)) == with_meshes(graph, meshes),
    decreases meshes.len(),
{
    if meshes.len() > 0 {
        let mesh = meshes.last();
        lemma_meshes_live(graph, meshes.drop_last());
        law_removing_the_root_frees_exactly_the_mesh(
            with_meshes(graph, meshes.drop_last()),
            mesh.shape,
            mesh.ids,
        );
    }
}

/// Removing a mesh frees its own resources and no other's, however many meshes
/// were uploaded before it and after it: what is left is the graph with exactly
/// the other meshes in it.
pub proof fn law_removing_a_mesh_leaves_the_others(
    graph: Map<ResourceId, NodeModel>,
    meshes: Seq<PlacedMesh>,
    i: int,
)
    requires
        is_closed(graph),
        collected(graph) == graph,
        are_placeable(graph, meshes),
        0 <= i < meshes.len(),
    ensures
        collected(
            with_meshes(graph, meshes).remove(meshes[i].ids[meshes[i].shape.root_at()]),
        ) == with_meshes(graph, meshes.remove(i)),
        is_closed(with_meshes(graph, meshes.remove(i))),
        are_placeable(graph, meshes.remove(i)),
{
    let others = meshes.remove(i);
    lemma_inserted_last(graph, meshes, i);
    lemma_meshes_live(graph, others);
    law_removing_the_root_frees_exactly_the_mesh(
        with_meshes(graph, others),
        meshes[i].shape,
        meshes[i].ids,
    );
}

/// A mesh is what was described: it keeps the bounds, the count, whether it is
/// indexed and how many morph targets it has. It starts at the beginning of its
/// own buffers, took no range of a pool, and carries no joints.
pub proof fn law_a_built_mesh_is_what_was_described(
    desc: MeshDesc,
    ids: Seq<ResourceId>,
    metadata_index: u32,
)
    ensures
        ({
            let mesh = built_mesh(desc, ids, metadata_index);
            &&& mesh.aabb.center == desc.aabb.center
            &&& mesh.aabb.half_extents == desc.aabb.half_extents
            &&& mesh.count == desc.count
            &&& mesh.indexed == desc.indexed
            &&& mesh.first == 0
            &&& mesh.base_vertex == 0
            &&& mesh.metadata_index == metadata_index
            &&& mesh.vertex_allocation is None
            &&& mesh.index_allocation is None
            &&& !mesh.skinned
            &&& desc.morph_targets matches Some(targets) ==> mesh.morph_targets == targets
            &&& desc.morph_targets is None ==> mesh.morph_targets == 0
        }),
{
}

/// Every part of a mesh is bound as what it is: the node a plan inserts for a
/// vertex buffer is bound at that buffer's slot with its layout, the node of the
/// index buffer is the index buffer in the format described, the node of the
/// bind group is its bind group, and the node of the root is its root.
pub proof fn law_a_built_mesh_binds_its_own_parts(
    desc: MeshDesc,
    ids: Seq<ResourceId>,
    metadata_index: u32,
    k: int,
)
    requires
        shape_of(desc).fits(),
        crate::collections::descs_of(desc.vertex_buffers).len() <= MAX_VERTEX_BUFFERS,
        ids.len() == shape_of(desc).inserts().len(),
        0 <= k < ids.len(),
    ensures
        ({
            let mesh = built_mesh(desc, ids, metadata_index);
            let buffers = crate::collections::descs_of(desc.vertex_buffers);
            match shape_of(desc).inserts()[k].part {
                Part::VertexBuffer(at) => at < buffers.len() && mesh.vertex_buffers[at as int] == (
                    buffers[at as int].slot,
                    ids[k],
                ) && mesh.vertex_layout[at as int] == (
                    buffers[at as int].slot,
                    buffers[at as int].layout@,
                ),
                Part::IndexBuffer => desc.index_format is Some && mesh.index_buffer == Some(
                    (ids[k], desc.index_format->0),
                ),
                Part::BindGroup => desc.bind_group && mesh.bind_group_id == Some(ids[k]),
                Part::Root => mesh.root == ids[k],
                Part::MeshInfo => desc.mesh_info,
                Part::MorphDeltas => desc.morph_targets is Some,
            }
        }),
{
    lemma_plan_len(shape_of(desc));
    lemma_plan_at(shape_of(desc), k);
}

/// A mesh binds nothing it was not described with: as many vertex buffers as
/// were described, and an index buffer and a bind group exactly where there is
/// one.
pub proof fn law_a_built_mesh_binds_nothing_else(
    desc: MeshDesc,
    ids: Seq<ResourceId>,
    metadata_index: u32,
)
    ensures
        ({
            let mesh = built_mesh(desc, ids, metadata_index);
            let buffers = crate::collections::descs_of(desc.vertex_buffers);
            &&& mesh.vertex_buffers.len() == buffers.len()
            &&& mesh.vertex_layout.len() == buffers.len()
            &&& mesh.index_buffer is Some <==> desc.index_format is Some
            &&& mesh.bind_group_id is Some <==> desc.bind_group
        }),
{
}

/// Whether a mesh of this shape has `part`.
pub open spec fn has_part(shape: MeshShape, part: Part) -> bool {
    match part {
        Part::VertexBuffer(at) => at < shape.vertex_buffers,
        Part::IndexBuffer => shape.index,
        Part::MeshInfo => shape.mesh_info,
        Part::MorphDeltas => shape.morph,
        Part::BindGroup => shape.bind_group,
        Part::Root => true,
    }
}

/// A plan inserts every part of a mesh and nothing else, each once.
pub proof fn law_every_part_is_planned_once(shape: MeshShape, part: Part, i: int, j: int)
    requires
        shape.fits(),
    ensures
        has_part(shape, part) ==> exists|k: int|
            0 <= k < shape.inserts().len() && (#[trigger] shape.inserts()[k]).part == part,
        0 <= i < shape.inserts().len() ==> has_part(shape, shape.inserts()[i].part),
        0 <= i < j < shape.inserts().len() ==> shape.inserts()[i].part != shape.inserts()[j].part,
{
    lemma_plan_len(shape);
    if 0 <= i < shape.inserts().len() {
        lemma_plan_at(shape, i);
    }
    if 0 <= j < shape.inserts().len() {
        lemma_plan_at(shape, j);
    }
    if has_part(shape, part) {
        let k = match part {
            Part::VertexBuffer(at) => at as int,
            Part::IndexBuffer => shape.index_at(),
            Part::MeshInfo => shape.info_at(),
            Part::MorphDeltas => shape.morph_at(),
            Part::BindGroup => shape.group_at(),
            Part::Root => shape.root_at(),
        };
        lemma_plan_at(shape, k);
        assert(shape.inserts()[k].part == part);
    }
}

/// A bind group depends on everything it reads, so that replacing any of it
/// rebuilds the group.
pub proof fn law_the_bind_group_depends_on_all_it_reads(shape: MeshShape, k: int)
    requires
        shape.fits(),
        0 <= k < shape.inserts().len(),
        shape.inserts()[k].part == Part::MeshInfo || shape.inserts()[k].part == Part::MorphDeltas,
    ensures
        shape.group_dependencies().contains(k as usize),
        shape.bind_group ==> shape.inserts()[shape.group_at()].part == Part::BindGroup
            && shape.inserts()[shape.group_at()].dependencies == shape.group_dependencies(),
{
    lemma_plan_len(shape);
    lemma_plan_at(shape, k);
    if shape.bind_group {
        lemma_plan_at(shape, shape.group_at());
    }
    let reads = shape.group_dependencies();
    if shape.inserts()[k].part == Part::MeshInfo {
        assert(reads[0] == k);
    } else if shape.mesh_info {
        assert(reads[1] == k);
    } else {
        assert(reads[0] == k);
    }
}

/// A description has the parts it names.
pub proof fn law_a_shape_has_the_parts_described(desc: MeshDesc)
    ensures
        shape_of(desc).index <==> desc.index_format is Some,
        shape_of(desc).mesh_info == desc.mesh_info,
        shape_of(desc).morph <==> desc.morph_targets is Some,
        shape_of(desc).bind_group == desc.bind_group,
{
}

/// The mesh-info node is the one the plan inserted for it, and there is one
/// exactly when the mesh has a mesh-info uniform.
pub proof fn law_the_mesh_info_is_the_planned_one(shape: MeshShape, ids: Seq<ResourceId>, k: int)
    requires
        shape.fits(),
        ids.len() == shape.inserts().len(),
        0 <= k < ids.len(),
    ensures
        shape.inserts()[k].part is MeshInfo ==> info_node(shape, ids) == Some(ids[k]),
        info_node(shape, ids) is Some <==> shape.mesh_info,
{
    lemma_plan_len(shape);
    lemma_plan_at(shape, k);
}

} // verus!
