//! The outside collections the library keeps its lists and maps in.
//!
//! A mesh's vertex buffers, their descriptions and their layouts are each an
//! `ArrayVec`, bounded by what a pass can bind, and the nodes of the vertex pool
//! are found through a `hashbrown` map.
//! What each call does to the contents is stated here and believed; everything
//! built on top of it is proved.

use vstd::prelude::*;

use crate::components::ResourceId;
use crate::mesh::{VertexBufferDesc, VertexBufferLayoutDesc};
use arrayvec::ArrayVec;

verus! {

/// The most vertex buffers a pass can bind: wgpu's default limit.
pub const MAX_VERTEX_BUFFERS: usize = 8;

/// The most resources one mesh can be built from: every vertex buffer a pass
/// can bind, plus the index buffer, the mesh bind group, the mesh-info uniform
/// and the morph displacements.
pub const MAX_MESH_PARTS: usize = 12;

/// A copy of a list.
pub fn copy_list<T: Copy>(list: &Vec<T>) -> (copy: Vec<T>)
    ensures
        copy@ == list@,
{
    let mut copy: Vec<T> = Vec::new();
    let mut i: usize = 0;
    while i < list.len()
        invariant
            i <= list.len(),
            copy@ == list@.take(i as int),
        decreases list.len() - i,
    {
        copy.push(list[i]);
        i = i + 1;
        assert(copy@ =~= list@.take(i as int));
    }
    assert(list@.take(i as int) =~= list@);
    copy
}

/// `arrayvec`'s bounded vector.
#[verifier::external_type_specification]
#[verifier::external_body]
#[verifier::reject_recursive_types(T)]
pub struct ExArrayVec<T, const CAP: usize>(arrayvec::ArrayVec<T, CAP>);

/// Vertex buffers, each tagged with the slot it is bound at.
pub type VertexSlots = ArrayVec<(u32, ResourceId), MAX_VERTEX_BUFFERS>;

/// What a list of vertex buffers holds, in order.
pub uninterp spec fn slots_of(slots: VertexSlots) -> Seq<(u32, ResourceId)>;

/// An empty list, from `ArrayVec::new`, which holds nothing.
#[verifier::external_body]
pub(crate) fn no_slots() -> (slots: VertexSlots)
    ensures
        slots_of(slots) == Seq::<(u32, ResourceId)>::empty(),
{
    ArrayVec::new()
}

/// Append a vertex buffer with `ArrayVec::push`, which puts the element at the
/// end and panics on a full list.
#[verifier::external_body]
pub(crate) fn push_slot(slots: &mut VertexSlots, slot: u32, buffer: ResourceId)
    requires
        slots_of(*old(slots)).len() < MAX_VERTEX_BUFFERS,
    ensures
        slots_of(*final(slots)) == slots_of(*old(slots)).push((slot, buffer)),
{
    slots.push((slot, buffer));
}

/// How many vertex buffers a list holds, from `ArrayVec::len`, which never
/// exceeds the list's bound.
#[verifier::external_body]
pub(crate) fn slot_count(slots: &VertexSlots) -> (count: usize)
    ensures
        count == slots_of(*slots).len(),
        count <= MAX_VERTEX_BUFFERS,
{
    slots.len()
}

/// The vertex buffer at `index`, from `ArrayVec::as_slice`, whose slice holds
/// the list's elements in order.
#[verifier::external_body]
pub(crate) fn slot_at(slots: &VertexSlots, index: usize) -> (slot: (u32, ResourceId))
    requires
        index < slots_of(*slots).len(),
    ensures
        slot == slots_of(*slots)[index as int],
{
    slots.as_slice()[index]
}

/// A vertex layout, slot by slot.
pub type LayoutSlots = ArrayVec<(u32, VertexBufferLayoutDesc), MAX_VERTEX_BUFFERS>;

/// What a slot-by-slot layout holds, in order.
pub uninterp spec fn layouts_of(layouts: LayoutSlots) -> Seq<(u32, VertexBufferLayoutDesc)>;

/// An empty layout, from `ArrayVec::new`, which holds nothing.
#[verifier::external_body]
pub(crate) fn no_layouts() -> (layouts: LayoutSlots)
    ensures
        layouts_of(layouts) == Seq::<(u32, VertexBufferLayoutDesc)>::empty(),
{
    ArrayVec::new()
}

/// Append a slot's layout with `ArrayVec::push`, which puts the element at the
/// end and panics on a full list.
#[verifier::external_body]
pub(crate) fn push_layout(layouts: &mut LayoutSlots, slot: u32, layout: VertexBufferLayoutDesc)
    requires
        layouts_of(*old(layouts)).len() < MAX_VERTEX_BUFFERS,
    ensures
        layouts_of(*final(layouts)) == layouts_of(*old(layouts)).push((slot, layout)),
{
    layouts.push((slot, layout));
}

/// How many slots a layout declares, from `ArrayVec::len`, which never exceeds
/// the list's bound.
#[verifier::external_body]
pub(crate) fn layout_count(layouts: &LayoutSlots) -> (count: usize)
    ensures
        count == layouts_of(*layouts).len(),
        count <= MAX_VERTEX_BUFFERS,
{
    layouts.len()
}

/// The slot and layout at `index`, from `ArrayVec::as_slice`, whose slice holds
/// the list's elements in order.
#[verifier::external_body]
pub(crate) fn layout_at(layouts: &LayoutSlots, index: usize) -> (entry: &(
    u32,
    VertexBufferLayoutDesc,
))
    requires
        index < layouts_of(*layouts).len(),
    ensures
        *entry == layouts_of(*layouts)[index as int],
{
    &layouts.as_slice()[index]
}

/// The vertex buffers of a mesh, as they are described.
pub type BufferDescs = ArrayVec<VertexBufferDesc, MAX_VERTEX_BUFFERS>;

/// What a list of described vertex buffers holds, in order.
pub uninterp spec fn descs_of(descs: BufferDescs) -> Seq<VertexBufferDesc>;

/// An empty list, from `ArrayVec::new`, which holds nothing.
#[verifier::external_body]
pub(crate) fn no_descs() -> (descs: BufferDescs)
    ensures
        descs_of(descs) == Seq::<VertexBufferDesc>::empty(),
{
    ArrayVec::new()
}

/// Append a described buffer with `ArrayVec::push`, which puts the element at
/// the end and panics on a full list.
#[verifier::external_body]
pub(crate) fn push_desc(descs: &mut BufferDescs, desc: VertexBufferDesc)
    requires
        descs_of(*old(descs)).len() < MAX_VERTEX_BUFFERS,
    ensures
        descs_of(*final(descs)) == descs_of(*old(descs)).push(desc),
{
    descs.push(desc);
}

/// How many buffers are described, from `ArrayVec::len`, which never exceeds
/// the list's bound.
#[verifier::external_body]
pub(crate) fn desc_count(descs: &BufferDescs) -> (count: usize)
    ensures
        count == descs_of(*descs).len(),
        count <= MAX_VERTEX_BUFFERS,
{
    descs.len()
}

/// The described buffer at `index`, from `ArrayVec::as_slice`, whose slice holds
/// the list's elements in order.
#[verifier::external_body]
pub(crate) fn desc_at(descs: &BufferDescs, index: usize) -> (desc: &VertexBufferDesc)
    requires
        index < descs_of(*descs).len(),
    ensures
        *desc == descs_of(*descs)[index as int],
{
    &descs.as_slice()[index]
}

/// The graph nodes of the vertex pool's buffers, by the layout each buffer is
/// shaped for; a layout is looked up by the integers that describe it.
#[verifier::external_body]
pub struct LayoutNodes {
    nodes: hashbrown::HashMap<Vec<u64>, u64>,
}

/// What a [`LayoutNodes`] holds: each layout's node.
pub uninterp spec fn nodes_of(nodes: LayoutNodes) -> Map<Seq<u64>, u64>;

impl LayoutNodes {
    /// No nodes, from `hashbrown::HashMap::new`, which makes an empty map.
    #[verifier::external_body]
    pub(crate) fn new() -> (made: Self)
        ensures
            nodes_of(made) =~= Map::empty(),
    {
        LayoutNodes { nodes: hashbrown::HashMap::new() }
    }

    /// The node of `layout`, from `hashbrown::HashMap::get`, which finds the
    /// value under an equal key and `None` where there is none.
    #[verifier::external_body]
    pub(crate) fn get(&self, layout: &Vec<u64>) -> (node: Option<u64>)
        ensures
            node == if nodes_of(*self).contains_key(layout@) {
                Some(nodes_of(*self)[layout@])
            } else {
                None
            },
    {
        self.nodes.get(layout).copied()
    }

    /// Record the node of `layout` with `hashbrown::HashMap::insert`, which
    /// replaces the value under an equal key and leaves the others alone.
    #[verifier::external_body]
    pub(crate) fn insert(&mut self, layout: Vec<u64>, node: u64)
        ensures
            nodes_of(*final(self)) == nodes_of(*old(self)).insert(layout@, node),
    {
        self.nodes.insert(layout, node);
    }
}

} // verus!
