//! Pipelines as the renderer keeps track of them.
//!
//! A component does not name a compiled pipeline: it carries a key, and the
//! concrete pipeline is found once the frame's render target and the mesh's
//! vertex layout are known. A variant is compiled and registered the first time
//! a key is seen, and later frames reuse it. This module holds the bookkeeping:
//! which pipeline a variant was registered as, and which global bind groups a
//! registered pipeline binds.

use vstd::prelude::*;

use crate::collections::{
    layout_at, layout_count, no_layouts, push_layout, LayoutSlots, MAX_VERTEX_BUFFERS,
};
use crate::components::{GpuMesh, ResourceId};
use crate::mesh::{LayoutModel, VertexBufferLayoutDesc};
use core::marker::PhantomData;

verus! {

/// A concrete pipeline's position in a renderer's own pipeline list.
///
/// A lower value draws before a higher one.
#[derive(Clone, Copy, Debug, PartialEq, Eq, PartialOrd, Ord, Hash, Structural)]
pub struct PipelineId(u32);

impl View for PipelineId {
    type V = nat;

    closed spec fn view(&self) -> nat {
        self.0 as nat
    }
}

impl PipelineId {
    /// The id for the pipeline registered at `index`.
    pub fn new(index: u32) -> (id: Self)
        ensures
            id@ == index,
    {
        PipelineId(index)
    }

    /// The id as a `usize`, for indexing the renderer's pipeline list.
    pub fn as_usize(self) -> (index: usize)
        ensures
            index == self@,
    {
        self.0 as usize
    }

    /// The id as a number that orders draws.
    pub fn number(self) -> (number: u32)
        ensures
            number == self@,
    {
        self.0
    }

    /// Ids that stand for the same position are the same id.
    pub proof fn lemma_positions_distinct(a: PipelineId, b: PipelineId)
        requires
            a@ == b@,
        ensures
            a == b,
    {
    }
}

/// What a slot-by-slot vertex layout holds.
pub open spec fn layout_view(layout: Seq<(u32, VertexBufferLayoutDesc)>) -> Seq<
    (u32, LayoutModel),
> {
    layout.map_values(|entry: (u32, VertexBufferLayoutDesc)| (entry.0, entry.1@))
}

/// A copy of a slot-by-slot vertex layout.
pub fn copy_layout(layout: &LayoutSlots) -> (copy: LayoutSlots)
    ensures
        layout_view(crate::collections::layouts_of(copy)) == layout_view(
            crate::collections::layouts_of(*layout),
        ),
{
    let ghost target = layout_view(crate::collections::layouts_of(*layout));
    let mut copy = no_layouts();
    let count = layout_count(layout);
    let mut i: usize = 0;
    assert(layout_view(crate::collections::layouts_of(copy)) =~= target.take(0));
    while i < count
        invariant
            i <= count <= MAX_VERTEX_BUFFERS,
            count == crate::collections::layouts_of(*layout).len(),
            target == layout_view(crate::collections::layouts_of(*layout)),
            crate::collections::layouts_of(copy).len() == i,
            layout_view(crate::collections::layouts_of(copy)) == target.take(i as int),
        decreases count - i,
    {
        let ghost before = crate::collections::layouts_of(copy);
        let entry = layout_at(layout, i);
        push_layout(&mut copy, entry.0, entry.1.clone());
        i = i + 1;
        assert(layout_view(crate::collections::layouts_of(copy)) =~= layout_view(before).push(
            target[i - 1],
        ));
        assert(layout_view(crate::collections::layouts_of(copy)) =~= target.take(i as int));
    }
    assert(target.take(i as int) =~= target);
    copy
}

/// Everything that can change which concrete pipeline an entity needs beyond
/// the entity's own key: the frame's render target, the mesh's vertex layout,
/// and whether the mesh reads morph positions.
#[derive(Debug, PartialEq, Eq, Hash)]
pub struct DrawKey<S> {
    /// The frame's render target.
    pub surface: S,
    /// The mesh's vertex layout, slot by slot.
    pub vertex_buffers: LayoutSlots,
    /// Whether the mesh reads morph positions. They are no vertex stream, so
    /// the layout does not tell.
    pub morphed: bool,
}

impl<S: Clone> Clone for DrawKey<S> {
    fn clone(&self) -> (key: Self)
        ensures
            cloned::<S>(self.surface, key.surface),
            key.layout() == self.layout(),
            key.morphed == self.morphed,
    {
        DrawKey {
            surface: self.surface.clone(),
            vertex_buffers: copy_layout(&self.vertex_buffers),
            morphed: self.morphed,
        }
    }
}

impl<S> DrawKey<S> {
    /// What the mesh's vertex layout holds, slot by slot.
    pub open spec fn layout(self) -> Seq<(u32, LayoutModel)> {
        layout_view(crate::collections::layouts_of(self.vertex_buffers))
    }

    /// The key for drawing a mesh into an attachment set with `surface`.
    pub fn for_mesh(surface: S, mesh: &GpuMesh) -> (key: Self)
        ensures
            key.surface == surface,
            key.layout() == mesh@.vertex_layout,
            key.morphed == (mesh@.morph_targets > 0),
    {
        DrawKey {
            surface,
            vertex_buffers: copy_layout(&mesh.vertex_layout),
            morphed: mesh.morph_targets > 0,
        }
    }
}

/// The key of a family that rewrites nothing: the entity's own key with the
/// draw it resolved to.
#[derive(Debug, PartialEq, Eq, Hash)]
pub struct FamilyKey<K, S> {
    /// The entity's pipeline key.
    pub key: K,
    /// The resolved draw.
    pub draw: DrawKey<S>,
}

impl<K: Clone, S: Clone> Clone for FamilyKey<K, S> {
    fn clone(&self) -> (family: Self)
        ensures
            cloned::<K>(self.key, family.key),
            cloned::<S>(self.draw.surface, family.draw.surface),
            family.draw.layout() == self.draw.layout(),
            family.draw.morphed == self.draw.morphed,
    {
        FamilyKey { key: self.key.clone(), draw: self.draw.clone() }
    }
}

impl<K, S> FamilyKey<K, S> {
    /// The key of `key` drawn as `draw`.
    pub fn of(key: K, draw: DrawKey<S>) -> (family: Self)
        ensures
            family.key == key,
            family.draw == draw,
    {
        FamilyKey { key, draw }
    }
}

/// A specializer that rewrites nothing: every key compiles the descriptor the
/// entity's own key reported.
#[derive(Debug)]
pub struct TrivialSpecializer<K>(PhantomData<K>);

impl<K> Default for TrivialSpecializer<K> {
    fn default() -> (specializer: Self) {
        TrivialSpecializer(PhantomData)
    }
}

impl<K> Clone for TrivialSpecializer<K> {
    fn clone(&self) -> (specializer: Self)
        ensures
            specializer == *self,
    {
        TrivialSpecializer(PhantomData)
    }
}

impl<K> Copy for TrivialSpecializer<K> {

}

impl<K> TrivialSpecializer<K> {
    /// The key a variant is cached under, with the descriptor left as it is:
    /// distinct keys are distinct variants.
    pub fn specialize<S, D>(&self, key: FamilyKey<K, S>, descriptor: &mut D) -> (canonical:
        FamilyKey<K, S>)
        ensures
            canonical == key,
            *final(descriptor) == *old(descriptor),
    {
        key
    }
}

/// A pipeline and the layouts its draws agree with: what a factory returns and
/// what the renderer registers.
#[derive(Debug)]
pub struct PipelineDesc<P, G, L> {
    /// The compiled render pipeline.
    pub pipeline: P,
    /// The global bind group, for a pipeline that binds one.
    pub global: Option<G>,
    /// The layout a material bind group must be built from, if any.
    pub material_layout: Option<L>,
    /// The layout a mesh bind group must be built from, if any.
    pub mesh_layout: Option<L>,
}

/// A factory for a pipeline that binds nothing beyond its vertex buffers: it
/// registers the compiled pipeline with no global, material or mesh group.
#[derive(Clone, Copy, Debug)]
pub struct RenderPipelineFactory;

impl Default for RenderPipelineFactory {
    fn default() -> (factory: Self)
        ensures
            factory == RenderPipelineFactory,
    {
        RenderPipelineFactory
    }
}

impl RenderPipelineFactory {
    /// The description of `pipeline`, as the renderer should register it.
    pub fn descriptor<P, G, L>(&self, pipeline: P) -> (desc: PipelineDesc<P, G, L>)
        ensures
            desc.pipeline == pipeline,
            desc.global is None,
            desc.material_layout is None,
            desc.mesh_layout is None,
    {
        PipelineDesc { pipeline, global: None, material_layout: None, mesh_layout: None }
    }
}

/// Every concrete pipeline registered with a source, in registration order,
/// with the graph node of the global bind group it binds, if it binds one.
#[derive(Debug)]
pub struct RegisteredPipelines {
    globals: Vec<Option<ResourceId>>,
}

impl View for RegisteredPipelines {
    type V = Seq<Option<ResourceId>>;

    closed spec fn view(&self) -> Seq<Option<ResourceId>> {
        self.globals@
    }
}

/// The global groups of `globals` that `dirty` marks, in registration order.
pub open spec fn dirty_groups(globals: Seq<Option<ResourceId>>, dirty: Seq<bool>) -> Seq<
    ResourceId,
>
    decreases globals.len(),
{
    if globals.len() == 0 {
        Seq::empty()
    } else {
        let rest = dirty_groups(globals.drop_last(), dirty);
        match globals.last() {
            Some(id) if dirty[globals.len() - 1] => rest.push(id),
            _ => rest,
        }
    }
}

impl RegisteredPipelines {
    /// No pipelines: they arrive only through registration.
    pub fn new() -> (pipelines: Self)
        ensures
            pipelines@ == Seq::<Option<ResourceId>>::empty(),
    {
        RegisteredPipelines { globals: Vec::new() }
    }

    /// How many pipelines are registered.
    pub fn len(&self) -> (len: usize)
        ensures
            len == self@.len(),
    {
        self.globals.len()
    }

    /// Register one concrete pipeline, whose global bind group is `global`, and
    /// return its position in the list.
    pub fn register_concrete(&mut self, global: Option<ResourceId>) -> (id: PipelineId)
        requires
            old(self)@.len() < u32::MAX,
        ensures
            final(self)@ == old(self)@.push(global),
            id@ == old(self)@.len(),
    {
        let id = PipelineId::new(self.globals.len() as u32);
        self.globals.push(global);
        id
    }

    /// The global bind group of a registered pipeline.
    pub fn global(&self, id: PipelineId) -> (global: Option<ResourceId>)
        requires
            id@ < self@.len(),
        ensures
            global == self@[id@ as int],
    {
        self.globals[id.as_usize()]
    }

    /// The global bind groups to rebuild: those of the pipelines that bind one
    /// and whose entry in `dirty` is set, in registration order.
    pub fn dirty_global_groups(&self, dirty: &Vec<bool>) -> (rebuild: Vec<ResourceId>)
        requires
            dirty@.len() == self@.len(),
        ensures
            rebuild@ == dirty_groups(self@, dirty@),
    {
        let mut rebuild: Vec<ResourceId> = Vec::new();
        let mut i: usize = 0;
        assert(self.globals@.take(0) =~= Seq::empty());
        while i < self.globals.len()
            invariant
                i <= self.globals.len(),
                dirty@.len() == self.globals@.len(),
                rebuild@ == dirty_groups(self.globals@.take(i as int), dirty@),
            decreases self.globals.len() - i,
        {
            proof {
                let next = self.globals@.take(i + 1);
                assert(next.drop_last() =~= self.globals@.take(i as int));
                assert(next.last() == self.globals@[i as int]);
            }
            if let Some(id) = self.globals[i] {
                if dirty[i] {
                    rebuild.push(id);
                }
            }
            i = i + 1;
        }
        assert(self.globals@.take(i as int) =~= self.globals@);
        rebuild
    }
}

/// A family's variants, as the renderer registered them: the pipeline at `v` is
/// the one compiled for the family's variant `v`.
///
/// The variant cache and this list grow in lockstep, so a variant is either
/// known here or the very next one.
#[derive(Debug)]
pub struct FamilyVariants {
    registered: Vec<PipelineId>,
}

impl View for FamilyVariants {
    type V = Seq<PipelineId>;

    closed spec fn view(&self) -> Seq<PipelineId> {
        self.registered@
    }
}

impl FamilyVariants {
    /// A family with no variants yet: registering a family compiles nothing.
    pub fn new() -> (variants: Self)
        ensures
            variants@ == Seq::<PipelineId>::empty(),
    {
        FamilyVariants { registered: Vec::new() }
    }

    /// The pipeline of variant `ordinal`, or `None` when it has to be compiled
    /// and registered first.
    pub fn get(&self, ordinal: u32) -> (id: Option<PipelineId>)
        ensures
            id == if ordinal < self@.len() {
                Some(self@[ordinal as int])
            } else {
                None
            },
    {
        if (ordinal as usize) < self.registered.len() {
            Some(self.registered[ordinal as usize])
        } else {
            None
        }
    }

    /// Resolve variant `ordinal`: the pipeline it was registered as, or, on
    /// first sight, the one it is registered as now in `pipelines`, with
    /// `global` for its global bind group.
    pub fn resolve(
        &mut self,
        ordinal: u32,
        pipelines: &mut RegisteredPipelines,
        global: Option<ResourceId>,
    ) -> (id: PipelineId)
        requires
            old(pipelines)@.len() < u32::MAX,
        ensures
            ordinal < old(self)@.len() ==> {
                &&& final(self)@ == old(self)@
                &&& final(pipelines)@ == old(pipelines)@
                &&& id == old(self)@[ordinal as int]
            },
            ordinal >= old(self)@.len() ==> {
                &&& final(self)@ == old(self)@.push(id)
                &&& final(pipelines)@ == old(pipelines)@.push(global)
                &&& id@ == old(pipelines)@.len()
            },
            family_model(final(self)@, final(pipelines)@.len()) == family_model(
                old(self)@,
                old(pipelines)@.len(),
            ).resolved(ordinal as nat),
            id@ == family_model(old(self)@, old(pipelines)@.len()).pipeline_of(ordinal as nat),
    {
        let ghost family = family_model(self@, pipelines@.len());
        match self.get(ordinal) {
            Some(id) => id,
            None => {
                let id = pipelines.register_concrete(global);
                self.registered.push(id);
                assert(family_model(self@, pipelines@.len()) =~= family.resolved(ordinal as nat));
                id
            },
        }
    }
}

/// A family's variants among the pipelines of a source, by their positions.
#[verifier::ext_equal]
pub struct FamilyModel {
    /// The position of each variant's pipeline, by the variant's number.
    pub registered: Seq<nat>,
    /// How many pipelines the source has, whichever family registered them.
    pub count: nat,
}

/// The family that registered `variants` with a source of `count` pipelines.
pub open spec fn family_model(variants: Seq<PipelineId>, count: nat) -> FamilyModel {
    FamilyModel { registered: variants.map_values(|id: PipelineId| id@), count }
}

impl FamilyModel {
    /// Whether every variant has a pipeline of the source, and no two variants
    /// share one.
    pub open spec fn wf(self) -> bool {
        &&& forall|i: int|
            0 <= i < self.registered.len() ==> (#[trigger] self.registered[i]) < self.count
        &&& forall|i: int, j: int|
            #![trigger self.registered[i], self.registered[j]]
            0 <= i < j < self.registered.len() ==> self.registered[i] != self.registered[j]
    }

    /// The family once variant `ordinal` is resolved: registered last, on first
    /// sight, and otherwise as it was.
    pub open spec fn resolved(self, ordinal: nat) -> FamilyModel {
        if ordinal < self.registered.len() {
            self
        } else {
            FamilyModel { registered: self.registered.push(self.count), count: self.count + 1 }
        }
    }

    /// The position of the pipeline that variant `ordinal` resolves to.
    pub open spec fn pipeline_of(self, ordinal: nat) -> nat {
        if ordinal < self.registered.len() {
            self.registered[ordinal as int]
        } else {
            self.count
        }
    }

    /// The family once other families registered `more` pipelines.
    pub open spec fn beside(self, more: nat) -> FamilyModel {
        FamilyModel { count: self.count + more, ..self }
    }

    /// The family once each of `draws` is resolved, first to last: how many
    /// pipelines others registered before it, and its variant.
    pub open spec fn resolved_all(self, draws: Seq<(nat, nat)>) -> FamilyModel
        decreases draws.len(),
    {
        if draws.len() == 0 {
            self
        } else {
            let draw = draws.last();
            self.resolved_all(draws.drop_last()).beside(draw.0).resolved(draw.1)
        }
    }
}

/// Whether each draw asks for a variant the family knows or for the next one,
/// as a cache that numbers its variants in turn makes it.
pub open spec fn in_turn(family: FamilyModel, draws: Seq<(nat, nat)>) -> bool {
    forall|k: int|
        #![trigger draws[k]]
        0 <= k < draws.len() ==> draws[k].1 <= family.resolved_all(draws.take(k)).registered.len()
}

/// Resolving draws keeps what holds of a family and every pipeline it has.
proof fn lemma_resolved_all(family: FamilyModel, draws: Seq<(nat, nat)>, k: int)
    requires
        family.wf(),
        0 <= k <= draws.len(),
    ensures
        family.resolved_all(draws).wf(),
        family.resolved_all(draws.take(k)).registered.is_prefix_of(
            family.resolved_all(draws).registered,
        ),
    decreases draws.len(),
{
    if k == draws.len() {
        assert(draws.take(k) =~= draws);
    }
    if draws.len() > 0 {
        let rest = draws.drop_last();
        if k < draws.len() {
            lemma_resolved_all(family, rest, k);
            assert(rest.take(k) =~= draws.take(k));
        } else {
            lemma_resolved_all(family, rest, 0);
        }
    }
}

/// What a draw resolved to is what its variant has ever after.
proof fn lemma_resolves_for_good(family: FamilyModel, draws: Seq<(nat, nat)>, k: int)
    requires
        family.wf(),
        in_turn(family, draws),
        0 <= k < draws.len(),
    ensures
        ({
            let last = family.resolved_all(draws).registered;
            let before = family.resolved_all(draws.take(k)).beside(draws[k].0);
            draws[k].1 < last.len() && before.pipeline_of(draws[k].1) == last[draws[k].1 as int]
        }),
{
    let next = draws.take(k + 1);
    assert(next.drop_last() =~= draws.take(k));
    assert(next.last() == draws[k]);
    lemma_resolved_all(family, draws, k + 1);
    let after = family.resolved_all(next).registered;
    let last = family.resolved_all(draws).registered;
    assert(draws[k].1 < after.len());
    assert(after[draws[k].1 as int] == last[draws[k].1 as int]);
}

/// Two draws of a family, in one frame or in different ones, get the same
/// pipeline exactly when they are of the same variant, whatever other families
/// registered in between.
pub proof fn law_variants_share_no_pipeline(
    family: FamilyModel,
    draws: Seq<(nat, nat)>,
    a: int,
    b: int,
)
    requires
        family.wf(),
        in_turn(family, draws),
        0 <= a < draws.len(),
        0 <= b < draws.len(),
    ensures
        family.resolved_all(draws).wf(),
        ({
            let at_a = family.resolved_all(draws.take(a)).beside(draws[a].0);
            let at_b = family.resolved_all(draws.take(b)).beside(draws[b].0);
            at_a.pipeline_of(draws[a].1) == at_b.pipeline_of(draws[b].1) <==> draws[a].1
                == draws[b].1
        }),
{
    lemma_resolved_all(family, draws, 0);
    lemma_resolves_for_good(family, draws, a);
    lemma_resolves_for_good(family, draws, b);
    let last = family.resolved_all(draws).registered;
    let (i, j) = (draws[a].1 as int, draws[b].1 as int);
    if i < j {
        assert(last[i] != last[j]);
    } else if j < i {
        assert(last[j] != last[i]);
    }
}

/// A variant is registered once: a draw registers a pipeline exactly when no
/// draw before it was of its variant, nor was the variant known from the start.
pub proof fn law_a_variant_is_registered_once(
    family: FamilyModel,
    draws: Seq<(nat, nat)>,
    k: int,
)
    requires
        family.wf(),
        in_turn(family, draws),
        0 <= k < draws.len(),
    ensures
        ({
            let before = family.resolved_all(draws.take(k)).beside(draws[k].0);
            let after = before.resolved(draws[k].1);
            let seen = draws[k].1 < family.registered.len() || exists|e: int|
                0 <= e < k && (#[trigger] draws[e]).1 == draws[k].1;
            &&& seen ==> after == before
            &&& !seen ==> after == (FamilyModel {
                registered: before.registered.push(before.count),
                count: before.count + 1,
            })
        }),
{
    let head = draws.take(k);
    let known = family.resolved_all(head).registered;
    let variant = draws[k].1;
    lemma_resolved_all(family, head, 0);
    assert(head.take(0) =~= Seq::empty());
    assert forall|e: int| 0 <= e < k implies (#[trigger] head[e]).1 <= family.resolved_all(
        head.take(e),
    ).registered.len() by {
        assert(head[e] == draws[e]);
        assert(head.take(e) =~= draws.take(e));
    }
    if exists|e: int| 0 <= e < k && (#[trigger] draws[e]).1 == variant {
        let e = choose|e: int| 0 <= e < k && (#[trigger] draws[e]).1 == variant;
        lemma_resolves_for_good(family, head, e);
        assert(head[e] == draws[e]);
    } else if variant >= family.registered.len() {
        lemma_unseen_is_unknown(family, head, variant);
    }
}

/// A variant no draw asked for is not known.
proof fn lemma_unseen_is_unknown(family: FamilyModel, draws: Seq<(nat, nat)>, variant: nat)
    requires
        in_turn(family, draws),
        variant >= family.registered.len(),
        forall|e: int| 0 <= e < draws.len() ==> (#[trigger] draws[e]).1 != variant,
    ensures
        family.resolved_all(draws).registered.len() <= variant,
    decreases draws.len(),
{
    if draws.len() > 0 {
        let rest = draws.drop_last();
        assert forall|e: int| 0 <= e < rest.len() implies (#[trigger] rest[e]).1
            <= family.resolved_all(rest.take(e)).registered.len() && rest[e].1 != variant by {
            assert(rest[e] == draws[e]);
            assert(rest.take(e) =~= draws.take(e));
        }
        lemma_unseen_is_unknown(family, rest, variant);
        let last = draws[draws.len() - 1];
        assert(draws.take(draws.len() - 1) =~= rest);
        assert(last.1 != variant);
    }
}

/// The distinct keys among `keys`, in the order they were first asked for: what
/// a cache that numbers its variants in turn has seen.
pub open spec fn keys_seen<K>(keys: Seq<K>) -> Seq<K>
    decreases keys.len(),
{
    if keys.len() == 0 {
        Seq::empty()
    } else {
        let seen = keys_seen(keys.drop_last());
        if seen.contains(keys.last()) {
            seen
        } else {
            seen.push(keys.last())
        }
    }
}

/// The draws of a family whose variants a cache numbers in turn: for each key,
/// how many pipelines other families registered before it, and its variant,
/// which is the key's place among the distinct keys.
pub open spec fn draws_of<K>(keys: Seq<K>, others: Seq<nat>) -> Seq<(nat, nat)> {
    Seq::new(
        keys.len(),
        |k: int| (others[k], keys_seen(keys).index_of(keys[k]) as nat),
    )
}

/// What was seen stays where it was, every key asked for was seen, and nothing
/// was seen twice.
proof fn lemma_keys_seen<K>(keys: Seq<K>, k: int)
    requires
        0 <= k <= keys.len(),
    ensures
        keys_seen(keys.take(k)).is_prefix_of(keys_seen(keys)),
        keys_seen(keys).no_duplicates(),
        forall|i: int| 0 <= i < keys.len() ==> keys_seen(keys).contains(#[trigger] keys[i]),
    decreases keys.len(),
{
    if k == keys.len() {
        assert(keys.take(k) =~= keys);
    }
    if keys.len() > 0 {
        let rest = keys.drop_last();
        let seen = keys_seen(rest);
        let all = keys_seen(keys);
        if k < keys.len() {
            lemma_keys_seen(rest, k);
            assert(rest.take(k) =~= keys.take(k));
        } else {
            lemma_keys_seen(rest, 0);
        }
        if !seen.contains(keys.last()) {
            assert(all[all.len() - 1] == keys.last());
        }
        assert forall|i: int| 0 <= i < keys.len() implies all.contains(#[trigger] keys[i]) by {
            if i < rest.len() {
                assert(rest[i] == keys[i]);
                let j = choose|j: int| 0 <= j < seen.len() && seen[j] == keys[i];
                assert(all[j] == keys[i]);
            }
        }
    }
}

/// A key's place among the distinct keys, once it was asked for.
proof fn lemma_place_of<K>(keys: Seq<K>, k: int)
    requires
        0 <= k < keys.len(),
    ensures
        ({
            let before = keys_seen(keys.take(k));
            let place = keys_seen(keys).index_of(keys[k]);
            &&& 0 <= place < keys_seen(keys).len()
            &&& keys_seen(keys)[place] == keys[k]
            &&& place <= before.len()
            &&& keys_seen(keys.take(k + 1)).len() == if place < before.len() {
                before.len()
            } else {
                before.len() + 1
            }
        }),
{
    let before = keys_seen(keys.take(k));
    let next = keys.take(k + 1);
    let all = keys_seen(keys);
    let place = all.index_of(keys[k]);
    lemma_keys_seen(keys, k);
    lemma_keys_seen(keys, k + 1);
    assert(next.drop_last() =~= keys.take(k));
    assert(next.last() == keys[k]);
    assert(all.contains(keys[k]));
    assert(0 <= place < all.len() && all[place] == keys[k]);
    let at = if before.contains(keys[k]) {
        choose|j: int| 0 <= j < before.len() && before[j] == keys[k]
    } else {
        before.len() as int
    };
    assert(keys_seen(next)[at] == keys[k]);
    assert(all[at] == keys[k]);
}

/// A new family knows exactly the distinct keys it was asked for.
proof fn lemma_family_knows_what_was_seen<K>(
    keys: Seq<K>,
    others: Seq<nat>,
    count: nat,
    k: int,
)
    requires
        others.len() == keys.len(),
        0 <= k <= keys.len(),
    ensures
        ({
            let family = FamilyModel { registered: Seq::empty(), count };
            family.resolved_all(draws_of(keys, others).take(k)).registered.len() == keys_seen(
                keys.take(k),
            ).len()
        }),
    decreases k,
{
    let draws = draws_of(keys, others);
    if k > 0 {
        lemma_family_knows_what_was_seen(keys, others, count, k - 1);
        lemma_place_of(keys, k - 1);
        assert(draws.take(k).drop_last() =~= draws.take(k - 1));
        assert(draws.take(k).last() == draws[k - 1]);
    } else {
        assert(draws.take(0) =~= Seq::empty());
        assert(keys.take(0) =~= Seq::empty());
    }
}

/// One pipeline per key, from a family's first draw on: two draws get the same
/// pipeline exactly when their keys are the same, and a draw registers one
/// exactly when its key was never asked for before. So a steady scene registers
/// nothing, and a key that differs in any way never shares a pipeline.
pub proof fn law_one_pipeline_per_key<K>(
    keys: Seq<K>,
    others: Seq<nat>,
    count: nat,
    a: int,
    b: int,
)
    requires
        others.len() == keys.len(),
        0 <= a < keys.len(),
        0 <= b < keys.len(),
    ensures
        ({
            let family = FamilyModel { registered: Seq::empty(), count };
            let draws = draws_of(keys, others);
            let at_a = family.resolved_all(draws.take(a)).beside(draws[a].0);
            let at_b = family.resolved_all(draws.take(b)).beside(draws[b].0);
            &&& at_a.pipeline_of(draws[a].1) == at_b.pipeline_of(draws[b].1) <==> keys[a]
                == keys[b]
            &&& at_a.resolved(draws[a].1).count == at_a.count <==> exists|e: int|
                0 <= e < a && #[trigger] keys[e] == keys[a]
        }),
{
    let family = FamilyModel { registered: Seq::empty(), count };
    let draws = draws_of(keys, others);
    assert forall|k: int|
        #![trigger draws[k]]
        0 <= k < draws.len() implies draws[k].1 <= family.resolved_all(
        draws.take(k),
    ).registered.len() by {
        lemma_family_knows_what_was_seen(keys, others, count, k);
        lemma_place_of(keys, k);
    }
    law_variants_share_no_pipeline(family, draws, a, b);
    law_a_variant_is_registered_once(family, draws, a);
    lemma_place_of(keys, a);
    lemma_place_of(keys, b);
    if exists|e: int| 0 <= e < a && #[trigger] keys[e] == keys[a] {
        let e = choose|e: int| 0 <= e < a && #[trigger] keys[e] == keys[a];
        assert(draws[e].1 == draws[a].1);
    } else {
        assert forall|e: int| 0 <= e < a implies (#[trigger] draws[e]).1 != draws[a].1 by {
            lemma_place_of(keys, e);
            assert(keys[e] != keys[a]);
        }
    }
}

/// Pipelines are numbered in the order they are registered: a pipeline
/// registered later has the higher number, and no two share one.
pub proof fn law_registration_order_is_draw_order(
    before: Seq<Option<ResourceId>>,
    first: PipelineId,
    first_global: Option<ResourceId>,
    second: PipelineId,
)
    requires
        first@ == before.len(),
        second@ == before.push(first_global).len(),
    ensures
        first@ < second@,
        first != second,
{
}

/// The flags a mesh's vertex layout implies, from every slot it declares.
pub open spec fn implied_flags(slots: Seq<u32>) -> u32
    decreases slots.len(),
{
    if slots.len() == 0 {
        0
    } else {
        implied_flags(slots.drop_last()) | slots.last()
    }
}

/// The flags a mesh's vertex layout implies, given the flags each slot it
/// declares implies.
pub fn unlit_flags_for_layout(slots: &Vec<u32>) -> (flags: u32)
    ensures
        flags == implied_flags(slots@),
{
    let mut flags: u32 = 0;
    let mut i: usize = 0;
    assert(slots@.take(0) =~= Seq::empty());
    while i < slots.len()
        invariant
            i <= slots.len(),
            flags == implied_flags(slots@.take(i as int)),
        decreases slots.len() - i,
    {
        proof {
            let next = slots@.take(i + 1);
            assert(next.drop_last() =~= slots@.take(i as int));
            assert(next.last() == slots@[i as int]);
        }
        flags = flags | slots[i];
        i = i + 1;
    }
    assert(slots@.take(i as int) =~= slots@);
    flags
}

/// The flags a mesh implies: those its vertex layout implies, from every slot
/// it declares, and with them `morph`, where the mesh reads morph positions.
pub open spec fn mesh_flags(slots: Seq<u32>, morph: Option<u32>) -> u32 {
    implied_flags(slots) | match morph {
        Some(flag) => flag,
        None => 0,
    }
}

/// The flags a variant is specialized to, given the bits a mesh decides.
pub open spec fn variant_flags(
    own: u32,
    mesh_mask: u32,
    slots: Seq<u32>,
    morph: Option<u32>,
) -> u32 {
    (own & !mesh_mask) | mesh_flags(slots, morph)
}

/// The flags a variant is specialized to: the entity's own, with the bits a
/// mesh decides replaced by what the mesh implies. `morph` is the flag that
/// says morph positions are read, for a draw whose key says they are, and
/// `None` for any other.
pub fn specialized_flags(
    own: u32,
    mesh_mask: u32,
    slots: &Vec<u32>,
    morph: Option<u32>,
) -> (flags: u32)
    ensures
        flags == variant_flags(own, mesh_mask, slots@, morph),
        flags == (own & !mesh_mask) | mesh_flags(slots@, morph),
{
    let morph: u32 = match morph {
        Some(flag) => flag,
        None => 0,
    };
    (own & !mesh_mask) | (unlit_flags_for_layout(slots) | morph)
}

/// A layout whose every slot implies only mesh bits implies only mesh bits.
proof fn lemma_implied_within(slots: Seq<u32>, mesh_mask: u32)
    requires
        forall|i: int| 0 <= i < slots.len() ==> (#[trigger] slots[i]) & !mesh_mask == 0,
    ensures
        implied_flags(slots) & !mesh_mask == 0,
    decreases slots.len(),
{
    if slots.len() == 0 {
        assert(0u32 & !mesh_mask == 0) by (bit_vector);
    } else {
        let rest = slots.drop_last();
        assert forall|i: int| 0 <= i < rest.len() implies (#[trigger] rest[i]) & !mesh_mask
            == 0 by {
            assert(rest[i] == slots[i]);
        }
        lemma_implied_within(rest, mesh_mask);
        let a = implied_flags(rest);
        let b = slots.last();
        assert(slots[slots.len() - 1] & !mesh_mask == 0);
        assert((a | b) & !mesh_mask == 0) by (bit_vector)
            requires
                a & !mesh_mask == 0,
                b & !mesh_mask == 0,
        ;
    }
}

/// Specializing replaces the bits a mesh decides and keeps every other: the
/// mesh bits of the result are what the mesh implies, and the rest are the
/// entity's own.
pub proof fn law_specializing_replaces_only_mesh_flags(
    own: u32,
    mesh_mask: u32,
    slots: Seq<u32>,
    morph: Option<u32>,
)
    requires
        forall|i: int| 0 <= i < slots.len() ==> (#[trigger] slots[i]) & !mesh_mask == 0,
        morph matches Some(flag) ==> flag & !mesh_mask == 0,
    ensures
        ((own & !mesh_mask) | mesh_flags(slots, morph)) & mesh_mask == mesh_flags(slots, morph),
        ((own & !mesh_mask) | mesh_flags(slots, morph)) & !mesh_mask == own & !mesh_mask,
{
    lemma_implied_within(slots, mesh_mask);
    let layout = implied_flags(slots);
    let morph = match morph {
        Some(flag) => flag,
        None => 0,
    };
    assert(0u32 & !mesh_mask == 0) by (bit_vector);
    let implied = layout | morph;
    assert(implied & !mesh_mask == 0) by (bit_vector)
        requires
            implied == layout | morph,
            layout & !mesh_mask == 0,
            morph & !mesh_mask == 0,
    ;
    assert(((own & !mesh_mask) | implied) & mesh_mask == implied && ((own & !mesh_mask) | implied)
        & !mesh_mask == own & !mesh_mask) by (bit_vector)
        requires
            implied & !mesh_mask == 0,
    ;
}

/// A mesh's own channels decide its variant: whatever mesh bits two entities'
/// keys carried, draws of meshes that imply the same flags, for keys that agree
/// on everything else, specialize to the same flags.
pub proof fn law_meshes_that_imply_the_same_flags_share_a_variant(
    a: u32,
    b: u32,
    mesh_mask: u32,
    a_slots: Seq<u32>,
    a_morph: Option<u32>,
    b_slots: Seq<u32>,
    b_morph: Option<u32>,
)
    requires
        a & !mesh_mask == b & !mesh_mask,
        mesh_flags(a_slots, a_morph) == mesh_flags(b_slots, b_morph),
    ensures
        (a & !mesh_mask) | mesh_flags(a_slots, a_morph) == (b & !mesh_mask) | mesh_flags(
            b_slots,
            b_morph,
        ),
{
}

/// The groups that are rebuilt are those of the pipelines that bind one and
/// whose buffers changed: every one of them, and no other.
pub proof fn law_dirty_groups_are_rebuilt(
    globals: Seq<Option<ResourceId>>,
    dirty: Seq<bool>,
    id: ResourceId,
)
    requires
        dirty.len() >= globals.len(),
    ensures
        dirty_groups(globals, dirty).contains(id) <==> exists|i: int|
            0 <= i < globals.len() && (#[trigger] globals[i]) == Some(id) && dirty[i],
    decreases globals.len(),
{
    if globals.len() > 0 {
        let rest = globals.drop_last();
        let last = globals.len() - 1;
        let before = dirty_groups(rest, dirty);
        let all = dirty_groups(globals, dirty);
        law_dirty_groups_are_rebuilt(rest, dirty, id);
        if all.contains(id) {
            let k = choose|k: int| 0 <= k < all.len() && all[k] == id;
            if k < before.len() {
                assert(before[k] == id);
                let i = choose|i: int|
                    0 <= i < rest.len() && (#[trigger] rest[i]) == Some(id) && dirty[i];
                assert(globals[i] == Some(id));
            } else {
                assert(globals[last] == Some(id));
            }
        }
        if exists|i: int| 0 <= i < globals.len() && (#[trigger] globals[i]) == Some(id) && dirty[i] {
            let i = choose|i: int|
                0 <= i < globals.len() && (#[trigger] globals[i]) == Some(id) && dirty[i];
            if i < last {
                assert(rest[i] == Some(id));
                let k = choose|k: int| 0 <= k < before.len() && before[k] == id;
                assert(all[k] == id);
            } else {
                assert(all[all.len() - 1] == id);
            }
        }
    }
}

/// One more pipeline adds its own group at the end where it has one that
/// changed, and leaves the rest as they were.
pub proof fn law_groups_are_rebuilt_in_registration_order(
    globals: Seq<Option<ResourceId>>,
    dirty: Seq<bool>,
    global: Option<ResourceId>,
    changed: bool,
)
    requires
        dirty.len() == globals.len(),
    ensures
        dirty_groups(globals.push(global), dirty.push(changed)) == if global is Some && changed {
            dirty_groups(globals, dirty).push(global->0)
        } else {
            dirty_groups(globals, dirty)
        },
{
    assert(globals.push(global).drop_last() =~= globals);
    lemma_later_marks(globals, dirty, dirty.push(changed));
}

/// Only the marks of the pipelines themselves are read.
proof fn lemma_later_marks(
    globals: Seq<Option<ResourceId>>,
    dirty: Seq<bool>,
    longer: Seq<bool>,
)
    requires
        globals.len() <= dirty.len(),
        dirty.is_prefix_of(longer),
    ensures
        dirty_groups(globals, longer) == dirty_groups(globals, dirty),
    decreases globals.len(),
{
    if globals.len() > 0 {
        lemma_later_marks(globals.drop_last(), dirty, longer);
        assert(longer[globals.len() - 1] == dirty[globals.len() - 1]);
    }
}

/// A flag is implied exactly when some slot of the layout implies it.
pub proof fn law_a_flag_is_implied_by_some_slot(slots: Seq<u32>, bit: u32)
    requires
        bit < 32,
    ensures
        implied_flags(slots) & (1u32 << bit) != 0 <==> exists|i: int|
            0 <= i < slots.len() && (#[trigger] slots[i]) & (1u32 << bit) != 0,
    decreases slots.len(),
{
    let flag = 1u32 << bit;
    if slots.len() == 0 {
        assert(0u32 & flag == 0) by (bit_vector);
    } else {
        let rest = slots.drop_last();
        let last = slots.last();
        let before = implied_flags(rest);
        law_a_flag_is_implied_by_some_slot(rest, bit);
        assert((before | last) & flag != 0 <==> before & flag != 0 || last & flag != 0)
            by (bit_vector);
        if before & flag != 0 {
            let i = choose|i: int| 0 <= i < rest.len() && (#[trigger] rest[i]) & flag != 0;
            assert(slots[i] & flag != 0);
        }
        if last & flag != 0 {
            assert(slots[slots.len() - 1] & flag != 0);
        }
        if exists|i: int| 0 <= i < slots.len() && (#[trigger] slots[i]) & flag != 0 {
            let i = choose|i: int| 0 <= i < slots.len() && (#[trigger] slots[i]) & flag != 0;
            if i < rest.len() {
                assert(rest[i] & flag != 0);
            }
        }
    }
}

/// Morph positions are read exactly where the mesh brings them: their flag is
/// set for a mesh that does, and a mesh that does not implies what its layout
/// implies.
pub proof fn law_morph_positions_are_implied_by_the_mesh(slots: Seq<u32>, flag: u32)
    ensures
        mesh_flags(slots, Some(flag)) & flag == flag,
        mesh_flags(slots, Some(flag)) & !flag == implied_flags(slots) & !flag,
        mesh_flags(slots, None) == implied_flags(slots),
{
    let implied = implied_flags(slots);
    assert((implied | flag) & flag == flag) by (bit_vector);
    assert((implied | flag) & !flag == implied & !flag) by (bit_vector);
    assert(implied | 0u32 == implied) by (bit_vector);
}

/// A variant's flags, bit by bit: one the mesh decides is set exactly when the
/// mesh implies it, whatever the entity's key says, and any other exactly when
/// the key says so.
pub proof fn law_each_flag_has_one_source(
    own: u32,
    mesh_mask: u32,
    slots: Seq<u32>,
    morph: Option<u32>,
    bit: u32,
)
    requires
        forall|i: int| 0 <= i < slots.len() ==> (#[trigger] slots[i]) & !mesh_mask == 0,
        morph matches Some(flag) ==> flag & !mesh_mask == 0,
    ensures
        bit & !mesh_mask == 0 ==> variant_flags(own, mesh_mask, slots, morph) & bit == mesh_flags(
            slots,
            morph,
        ) & bit,
        bit & mesh_mask == 0 ==> variant_flags(own, mesh_mask, slots, morph) & bit == own & bit,
{
    law_specializing_replaces_only_mesh_flags(own, mesh_mask, slots, morph);
    let flags = variant_flags(own, mesh_mask, slots, morph);
    let implied = mesh_flags(slots, morph);
    if bit & !mesh_mask == 0 {
        assert(flags & bit == implied & bit) by (bit_vector)
            requires
                flags & mesh_mask == implied,
                bit & !mesh_mask == 0,
        ;
    }
    if bit & mesh_mask == 0 {
        assert(flags & bit == own & bit) by (bit_vector)
            requires
                flags & !mesh_mask == own & !mesh_mask,
                bit & mesh_mask == 0,
        ;
    }
}

/// Two variants of a family are drawn with different pipelines, whether or not
/// they were registered before, and resolving a variant does not change which
/// pipeline any registered one is drawn with.
pub proof fn law_each_variant_has_its_own_pipeline(family: FamilyModel, a: nat, b: nat)
    requires
        family.wf(),
        a < b <= family.registered.len(),
    ensures
        family.pipeline_of(a) != family.pipeline_of(b),
        family.resolved(b).pipeline_of(a) == family.pipeline_of(a),
        family.resolved(b).pipeline_of(b) == family.pipeline_of(b),
{
}

} // verus!
