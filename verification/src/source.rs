//! Frame sources: the things a frame is made of, and the order they record in.
//!
//! A frame is assembled out of [`FrameSource`]s, each of which states where in
//! the frame it belongs. [`record_order`] turns what they state into the order
//! they record in and names the groups of sources that left it open;
//! [`OrderWarnings`] decides when to speak up about those.

use vstd::prelude::*;
use vstd::std_specs::cmp::PartialEqSpec;

use crate::sort::{sorted, Ranked};

verus! {

/// Where a source records, relative to every other source.
///
/// Lower values record first. Deliberately has no `Default`: every source
/// states its ordering intent, and a silent default is exactly what an explicit
/// order exists to remove.
#[derive(Clone, Copy, Debug, PartialEq, Eq, PartialOrd, Ord, Structural)]
pub struct FrameOrder(pub i32);

impl FrameOrder {
    /// The built-in mesh source's order.
    #[verifier::allow_in_spec]
    pub fn mesh() -> FrameOrder
        returns
            FrameOrder(0),
    {
        FrameOrder(0)
    }

    /// A source that composes over the meshes, such as a UI overlay.
    #[verifier::allow_in_spec]
    pub fn overlay() -> FrameOrder
        returns
            FrameOrder(100),
    {
        FrameOrder(100)
    }
}

/// The GPU state a frame is drawn with, as world addresses.
#[derive(Clone, Copy, Debug, PartialEq, Eq)]
pub struct RenderContext<E> {
    /// The device the frame is drawn with, as a resource entity.
    pub device: E,
    /// The queue the frame is submitted to, as a resource entity.
    pub queue: E,
    /// The graph holding the frame's resources, as a resource entity.
    pub graph: E,
}

/// The render target the frame currently draws into.
///
/// `K` is the target's pipeline specialization key.
#[derive(Clone, Copy, Debug, PartialEq, Eq)]
pub struct FrameTarget<K> {
    /// The target's pipeline specialization key.
    pub surface: K,
    /// The target's width, in physical pixels.
    pub width: u32,
    /// The target's height, in physical pixels.
    pub height: u32,
}

/// The world resource holding the frame's current [`FrameTarget`].
#[derive(Clone, Copy, Debug)]
pub struct FrameTargetSlot<K>(Option<FrameTarget<K>>);

impl<K: Copy> View for FrameTargetSlot<K> {
    type V = Option<FrameTarget<K>>;

    closed spec fn view(&self) -> Option<FrameTarget<K>> {
        self.0
    }
}

impl<K: Copy> FrameTargetSlot<K> {
    /// A slot no frame loop has written yet.
    pub fn empty() -> (slot: Self)
        ensures
            slot@ is None,
    {
        FrameTargetSlot(None)
    }
}

/// The frame's target: what the world's slot holds, or `None` before any frame
/// loop wrote one.
///
/// A source that needs a target and reads `None` refuses to draw rather than
/// fall back to the previous frame's.
pub fn frame_target<K: Copy>(slot: Option<&FrameTargetSlot<K>>) -> (target: Option<FrameTarget<K>>)
    ensures
        target == match slot {
            Some(slot) => slot@,
            None => None,
        },
{
    match slot {
        Some(slot) => slot.0,
        None => None,
    }
}

/// State the target the frame draws into, in the world's slot.
///
/// Returns whether a slot existed to write.
pub fn set_frame_target<K: Copy>(
    slot: Option<&mut FrameTargetSlot<K>>,
    target: FrameTarget<K>,
) -> (written: bool)
    ensures
        written == slot is Some,
        slot matches Some(slot) ==> final(slot)@ == Some(target),
{
    match slot {
        Some(slot) => {
            slot.0 = Some(target);
            true
        },
        None => false,
    }
}

/// Forget the target the frame draws into, in the world's slot.
///
/// Returns whether a slot existed to write.
pub fn unset_frame_target<K: Copy>(slot: Option<&mut FrameTargetSlot<K>>) -> (written: bool)
    ensures
        written == slot is Some,
        slot matches Some(slot) ==> final(slot)@ is None,
{
    match slot {
        Some(slot) => {
            slot.0 = None;
            true
        },
        None => false,
    }
}

/// What a UI claimed of a frame's input, so that a game control can decide
/// whether to act on the same frame.
#[derive(Clone, Copy, Debug, PartialEq, Eq, Structural)]
pub struct InputCapture {
    /// The pointer is over the UI, or the UI is dragging with it.
    pub pointer: bool,
    /// The UI has the keyboard focus.
    pub keyboard: bool,
}

impl InputCapture {
    /// Whether the UI claimed anything.
    #[verifier::allow_in_spec]
    pub fn any(&self) -> bool
        returns
            self.pointer || self.keyboard,
    {
        self.pointer || self.keyboard
    }
}

impl Default for InputCapture {
    fn default() -> (capture: Self)
        ensures
            !capture.any(),
    {
        InputCapture { pointer: false, keyboard: false }
    }
}

/// A source of one frame's draws, as far as its place in the frame goes.
pub trait FrameSource: 'static {
    /// Where the source says it records.
    spec fn declared_order(&self) -> FrameOrder;

    /// Where this source records, relative to the others.
    ///
    /// Required, not defaulted: a source that stayed silent would be ordered
    /// by mount position alone. A [`Source`] may override this per entity with
    /// [`Source::with_order`].
    fn order(&self) -> (order: FrameOrder)
        ensures
            order == self.declared_order(),
    ;
}

/// A frame source of any type. Method-free on purpose: the supertrait supplies
/// the API, and every frame source is one.
pub trait AnySource: FrameSource {

}

impl<T: FrameSource> AnySource for T {

}

/// A frame source as a component.
pub struct Source<S> {
    source: S,
    order: Option<FrameOrder>,
    mount_index: u64,
}

impl<S: FrameSource> Source<S> {
    /// The wrapped source.
    pub closed spec fn inner(self) -> S {
        self.source
    }

    /// The order that overrides the source's own, if any.
    pub closed spec fn overriding(self) -> Option<FrameOrder> {
        self.order
    }

    /// When the source was mounted.
    pub closed spec fn mounted(self) -> u64 {
        self.mount_index
    }

    /// The order the source records at: the override, or else what the source
    /// declares.
    pub open spec fn effective_order(self) -> FrameOrder {
        match self.overriding() {
            Some(order) => order,
            None => self.inner().declared_order(),
        }
    }

    /// Wrap `source`, taking its order from [`FrameSource::order`].
    pub fn new(source: S) -> (wrapped: Self)
        ensures
            wrapped.inner() == source,
            wrapped.overriding() is None,
            wrapped.mounted() == 0,
    {
        Source { source, order: None, mount_index: 0 }
    }

    /// The source, recording at `order` regardless of what
    /// [`FrameSource::order`] says.
    pub fn with_order(self, order: FrameOrder) -> (wrapped: Self)
        ensures
            wrapped.inner() == self.inner(),
            wrapped.overriding() == Some(order),
            wrapped.mounted() == self.mounted(),
    {
        Source { source: self.source, order: Some(order), mount_index: self.mount_index }
    }

    /// The order this source records at, explicit or declared.
    pub fn order(&self) -> (order: FrameOrder)
        ensures
            order == self.effective_order(),
    {
        match self.order {
            Some(order) => order,
            None => self.source.order(),
        }
    }

    /// Override the order this source records at, or stop overriding it.
    pub fn set_order(&mut self, order: Option<FrameOrder>)
        ensures
            final(self).inner() == old(self).inner(),
            final(self).overriding() == order,
            final(self).mounted() == old(self).mounted(),
    {
        self.order = order;
    }

    /// When the source was mounted, which breaks ties between equal orders.
    pub fn mount_index(&self) -> (index: u64)
        ensures
            index == self.mounted(),
    {
        self.mount_index
    }

    /// The wrapped source.
    pub fn source(&self) -> (source: &S)
        ensures
            *source == self.inner(),
    {
        &self.source
    }

    /// The wrapped source, to change.
    pub fn source_mut(&mut self) -> (source: &mut S)
        ensures
            *source == old(self).inner(),
            final(self).inner() == *final(source),
            final(self).overriding() == old(self).overriding(),
            final(self).mounted() == old(self).mounted(),
    {
        &mut self.source
    }

    /// What the ordering reads of this source, sitting on `entity`.
    pub fn entry<E: Copy>(&self, entity: E) -> (entry: SourceEntry<E>)
        ensures
            entry == (SourceEntry {
                order: self.effective_order(),
                mount_index: self.mounted(),
                entity,
            }),
    {
        SourceEntry { order: self.order(), mount_index: self.mount_index, entity }
    }
}

/// The source, mounted at `index`.
fn bump_mount<S: FrameSource>(source: Source<S>, index: u64) -> (mounted: Source<S>)
    ensures
        mounted.inner() == source.inner(),
        mounted.overriding() == source.overriding(),
        mounted.mounted() == index,
{
    Source { source: source.source, order: source.order, mount_index: index }
}

/// The next mount index to hand out.
///
/// Kept as a resource so it is monotonic across the world's life: two renderers
/// sharing a world must not hand out the same indices, or the tie-break would
/// not be total.
#[derive(Debug)]
pub struct MountCounter(u64);

impl View for MountCounter {
    type V = u64;

    closed spec fn view(&self) -> u64 {
        self.0
    }
}

impl Default for MountCounter {
    fn default() -> (counter: Self)
        ensures
            counter@ == 0,
    {
        MountCounter(0)
    }
}

impl MountCounter {
    /// The index the next mount takes.
    pub fn next(&self) -> (index: u64)
        ensures
            index == self@,
    {
        self.0
    }
}

/// Take the next mount index from the world's counter.
///
/// Falls back to zero for a world without one: such a world has no render
/// context either, so no frame can be built from it.
pub fn next_mount_index(counter: Option<&mut MountCounter>) -> (index: u64)
    requires
        counter matches Some(counter) ==> counter@ < u64::MAX,
    ensures
        match counter {
            Some(counter) => index == counter@ && final(counter)@ == counter@ + 1,
            None => index == 0,
        },
{
    match counter {
        Some(counter) => {
            let index = counter.0;
            counter.0 = counter.0 + 1;
            index
        },
        None => 0,
    }
}

/// Whether `counter` are the values of a world's counter from one mount to the
/// next, each of them the index the mount took.
pub open spec fn mounts_in_turn(counter: Seq<u64>) -> bool {
    forall|i: int|
        #![trigger counter[i]]
        0 < i < counter.len() ==> counter[i] == counter[i - 1] + 1
}

/// No two mounts from one counter get the same index, and the later one gets
/// the higher, so the mount order is total.
pub proof fn law_mount_indices_never_repeat(counter: Seq<u64>, i: int, j: int)
    requires
        mounts_in_turn(counter),
        0 <= i < j < counter.len(),
    ensures
        counter[i] < counter[j],
    decreases j - i,
{
    assert(counter[j] == counter[j - 1] + 1);
    if i < j - 1 {
        law_mount_indices_never_repeat(counter, i, j - 1);
    }
}

/// The component that mounts `source`, taking its order from
/// [`FrameSource::order`].
pub fn spawn_source<S: FrameSource>(counter: Option<&mut MountCounter>, source: S) -> (mounted:
    Source<S>)
    requires
        counter matches Some(counter) ==> counter@ < u64::MAX,
    ensures
        mounted.inner() == source,
        mounted.overriding() is None,
        match counter {
            Some(counter) => mounted.mounted() == counter@ && final(counter)@ == counter@ + 1,
            None => mounted.mounted() == 0,
        },
{
    let index = next_mount_index(counter);
    bump_mount(Source::new(source), index)
}

/// The component that mounts `source`, recording it at `order`.
pub fn spawn_source_at<S: FrameSource>(
    counter: Option<&mut MountCounter>,
    order: FrameOrder,
    source: S,
) -> (mounted: Source<S>)
    requires
        counter matches Some(counter) ==> counter@ < u64::MAX,
    ensures
        mounted.inner() == source,
        mounted.overriding() == Some(order),
        match counter {
            Some(counter) => mounted.mounted() == counter@ && final(counter)@ == counter@ + 1,
            None => mounted.mounted() == 0,
        },
{
    let index = next_mount_index(counter);
    bump_mount(Source::new(source).with_order(order), index)
}

/// What the ordering reads of one mounted source.
#[derive(Clone, Copy, Debug, PartialEq, Eq)]
pub struct SourceEntry<E> {
    /// The order it records at.
    pub order: FrameOrder,
    /// When it was mounted.
    pub mount_index: u64,
    /// The entity it sits on.
    pub entity: E,
}

impl<E: Copy> Ranked for SourceEntry<E> {
    open spec fn rank(self) -> (int, int, int, int) {
        (self.order.0 as int, self.mount_index as int, 0, 0)
    }

    fn precedes(&self, other: &Self) -> (before: bool) {
        self.order.0 < other.order.0 || (self.order.0 == other.order.0 && self.mount_index
            < other.mount_index)
    }
}

/// One group of sources that declared the same [`FrameOrder`].
pub type AmbiguousGroup<E> = (FrameOrder, Vec<E>);

/// What a list of groups holds.
pub open spec fn groups_view<E>(groups: Seq<AmbiguousGroup<E>>) -> Seq<(FrameOrder, Seq<E>)> {
    groups.map_values(|group: AmbiguousGroup<E>| (group.0, group.1@))
}

/// The entities of `entries`, in order.
pub open spec fn entities_of<E: Copy>(entries: Seq<SourceEntry<E>>) -> Seq<E> {
    entries.map_values(|entry: SourceEntry<E>| entry.entity)
}

/// Where the run of equal orders that starts at `start` ends.
pub open spec fn run_end<E: Copy>(entries: Seq<SourceEntry<E>>, start: int, end: int) -> int
    decreases entries.len() - end,
{
    if end < entries.len() && entries[end].order == entries[start].order {
        run_end(entries, start, end + 1)
    } else {
        end
    }
}

/// The runs of more than one source with the same order, from index `start`
/// on: each as its order and its entities.
pub open spec fn ambiguous_runs<E: Copy>(entries: Seq<SourceEntry<E>>, start: int) -> Seq<
    (FrameOrder, Seq<E>),
>
    decreases entries.len() - start,
{
    if !(0 <= start < entries.len()) {
        Seq::empty()
    } else {
        proof {
            lemma_run_end(entries, start, start + 1);
        }
        let end = run_end(entries, start, start + 1);
        let rest = ambiguous_runs(entries, end);
        if end - start > 1 {
            seq![(entries[start].order, entities_of(entries.subrange(start, end)))] + rest
        } else {
            rest
        }
    }
}

/// A run ends where it is said to: all of it has one order, and what follows
/// does not.
pub proof fn lemma_run_end<E: Copy>(entries: Seq<SourceEntry<E>>, start: int, end: int)
    requires
        0 <= start < end <= entries.len(),
    ensures
        end <= run_end(entries, start, end) <= entries.len(),
        forall|i: int|
            end <= i < run_end(entries, start, end) ==> (#[trigger] entries[i]).order
                == entries[start].order,
        run_end(entries, start, end) < entries.len() ==> entries[run_end(
            entries,
            start,
            end,
        )].order != entries[start].order,
    decreases entries.len() - end,
{
    if end < entries.len() && entries[end].order == entries[start].order {
        lemma_run_end(entries, start, end + 1);
    }
}

/// A prefix of a run belongs to it.
proof fn lemma_run_end_step<E: Copy>(entries: Seq<SourceEntry<E>>, start: int, end: int)
    requires
        0 <= start < end <= entries.len(),
        forall|i: int|
            start <= i < end ==> (#[trigger] entries[i]).order == entries[start].order,
    ensures
        run_end(entries, start, start + 1) == run_end(entries, start, end),
    decreases end - start,
{
    if end > start + 1 {
        lemma_run_end_step(entries, start, end - 1);
        assert(entries[end - 1].order == entries[start].order);
    }
}

/// The sources to record, in the order they record, and the ambiguous groups
/// among them.
///
/// Sorted by order and then by mount index, so equal orders keep their mount
/// order. `sources` is what the world holds, in any order.
pub fn record_order<E: Copy>(sources: &Vec<SourceEntry<E>>) -> (recorded: (
    Vec<E>,
    Vec<AmbiguousGroup<E>>,
))
    ensures
        exists|entries: Seq<SourceEntry<E>>| #[trigger]
            crate::sort::is_sort_of(entries, sources@) && recorded.0@ == entities_of(entries)
                && groups_view(recorded.1@) == ambiguous_runs(entries, 0),
{
    let entries = sorted(sources);
    let mut ambiguous: Vec<AmbiguousGroup<E>> = Vec::new();
    let mut start: usize = 0;
    assert(groups_view(ambiguous@) + ambiguous_runs(entries@, 0) =~= ambiguous_runs(entries@, 0));
    while start < entries.len()
        invariant
            start <= entries.len(),
            groups_view(ambiguous@) + ambiguous_runs(entries@, start as int) == ambiguous_runs(
                entries@,
                0,
            ),
        decreases entries.len() - start,
    {
        let order = entries[start].order;
        let mut group: Vec<E> = Vec::new();
        group.push(entries[start].entity);
        let mut end: usize = start + 1;
        assert(group@ =~= entities_of(entries@.subrange(start as int, end as int)));
        while end < entries.len() && entries[end].order == order
            invariant
                start < end <= entries.len(),
                order == entries@[start as int].order,
                forall|i: int|
                    start <= i < end ==> (#[trigger] entries@[i]).order
                        == entries@[start as int].order,
                group@ == entities_of(entries@.subrange(start as int, end as int)),
            decreases entries.len() - end,
        {
            group.push(entries[end].entity);
            end = end + 1;
            assert(group@ =~= entities_of(entries@.subrange(start as int, end as int)));
        }
        proof {
            lemma_run_end_step(entries@, start as int, end as int);
        }
        let ghost before = groups_view(ambiguous@);
        if end - start > 1 {
            ambiguous.push((order, group));
            proof {
                let run = (order, group@);
                assert(groups_view(ambiguous@) =~= before.push(run));
                assert(before.push(run) + ambiguous_runs(entries@, end as int) =~= before + (
                seq![run] + ambiguous_runs(entries@, end as int)));
            }
        }
        start = end;
    }
    assert(groups_view(ambiguous@) + ambiguous_runs(entries@, start as int) =~= groups_view(
        ambiguous@,
    ));
    let mut order: Vec<E> = Vec::new();
    let mut i: usize = 0;
    while i < entries.len()
        invariant
            i <= entries.len(),
            order@ == entities_of(entries@.take(i as int)),
        decreases entries.len() - i,
    {
        order.push(entries[i].entity);
        i = i + 1;
        assert(order@ =~= entities_of(entries@.take(i as int)));
    }
    assert(entries@.take(i as int) =~= entries@);
    (order, ambiguous)
}

/// Whether `order` and `ambiguous` are what the sources `rows` resolve to.
pub open spec fn resolves<E: Copy>(
    rows: Seq<SourceEntry<E>>,
    order: Seq<E>,
    ambiguous: Seq<(FrameOrder, Seq<E>)>,
) -> bool {
    exists|entries: Seq<SourceEntry<E>>| #[trigger]
        crate::sort::is_sort_of(entries, rows) && order == entities_of(entries)
            && ambiguous == ambiguous_runs(entries, 0)
}

/// The frame's sources in record order, kept from frame to frame.
pub struct SourceOrder<E> {
    entities: Vec<E>,
    ambiguous: Vec<AmbiguousGroup<E>>,
}

impl<E: Copy> SourceOrder<E> {
    /// The sources in the order they record.
    pub closed spec fn order_view(self) -> Seq<E> {
        self.entities@
    }

    /// The ambiguous groups among them.
    pub closed spec fn ambiguous_view(self) -> Seq<(FrameOrder, Seq<E>)> {
        groups_view(self.ambiguous@)
    }

    /// Whether this is the order of `sources`.
    pub open spec fn orders(self, sources: Seq<SourceEntry<E>>) -> bool {
        resolves(sources, self.order_view(), self.ambiguous_view())
    }

    /// An order of no sources.
    pub fn empty() -> (order: Self)
        ensures
            order.order_view() == Seq::<E>::empty(),
            order.ambiguous_view() == Seq::<(FrameOrder, Seq<E>)>::empty(),
    {
        let order = SourceOrder { entities: Vec::new(), ambiguous: Vec::new() };
        assert(order.ambiguous_view() =~= Seq::<(FrameOrder, Seq<E>)>::empty());
        order
    }

    /// Order `sources` for this frame.
    pub fn resolve(&mut self, sources: &Vec<SourceEntry<E>>)
        ensures
            final(self).orders(sources@),
    {
        let (entities, ambiguous) = record_order(sources);
        self.entities = entities;
        self.ambiguous = ambiguous;
    }

    /// The sources in the order they record.
    pub fn entities(&self) -> (entities: &Vec<E>)
        ensures
            entities@ == self.order_view(),
    {
        &self.entities
    }

    /// The ambiguous groups among them.
    pub fn ambiguous(&self) -> (ambiguous: &Vec<AmbiguousGroup<E>>)
        ensures
            groups_view(ambiguous@) == self.ambiguous_view(),
    {
        &self.ambiguous
    }
}

/// Whether `==` on `E` tells exactly the equal values apart from the rest.
pub open spec fn equality_is_identity<E: PartialEq>() -> bool {
    &&& E::obeys_eq_spec()
    &&& forall|a: E, b: E| #[trigger] a.eq_spec(&b) <==> a == b
}

/// Whether two lists of entities are the same.
fn same_entities<E: Copy + PartialEq>(a: &Vec<E>, b: &Vec<E>) -> (same: bool)
    requires
        equality_is_identity::<E>(),
    ensures
        same == (a@ == b@),
{
    if a.len() != b.len() {
        return false;
    }
    let mut i: usize = 0;
    while i < a.len()
        invariant
            equality_is_identity::<E>(),
            a.len() == b.len(),
            i <= a.len(),
            a@.take(i as int) == b@.take(i as int),
        decreases a.len() - i,
    {
        if a[i] != b[i] {
            assert(a@[i as int] != b@[i as int]);
            return false;
        }
        i = i + 1;
        assert(a@.take(i as int) =~= a@.take(i - 1).push(a@[i - 1]));
        assert(b@.take(i as int) =~= b@.take(i - 1).push(b@[i - 1]));
    }
    assert(a@.take(i as int) =~= a@);
    assert(b@.take(i as int) =~= b@);
    true
}

/// Whether two lists of groups are the same.
fn same_groups<E: Copy + PartialEq>(a: &Vec<AmbiguousGroup<E>>, b: &Vec<AmbiguousGroup<E>>) -> (same:
    bool)
    requires
        equality_is_identity::<E>(),
    ensures
        same == (groups_view(a@) == groups_view(b@)),
{
    if a.len() != b.len() {
        assert(groups_view(a@).len() != groups_view(b@).len());
        return false;
    }
    let mut i: usize = 0;
    while i < a.len()
        invariant
            equality_is_identity::<E>(),
            a.len() == b.len(),
            i <= a.len(),
            forall|j: int|
                0 <= j < i ==> #[trigger] groups_view(a@)[j] == groups_view(b@)[j],
        decreases a.len() - i,
    {
        if a[i].0 != b[i].0 || !same_entities(&a[i].1, &b[i].1) {
            assert(groups_view(a@)[i as int] != groups_view(b@)[i as int]);
            return false;
        }
        assert(groups_view(a@)[i as int] == groups_view(b@)[i as int]);
        i = i + 1;
    }
    assert(groups_view(a@) =~= groups_view(b@));
    true
}

/// A copy of a list of groups.
fn copy_groups<E: Copy>(groups: &Vec<AmbiguousGroup<E>>) -> (copy: Vec<AmbiguousGroup<E>>)
    ensures
        groups_view(copy@) == groups_view(groups@),
{
    let mut copy: Vec<AmbiguousGroup<E>> = Vec::new();
    let mut i: usize = 0;
    while i < groups.len()
        invariant
            i <= groups.len(),
            groups_view(copy@) == groups_view(groups@).take(i as int),
        decreases groups.len() - i,
    {
        let mut entities: Vec<E> = Vec::new();
        let mut j: usize = 0;
        while j < groups[i].1.len()
            invariant
                i < groups.len(),
                j <= groups@[i as int].1@.len(),
                entities@ == groups@[i as int].1@.take(j as int),
            decreases groups@[i as int].1@.len() - j,
        {
            entities.push(groups[i].1[j]);
            j = j + 1;
            assert(entities@ =~= groups@[i as int].1@.take(j as int));
        }
        assert(entities@ =~= groups@[i as int].1@);
        let ghost before = copy@;
        copy.push((groups[i].0, entities));
        i = i + 1;
        assert(groups_view(copy@) =~= groups_view(before).push(groups_view(groups@)[i - 1]));
        assert(groups_view(copy@) =~= groups_view(groups@).take(i as int));
    }
    assert(groups_view(groups@).take(i as int) =~= groups_view(groups@));
    copy
}

/// Reports sources that declared the same [`FrameOrder`], without repeating
/// itself.
///
/// Equal orders are not an error, so this only reports. A steady scene must not
/// be reported on every frame, so it remembers the groups it last reported and
/// speaks up again only when they change.
#[derive(Debug)]
pub struct OrderWarnings<E> {
    reported: Vec<AmbiguousGroup<E>>,
}

impl<E: Copy> View for OrderWarnings<E> {
    type V = Seq<(FrameOrder, Seq<E>)>;

    closed spec fn view(&self) -> Seq<(FrameOrder, Seq<E>)> {
        groups_view(self.reported@)
    }
}

impl<E: Copy> Default for OrderWarnings<E> {
    fn default() -> (warnings: Self)
        ensures
            warnings@ == Seq::<(FrameOrder, Seq<E>)>::empty(),
    {
        let warnings = OrderWarnings { reported: Vec::new() };
        assert(warnings@ =~= Seq::<(FrameOrder, Seq<E>)>::empty());
        warnings
    }
}

impl<E: Copy + PartialEq> OrderWarnings<E> {
    /// Take note of `ambiguous`, and say whether it is to be reported: it is
    /// not what was already reported, and there is something to report.
    pub fn check(&mut self, ambiguous: &Vec<AmbiguousGroup<E>>) -> (report: bool)
        requires
            equality_is_identity::<E>(),
        ensures
            final(self)@ == groups_view(ambiguous@),
            report == is_reported(old(self)@, groups_view(ambiguous@)),
    {
        if same_groups(&self.reported, ambiguous) {
            return false;
        }
        self.reported = copy_groups(ambiguous);
        ambiguous.len() > 0
    }
}

/// The entries of `entries` that record at `order`.
pub open spec fn at_order<E: Copy>(entries: Seq<SourceEntry<E>>, order: FrameOrder) -> Seq<
    SourceEntry<E>,
> {
    entries.filter(|entry: SourceEntry<E>| entry.order == order)
}

/// Ranking puts the orders in ascending order.
proof fn lemma_orders_ascend<E: Copy>(entries: Seq<SourceEntry<E>>, i: int, j: int)
    requires
        crate::sort::is_ranked(entries),
        0 <= i <= j < entries.len(),
    ensures
        entries[i].order.0 <= entries[j].order.0,
{
    if i < j {
        assert(!crate::sort::rank_less(entries[j].rank(), entries[i].rank()));
    }
}

/// The entries of one order are none where no entry has it, and all where every
/// entry has it.
proof fn lemma_at_order<E: Copy>(entries: Seq<SourceEntry<E>>, order: FrameOrder)
    ensures
        (forall|i: int| 0 <= i < entries.len() ==> (#[trigger] entries[i]).order != order)
            ==> at_order(entries, order).len() == 0,
        (forall|i: int| 0 <= i < entries.len() ==> (#[trigger] entries[i]).order == order)
            ==> at_order(entries, order) == entries,
    decreases entries.len(),
{
    reveal_with_fuel(Seq::filter, 2);
    if entries.len() > 0 {
        let rest = entries.drop_last();
        lemma_at_order(rest, order);
        assert(forall|i: int| 0 <= i < rest.len() ==> rest[i] == entries[i]);
        assert(rest.push(entries.last()) =~= entries);
        assert(entries.last() == entries[entries.len() - 1]);
    } else {
        assert(at_order(entries, order) =~= entries);
    }
}

/// The entries of one order are those of the parts of a concatenation.
proof fn lemma_at_order_add<E: Copy>(
    a: Seq<SourceEntry<E>>,
    b: Seq<SourceEntry<E>>,
    order: FrameOrder,
)
    ensures
        at_order(a + b, order) == at_order(a, order) + at_order(b, order),
{
    Seq::filter_distributes_over_add(a, b, |entry: SourceEntry<E>| entry.order == order);
}

/// The runs from `start` on are the groups of the orders that start there.
proof fn lemma_runs_are_groups<E: Copy>(
    entries: Seq<SourceEntry<E>>,
    start: int,
    order: FrameOrder,
    entities: Seq<E>,
)
    requires
        crate::sort::is_ranked(entries),
        0 <= start <= entries.len(),
        start == 0 || start == entries.len() || entries[start - 1].order != entries[start].order,
    ensures
        ambiguous_runs(entries, start).contains((order, entities)) <==> {
            let chosen = at_order(entries.skip(start), order);
            chosen.len() > 1 && entities == entities_of(chosen)
        },
    decreases entries.len() - start,
{
    let tail = entries.skip(start);
    if start < entries.len() {
        let end = run_end(entries, start, start + 1);
        lemma_run_end(entries, start, start + 1);
        let here = entries[start].order;
        let run = entries.subrange(start, end);
        let rest = entries.skip(end);
        assert(tail =~= run + rest);
        assert forall|i: int| 0 <= i < run.len() implies (#[trigger] run[i]).order == here by {
            assert(run[i] == entries[start + i]);
        }
        assert forall|i: int| 0 <= i < rest.len() implies (#[trigger] rest[i]).order != here by {
            assert(rest[i] == entries[end + i]);
            lemma_orders_ascend(entries, start, end);
            lemma_orders_ascend(entries, end, end + i);
        }
        lemma_at_order(run, order);
        lemma_at_order(rest, order);
        lemma_at_order_add(run, rest, order);
        if end < entries.len() {
            assert(entries[end - 1].order == here);
        }
        lemma_runs_are_groups(entries, end, order, entities);
        let runs = ambiguous_runs(entries, start);
        let later = ambiguous_runs(entries, end);
        let first = (here, entities_of(run));
        if end - start > 1 {
            assert(runs == seq![first] + later);
            assert(runs[0] == first);
            assert forall|i: int| 0 < i < runs.len() implies runs[i] == later[i - 1] by {}
            if later.contains((order, entities)) {
                let k = choose|k: int| 0 <= k < later.len() && later[k] == (order, entities);
                assert(runs[k + 1] == (order, entities));
            }
            if runs.contains((order, entities)) {
                let k = choose|k: int| 0 <= k < runs.len() && runs[k] == (order, entities);
                if k > 0 {
                    assert(later[k - 1] == (order, entities));
                }
            }
        }
        if order == here {
            assert(at_order(run, order) == run);
            assert(at_order(rest, order).len() == 0);
            assert(at_order(tail, order) =~= run);
        } else {
            assert(at_order(run, order).len() == 0);
            assert(at_order(tail, order) =~= at_order(rest, order));
        }
    } else {
        assert(tail =~= Seq::empty());
        lemma_at_order(tail, order);
    }
}

/// An order is ambiguous exactly when more than one source has it, and its
/// group lists every one of them, in mount order. Distinct orders are therefore
/// never ambiguous, and a shared order is one group and not several pairs.
pub proof fn law_a_group_lists_every_source_of_its_order<E: Copy>(
    entries: Seq<SourceEntry<E>>,
    sources: Seq<SourceEntry<E>>,
    order: FrameOrder,
    entities: Seq<E>,
)
    requires
        crate::sort::is_sort_of(entries, sources),
    ensures
        ambiguous_runs(entries, 0).contains((order, entities)) <==> at_order(entries, order).len()
            > 1 && entities == entities_of(at_order(entries, order)),
{
    lemma_runs_are_groups(entries, 0, order, entities);
    assert(entries.skip(0) =~= entries);
}

/// Sources with distinct orders are never ambiguous.
pub proof fn law_distinct_orders_are_never_ambiguous<E: Copy>(
    entries: Seq<SourceEntry<E>>,
    sources: Seq<SourceEntry<E>>,
)
    requires
        crate::sort::is_sort_of(entries, sources),
        forall|i: int, j: int|
            #![trigger sources[i], sources[j]]
            0 <= i < j < sources.len() ==> sources[i].order != sources[j].order,
    ensures
        ambiguous_runs(entries, 0) == Seq::<(FrameOrder, Seq<E>)>::empty(),
{
    assert(crate::sort::ranks_distinct(sources));
    crate::sort::law_sorting_keeps_ranks_distinct(entries, sources);
    assert forall|i: int, j: int|
        #![trigger entries[i], entries[j]]
        0 <= i < j < entries.len() implies entries[i].order != entries[j].order by {
        assert(entries.contains(entries[i]) && entries.contains(entries[j]));
        crate::sort::law_sorting_keeps_the_items(entries, sources, entries[i]);
        crate::sort::law_sorting_keeps_the_items(entries, sources, entries[j]);
        let k = choose|k: int| 0 <= k < sources.len() && sources[k] == entries[i];
        let l = choose|l: int| 0 <= l < sources.len() && sources[l] == entries[j];
        assert(k != l);
    }
    lemma_no_runs(entries, 0);
}

/// Entries with distinct orders have no runs.
proof fn lemma_no_runs<E: Copy>(entries: Seq<SourceEntry<E>>, start: int)
    requires
        0 <= start <= entries.len(),
        forall|i: int, j: int|
            #![trigger entries[i], entries[j]]
            0 <= i < j < entries.len() ==> entries[i].order != entries[j].order,
    ensures
        ambiguous_runs(entries, start) == Seq::<(FrameOrder, Seq<E>)>::empty(),
    decreases entries.len() - start,
{
    if start < entries.len() {
        lemma_run_end(entries, start, start + 1);
        lemma_no_runs(entries, start + 1);
    }
}

/// The order sources are mounted in, not the order the world happens to yield
/// them in, decides between equal orders: with distinct mount indices, two
/// views of the same sources record alike.
pub proof fn law_row_order_does_not_matter<E: Copy>(
    entries: Seq<SourceEntry<E>>,
    sources: Seq<SourceEntry<E>>,
    other_entries: Seq<SourceEntry<E>>,
    other_sources: Seq<SourceEntry<E>>,
)
    requires
        crate::sort::is_sort_of(entries, sources),
        crate::sort::is_sort_of(other_entries, other_sources),
        mounts_distinct(sources),
        mounts_distinct(other_sources),
        forall|entry: SourceEntry<E>| sources.contains(entry) <==> other_sources.contains(entry),
    ensures
        entries == other_entries,
{
    assert(crate::sort::ranks_distinct(sources));
    assert(crate::sort::ranks_distinct(other_sources));
    crate::sort::law_distinct_ranks_sort_alike(entries, sources, other_entries, other_sources);
}

/// Whether no two sources share a mount index.
pub open spec fn mounts_distinct<E: Copy>(sources: Seq<SourceEntry<E>>) -> bool {
    forall|i: int, j: int|
        #![trigger sources[i], sources[j]]
        0 <= i < j < sources.len() ==> sources[i].mount_index != sources[j].mount_index
}

/// Despawning sources leaves the others in the order they had, wherever the
/// world moved their rows: what is left records as before, without the ones
/// that are gone.
pub proof fn law_record_order_survives_a_despawn<E: Copy>(
    entries: Seq<SourceEntry<E>>,
    sources: Seq<SourceEntry<E>>,
    left_entries: Seq<SourceEntry<E>>,
    left: Seq<SourceEntry<E>>,
    keep: spec_fn(SourceEntry<E>) -> bool,
)
    requires
        crate::sort::is_sort_of(entries, sources),
        crate::sort::is_sort_of(left_entries, left),
        mounts_distinct(sources),
        mounts_distinct(left),
        forall|entry: SourceEntry<E>|
            left.contains(entry) <==> sources.contains(entry) && keep(entry),
    ensures
        left_entries == entries.filter(keep),
{
    let kept = sources.filter(keep);
    assert forall|entry: SourceEntry<E>| left.contains(entry) <==> kept.contains(entry) by {
        if kept.contains(entry) {
            let i = choose|i: int| 0 <= i < kept.len() && kept[i] == entry;
            sources.lemma_filter_pred(keep, i);
            sources.lemma_filter_contains_rev(keep, entry);
        }
        if left.contains(entry) {
            let i = choose|i: int| 0 <= i < sources.len() && sources[i] == entry;
            sources.lemma_filter_contains(keep, i);
        }
    }
    assert(crate::sort::ranks_distinct(sources));
    assert(crate::sort::ranks_distinct(left));
    crate::sort::law_removal_keeps_the_order(entries, sources, keep);
    crate::sort::lemma_filter_keeps_ranks_distinct(sources, keep);
    crate::sort::law_distinct_ranks_sort_alike(left_entries, left, entries.filter(keep), kept);
}

/// Whether the groups `ambiguous` are reported to someone who last heard of
/// `reported`.
pub open spec fn is_reported<E>(
    reported: Seq<(FrameOrder, Seq<E>)>,
    ambiguous: Seq<(FrameOrder, Seq<E>)>,
) -> bool {
    reported != ambiguous && ambiguous.len() > 0
}

/// A steady frame stays quiet: groups that were just noted are not reported
/// again, and an ambiguity that went away and came back is.
pub proof fn law_an_ambiguity_is_reported_once<E>(
    reported: Seq<(FrameOrder, Seq<E>)>,
    ambiguous: Seq<(FrameOrder, Seq<E>)>,
)
    requires
        ambiguous.len() > 0,
    ensures
        !is_reported(ambiguous, ambiguous),
        !is_reported(reported, Seq::empty()),
        is_reported(Seq::empty(), ambiguous),
{
}

/// Sources record in ascending order, and those of one order as they were
/// mounted.
pub proof fn law_sources_record_by_order_then_mount<E: Copy>(
    entries: Seq<SourceEntry<E>>,
    i: int,
    j: int,
)
    requires
        crate::sort::is_ranked(entries),
        0 <= i < j < entries.len(),
    ensures
        entries[i].order.0 <= entries[j].order.0,
        entries[i].order == entries[j].order ==> entries[i].mount_index <= entries[j].mount_index,
{
    assert(!crate::sort::rank_less(entries[j].rank(), entries[i].rank()));
}

/// An override decides where a source records, whatever the source declares;
/// without one the source's own word counts.
pub proof fn law_an_override_decides_the_order<S: FrameSource>(source: Source<S>)
    ensures
        source.overriding() matches Some(order) ==> source.effective_order() == order,
        source.overriding() is None ==> source.effective_order()
            == source.inner().declared_order(),
{
}

/// An ambiguity is reported exactly when there is one and it is not the one that
/// was reported last.
pub proof fn law_only_news_are_reported<E>(
    reported: Seq<(FrameOrder, Seq<E>)>,
    ambiguous: Seq<(FrameOrder, Seq<E>)>,
)
    ensures
        ambiguous.len() == 0 ==> !is_reported(reported, ambiguous),
        ambiguous.len() > 0 ==> (is_reported(reported, ambiguous) <==> reported != ambiguous),
{
}

/// A source of an ambiguous order is in that order's group, and a group holds
/// sources of its order only, in the order they record.
pub proof fn law_a_group_holds_its_own_order<E: Copy>(
    entries: Seq<SourceEntry<E>>,
    order: FrameOrder,
    i: int,
)
    requires
        0 <= i < entries.len(),
    ensures
        entries[i].order == order <==> at_order(entries, order).contains(entries[i]),
        entries[i].order == order ==> entities_of(at_order(entries, order)).contains(
            entries[i].entity,
        ),
{
    let wanted = |entry: SourceEntry<E>| entry.order == order;
    let chosen = at_order(entries, order);
    if entries[i].order == order {
        entries.lemma_filter_contains(wanted, i);
        let k = choose|k: int| 0 <= k < chosen.len() && chosen[k] == entries[i];
        assert(entities_of(chosen)[k] == entries[i].entity);
    }
    if chosen.contains(entries[i]) {
        let k = choose|k: int| 0 <= k < chosen.len() && chosen[k] == entries[i];
        entries.lemma_filter_pred(wanted, k);
    }
}

/// A capture claims something exactly when it claims the pointer or the
/// keyboard.
pub proof fn law_a_claim_is_of_the_pointer_or_the_keyboard(capture: InputCapture)
    ensures
        capture.any() <==> capture.pointer || capture.keyboard,
        !(InputCapture { pointer: false, keyboard: false }).any(),
{
}

/// The overlay's order comes after the meshes'.
pub proof fn law_overlays_come_after_meshes()
    ensures
        FrameOrder::mesh().0 == 0,
        FrameOrder::overlay().0 == 100,
{
}

} // verus!
