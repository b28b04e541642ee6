//! The mesh-metadata array: one entry per live mesh, and the buffer it is
//! uploaded to.
//!
//! A mesh owns a slot of the array from its allocation to its removal, and a
//! slot that was freed is handed out again, so the array stays as dense as the
//! meshes that are alive. The buffer behind it grows geometrically and never
//! shrinks.

use vstd::prelude::*;

verus! {

/// What a [`MetadataArray`] holds.
#[verifier::ext_equal]
pub struct MetadataModel<M> {
    /// The entries, one per slot.
    pub entries: Seq<M>,
    /// The slots whose mesh was removed, last freed last.
    pub free: Seq<u32>,
    /// How many entries the current storage buffer can hold.
    pub capacity: u32,
    /// Whether the array changed since it was last uploaded.
    pub dirty: bool,
}

impl<M> MetadataModel<M> {
    /// The array before any mesh, with a buffer that has room for one entry.
    pub open spec fn initial() -> MetadataModel<M> {
        MetadataModel { entries: Seq::empty(), free: Seq::empty(), capacity: 1, dirty: false }
    }

    /// Whether every free slot is one of the array's.
    pub open spec fn wf(self) -> bool {
        forall|i: int| 0 <= i < self.free.len() ==> (#[trigger] self.free[i]) < self.entries.len()
    }

    /// Whether no slot is free twice, which holds as long as only live meshes
    /// are removed.
    pub open spec fn frees_distinct(self) -> bool {
        forall|i: int, j: int|
            #![trigger self.free[i], self.free[j]]
            0 <= i < j < self.free.len() ==> self.free[i] != self.free[j]
    }

    /// Whether a mesh owns `slot`.
    pub open spec fn is_live(self, slot: u32) -> bool {
        slot < self.entries.len() && !self.free.contains(slot)
    }

    /// The slot the next mesh takes: the one freed last, or a new one.
    pub open spec fn next_slot(self) -> u32 {
        if self.free.len() > 0 {
            self.free.last()
        } else {
            self.entries.len() as u32
        }
    }

    /// The array once a mesh with `metadata` took its slot.
    pub open spec fn allocated(self, metadata: M) -> MetadataModel<M> {
        if self.free.len() > 0 {
            MetadataModel {
                entries: self.entries.update(self.free.last() as int, metadata),
                free: self.free.drop_last(),
                dirty: true,
                ..self
            }
        } else {
            MetadataModel { entries: self.entries.push(metadata), dirty: true, ..self }
        }
    }

    /// The array once the mesh that owned `slot` was removed, leaving `empty`
    /// behind. A slot the array does not have is left alone.
    pub open spec fn removed(self, slot: u32, empty: M) -> MetadataModel<M> {
        if slot < self.entries.len() {
            MetadataModel {
                entries: self.entries.update(slot as int, empty),
                free: self.free.push(slot),
                dirty: true,
                ..self
            }
        } else {
            self
        }
    }

    /// How many entries the buffer has to hold.
    pub open spec fn needed(self) -> int {
        if self.entries.len() == 0 {
            1
        } else {
            self.entries.len() as int
        }
    }

    /// The capacity the buffer is recreated with when the array is uploaded, or
    /// `None` while the array fits the buffer it has.
    pub open spec fn growth(self) -> Option<u32> {
        if self.needed() > self.capacity {
            Some(
                (if self.needed() > 2 * self.capacity {
                    self.needed()
                } else {
                    2 * self.capacity
                }) as u32,
            )
        } else {
            None
        }
    }

    /// Whether the buffer, should it have to grow, can double.
    pub open spec fn can_grow(self) -> bool {
        self.dirty && self.needed() > self.capacity ==> 2 * self.capacity <= u32::MAX
    }

    /// What it takes to bring the buffer up to date with the array.
    pub open spec fn due(self) -> MetadataUpload {
        if !self.dirty {
            MetadataUpload::Nothing
        } else {
            match self.growth() {
                Some(capacity) => MetadataUpload::Recreate(capacity),
                None => MetadataUpload::InPlace,
            }
        }
    }

    /// The array once it was uploaded.
    pub open spec fn uploaded(self) -> MetadataModel<M> {
        if self.dirty {
            MetadataModel {
                dirty: false,
                capacity: match self.growth() {
                    Some(capacity) => capacity,
                    None => self.capacity,
                },
                ..self
            }
        } else {
            self
        }
    }
}

/// What uploading the array takes.
#[derive(Clone, Copy, Debug, PartialEq, Eq, Structural)]
pub enum MetadataUpload {
    /// The array did not change since it was last uploaded.
    Nothing,
    /// Write the array into the buffer there is.
    InPlace,
    /// Recreate the buffer to hold this many entries, rebuild the bind groups
    /// that read it, then write the array.
    Recreate(u32),
}

/// The mesh-metadata array of a source.
#[derive(Debug)]
pub struct MetadataArray<M> {
    entries: Vec<M>,
    free: Vec<u32>,
    capacity: u32,
    dirty: bool,
}

impl<M> View for MetadataArray<M> {
    type V = MetadataModel<M>;

    closed spec fn view(&self) -> MetadataModel<M> {
        MetadataModel {
            entries: self.entries@,
            free: self.free@,
            capacity: self.capacity,
            dirty: self.dirty,
        }
    }
}

impl<M> MetadataArray<M> {
    /// An empty array, with a buffer that has room for one entry.
    pub fn new() -> (array: Self)
        ensures
            array@ == MetadataModel::<M>::initial(),
            array@.wf(),
            array@.frees_distinct(),
    {
        MetadataArray { entries: Vec::new(), free: Vec::new(), capacity: 1, dirty: false }
    }

    /// Take a slot for a mesh with `metadata`: one a removed mesh held where
    /// there is one, a new one otherwise.
    pub fn allocate(&mut self, metadata: M) -> (slot: u32)
        requires
            old(self)@.wf(),
            old(self)@.entries.len() < u32::MAX,
        ensures
            final(self)@ == old(self)@.allocated(metadata),
            final(self)@.wf(),
            slot == old(self)@.next_slot(),
    {
        self.dirty = true;
        match self.free.pop() {
            Some(slot) => {
                assert(slot == old(self)@.free.last());
                assert(old(self)@.free[old(self)@.free.len() - 1] < old(self)@.entries.len());
                self.entries.set(slot as usize, metadata);
                slot
            },
            None => {
                let slot = self.entries.len() as u32;
                self.entries.push(metadata);
                slot
            },
        }
    }

    /// Give up the slot of a removed mesh, leaving `empty` in it.
    pub fn remove(&mut self, slot: u32, empty: M)
        requires
            old(self)@.wf(),
        ensures
            final(self)@ == old(self)@.removed(slot, empty),
            final(self)@.wf(),
    {
        if (slot as usize) < self.entries.len() {
            self.entries.set(slot as usize, empty);
            self.free.push(slot);
            self.dirty = true;
        }
    }

    /// Upload the array if it changed, growing the buffer if the array outgrew
    /// it.
    ///
    /// The buffer is recreated only when the array outgrows it, so a steady
    /// scene rewrites in place and rebuilds no bind group.
    pub fn upload(&mut self) -> (upload: MetadataUpload)
        requires
            old(self)@.entries.len() <= u32::MAX,
            old(self)@.can_grow(),
        ensures
            final(self)@ == old(self)@.uploaded(),
            upload == old(self)@.due(),
            upload == if !old(self)@.dirty {
                MetadataUpload::Nothing
            } else {
                match old(self)@.growth() {
                    Some(capacity) => MetadataUpload::Recreate(capacity),
                    None => MetadataUpload::InPlace,
                }
            },
    {
        if !self.dirty {
            return MetadataUpload::Nothing;
        }
        self.dirty = false;
        let len = self.entries.len() as u32;
        let needed: u32 = if len == 0 {
            1
        } else {
            len
        };
        if needed > self.capacity {
            let doubled = 2 * self.capacity;
            let capacity = if needed > doubled {
                needed
            } else {
                doubled
            };
            self.capacity = capacity;
            MetadataUpload::Recreate(capacity)
        } else {
            MetadataUpload::InPlace
        }
    }

    /// The entries, in slot order.
    pub fn entries(&self) -> (entries: &Vec<M>)
        ensures
            entries@ == self@.entries,
    {
        &self.entries
    }

    /// How many entries the buffer can hold.
    pub fn capacity(&self) -> (capacity: u32)
        ensures
            capacity == self@.capacity,
    {
        self.capacity
    }

    /// Whether the array changed since it was last uploaded.
    pub fn is_dirty(&self) -> (dirty: bool)
        ensures
            dirty == self@.dirty,
    {
        self.dirty
    }
}

/// A new mesh takes a slot no live mesh owns, and disturbs none of them: every
/// live mesh keeps its slot and its entry, and the new mesh's slot holds its
/// own.
pub proof fn law_a_new_mesh_takes_a_slot_of_its_own<M>(
    array: MetadataModel<M>,
    metadata: M,
    other: u32,
)
    requires
        array.wf(),
        array.frees_distinct(),
        array.entries.len() < u32::MAX,
    ensures
        !array.is_live(array.next_slot()),
        array.allocated(metadata).is_live(array.next_slot()),
        array.allocated(metadata).entries[array.next_slot() as int] == metadata,
        array.allocated(metadata).frees_distinct(),
        array.is_live(other) ==> array.allocated(metadata).is_live(other)
            && array.allocated(metadata).entries[other as int] == array.entries[other as int],
{
    let slot = array.next_slot();
    let after = array.allocated(metadata);
    if array.free.len() > 0 {
        assert(array.free[array.free.len() - 1] == slot);
        assert(array.free.contains(slot));
        if after.free.contains(slot) {
            let i = choose|i: int| 0 <= i < after.free.len() && after.free[i] == slot;
            assert(array.free[i] == slot);
        }
        if after.free.contains(other) {
            let i = choose|i: int| 0 <= i < after.free.len() && after.free[i] == other;
            assert(array.free[i] == other);
        }
    } else {
        assert(!after.free.contains(slot));
    }
}

/// One thing that happens to a metadata array.
pub enum ArrayEvent<M> {
    /// A mesh with this entry was allocated.
    Allocated(M),
    /// The mesh that owned this slot was removed, leaving this entry behind.
    Removed(u32, M),
    /// The array was uploaded.
    Uploaded,
}

impl<M> MetadataModel<M> {
    /// Whether `event` can happen to the array: a mesh is allocated while there
    /// is a number left for its slot, and removed while it is alive.
    pub open spec fn admits(self, event: ArrayEvent<M>) -> bool {
        match event {
            ArrayEvent::Allocated(_) => self.entries.len() < u32::MAX,
            ArrayEvent::Removed(slot, _) => self.is_live(slot),
            ArrayEvent::Uploaded => true,
        }
    }

    /// The array once `event` happened to it.
    pub open spec fn after(self, event: ArrayEvent<M>) -> MetadataModel<M> {
        match event {
            ArrayEvent::Allocated(metadata) => self.allocated(metadata),
            ArrayEvent::Removed(slot, empty) => self.removed(slot, empty),
            ArrayEvent::Uploaded => self.uploaded(),
        }
    }

    /// A new array, once `events` happened to it, first to last.
    pub open spec fn reached(events: Seq<ArrayEvent<M>>) -> MetadataModel<M>
        decreases events.len(),
    {
        if events.len() == 0 {
            MetadataModel::initial()
        } else {
            MetadataModel::reached(events.drop_last()).after(events.last())
        }
    }
}

/// Whether `events` can happen to a new array: each when it does, so that no
/// mesh is removed but a live one.
pub open spec fn can_happen<M>(events: Seq<ArrayEvent<M>>) -> bool
    decreases events.len(),
{
    events.len() > 0 ==> can_happen(events.drop_last()) && MetadataModel::reached(
        events.drop_last(),
    ).admits(events.last())
}

/// Whatever meshes were allocated and removed before, and whenever the array
/// was uploaded, it is consistent: its free slots are its own and none is free
/// twice.
pub proof fn law_every_reached_array_is_consistent<M>(events: Seq<ArrayEvent<M>>)
    requires
        can_happen(events),
    ensures
        MetadataModel::reached(events).wf(),
        MetadataModel::reached(events).frees_distinct(),
    decreases events.len(),
{
    if events.len() > 0 {
        let before = MetadataModel::reached(events.drop_last());
        law_every_reached_array_is_consistent(events.drop_last());
        match events.last() {
            ArrayEvent::Allocated(metadata) => {
                law_a_new_mesh_takes_a_slot_of_its_own(before, metadata, 0);
            },
            ArrayEvent::Removed(slot, empty) => {
                law_a_freed_slot_is_handed_out_again(before, slot, empty, empty);
            },
            ArrayEvent::Uploaded => {},
        }
    }
}

/// A new mesh always takes a slot of its own: after any allocations, removals
/// of live meshes and uploads, the slot it takes belongs to no live mesh, every
/// live mesh keeps its slot and its entry, and the new mesh's slot holds its
/// own.
pub proof fn law_a_new_mesh_always_takes_a_slot_of_its_own<M>(
    events: Seq<ArrayEvent<M>>,
    metadata: M,
    other: u32,
)
    requires
        can_happen(events),
        MetadataModel::reached(events).entries.len() < u32::MAX,
    ensures
        ({
            let array = MetadataModel::reached(events);
            let slot = array.next_slot();
            let after = array.allocated(metadata);
            &&& !array.is_live(slot)
            &&& after.is_live(slot)
            &&& after.entries[slot as int] == metadata
            &&& array.is_live(other) ==> other != slot && after.is_live(other)
                && after.entries[other as int] == array.entries[other as int]
        }),
{
    law_every_reached_array_is_consistent(events);
    law_a_new_mesh_takes_a_slot_of_its_own(MetadataModel::reached(events), metadata, other);
}

/// Removing a live mesh frees its slot and no other, and the next mesh takes
/// that slot: the array does not grow.
pub proof fn law_a_freed_slot_is_handed_out_again<M>(
    array: MetadataModel<M>,
    slot: u32,
    empty: M,
    metadata: M,
)
    requires
        array.wf(),
        array.frees_distinct(),
        array.is_live(slot),
    ensures
        array.removed(slot, empty).frees_distinct(),
        !array.removed(slot, empty).is_live(slot),
        array.removed(slot, empty).next_slot() == slot,
        array.removed(slot, empty).allocated(metadata).entries == array.entries.update(
            slot as int,
            metadata,
        ),
        array.removed(slot, empty).allocated(metadata).free == array.free,
        forall|other: u32|
            other != slot && array.is_live(other) ==> #[trigger] array.removed(
                slot,
                empty,
            ).is_live(other),
{
    let removed = array.removed(slot, empty);
    assert(removed.free[removed.free.len() - 1] == slot);
    assert(removed.free.contains(slot));
    assert forall|i: int, j: int|
        #![trigger removed.free[i], removed.free[j]]
        0 <= i < j < removed.free.len() implies removed.free[i] != removed.free[j] by {
        if j < array.free.len() {
            assert(array.free[i] == removed.free[i] && array.free[j] == removed.free[j]);
        } else {
            assert(array.free[i] == removed.free[i]);
            assert(array.free.contains(array.free[i]));
        }
    }
    assert forall|other: u32| other != slot && array.is_live(other) implies #[trigger] array.removed(
        slot,
        empty,
    ).is_live(other) by {
        if removed.free.contains(other) {
            let i = choose|i: int| 0 <= i < removed.free.len() && removed.free[i] == other;
            assert(array.free[i] == other);
        }
    }
    assert(removed.free.drop_last() =~= array.free);
    assert(removed.entries.update(slot as int, metadata) =~= array.entries.update(
        slot as int,
        metadata,
    ));
}

/// Removing a mesh right after it was allocated frees the slot it took and no
/// other: the next mesh takes it, every other live mesh keeps its slot and its
/// entry, and the array is no longer than it was with the mesh.
pub proof fn law_removing_a_new_mesh_frees_its_slot<M>(
    array: MetadataModel<M>,
    metadata: M,
    empty: M,
)
    requires
        array.wf(),
        array.frees_distinct(),
        array.entries.len() < u32::MAX,
    ensures
        ({
            let slot = array.next_slot();
            let with = array.allocated(metadata);
            let without = with.removed(slot, empty);
            &&& without.wf()
            &&& without.frees_distinct()
            &&& without.entries.len() == with.entries.len()
            &&& without.next_slot() == slot
            &&& forall|other: u32| #[trigger] without.is_live(other) <==> array.is_live(other)
            &&& forall|other: u32|
                #[trigger] array.is_live(other) ==> without.entries[other as int]
                    == array.entries[other as int]
        }),
{
    let slot = array.next_slot();
    let with = array.allocated(metadata);
    let without = with.removed(slot, empty);
    law_a_new_mesh_takes_a_slot_of_its_own(array, metadata, slot);
    law_a_freed_slot_is_handed_out_again(with, slot, empty, metadata);
    if array.free.len() > 0 {
        assert(array.free[array.free.len() - 1] == slot);
        assert(without.free =~= array.free);
    } else {
        assert(without.free =~= seq![slot]);
    }
    assert forall|other: u32| #[trigger] without.is_live(other) <==> array.is_live(other) by {
        if array.free.len() == 0 {
            assert(without.free[0] == slot);
            assert(!array.free.contains(other));
        }
    }
    assert forall|other: u32| #[trigger] array.is_live(other) implies without.entries[other as int]
        == array.entries[other as int] by {
        law_a_new_mesh_takes_a_slot_of_its_own(array, metadata, other);
    }
}

/// The array grows only when no slot is free.
pub proof fn law_the_array_grows_only_when_full<M>(array: MetadataModel<M>, metadata: M)
    requires
        array.wf(),
    ensures
        array.allocated(metadata).entries.len() == array.entries.len() + if array.free.len() > 0 {
            0int
        } else {
            1int
        },
{
    if array.free.len() > 0 {
        assert(array.free[array.free.len() - 1] < array.entries.len());
    }
}

/// After an upload the buffer holds the whole array, and it never shrinks: it
/// is left alone while the array fits, and otherwise at least doubles.
pub proof fn law_the_buffer_holds_the_array<M>(array: MetadataModel<M>)
    requires
        array.entries.len() <= u32::MAX,
        array.can_grow(),
        array.dirty,
    ensures
        array.uploaded().capacity >= array.entries.len(),
        array.uploaded().capacity >= 1,
        array.needed() <= array.capacity ==> array.uploaded().capacity == array.capacity,
        array.needed() > array.capacity ==> array.uploaded().capacity >= 2 * array.capacity,
        array.uploaded().capacity >= array.capacity,
        !array.uploaded().dirty,
        array.uploaded().uploaded() == array.uploaded(),
{
}

/// The capacity an instance buffer that holds `capacity` is recreated with to
/// hold `count`, or `None` while it already does.
pub open spec fn instance_growth(capacity: u32, count: u32) -> Option<u32> {
    if count <= capacity {
        None
    } else if count > 2 * capacity {
        Some(count)
    } else {
        Some((2 * capacity) as u32)
    }
}

/// The capacity to recreate the instance buffer with, if `count` instances do
/// not fit the one there is: at least twice what it held, so repeated growth
/// amortizes.
pub fn grow_instances(capacity: u32, count: u32) -> (grown: Option<u32>)
    requires
        count > capacity ==> 2 * capacity <= u32::MAX,
    ensures
        grown == instance_growth(capacity, count),
{
    if count <= capacity {
        return None;
    }
    let doubled = 2 * capacity;
    if count > doubled {
        Some(count)
    } else {
        Some(doubled)
    }
}

/// A grown instance buffer holds what it was grown for, and at least one
/// instance.
pub proof fn law_instances_fit_a_grown_buffer(capacity: u32, count: u32)
    requires
        count > capacity ==> 2 * capacity <= u32::MAX,
    ensures
        match instance_growth(capacity, count) {
            Some(grown) => count <= grown && capacity < grown && 1 <= grown && 2 * capacity
                <= grown,
            None => count <= capacity,
        },
{
}

/// A mesh that comes or goes marks the array for upload, and an upload takes the
/// mark back; neither coming nor going touches the buffer.
pub proof fn law_changes_are_uploaded<M>(array: MetadataModel<M>, metadata: M, slot: u32, empty: M)
    ensures
        array.allocated(metadata).dirty,
        slot < array.entries.len() ==> array.removed(slot, empty).dirty,
        !array.uploaded().dirty,
        array.allocated(metadata).capacity == array.capacity,
        array.removed(slot, empty).capacity == array.capacity,
        array.uploaded().entries == array.entries,
        array.uploaded().free == array.free,
        slot >= array.entries.len() ==> array.removed(slot, empty) == array,
{
}

/// A removed mesh leaves the given entry in its slot, and every other entry as
/// it was.
pub proof fn law_a_removed_mesh_leaves_an_empty_entry<M>(
    array: MetadataModel<M>,
    slot: u32,
    empty: M,
    other: int,
)
    requires
        slot < array.entries.len(),
        0 <= other < array.entries.len(),
    ensures
        array.removed(slot, empty).entries[slot as int] == empty,
        other != slot ==> array.removed(slot, empty).entries[other] == array.entries[other],
        array.removed(slot, empty).entries.len() == array.entries.len(),
{
}

/// A mesh takes the slot freed last, and the one after the last entry where none
/// is free.
pub proof fn law_the_slot_freed_last_is_taken_first<M>(array: MetadataModel<M>)
    requires
        array.entries.len() <= u32::MAX,
    ensures
        array.free.len() > 0 ==> array.next_slot() == array.free[array.free.len() - 1],
        array.free.len() == 0 ==> array.next_slot() == array.entries.len(),
{
}

/// A buffer grows exactly when the array outgrows it, and then to twice its size
/// or to what the array needs, whichever is more, and to no more than that.
pub proof fn law_the_buffer_doubles<M>(array: MetadataModel<M>)
    requires
        array.entries.len() <= u32::MAX,
        2 * array.capacity <= u32::MAX,
    ensures
        ({
            let needed = if array.entries.len() == 0 {
                1int
            } else {
                array.entries.len() as int
            };
            &&& array.growth() is Some <==> needed > array.capacity
            &&& array.growth() matches Some(grown) ==> grown >= needed && grown >= 2
                * array.capacity && (grown == needed || grown == 2 * array.capacity)
            &&& array.dirty ==> array.uploaded().capacity == if needed > array.capacity {
                array.growth()->0
            } else {
                array.capacity
            }
            &&& !array.dirty ==> array.uploaded() == array
        }),
{
}

/// The instance buffer grows exactly when a frame has more instances than it
/// holds, and then to twice its size or to what the frame needs, whichever is
/// more, and to no more than that.
pub proof fn law_the_instance_buffer_doubles(capacity: u32, count: u32)
    requires
        2 * capacity <= u32::MAX,
    ensures
        instance_growth(capacity, count) is Some <==> count > capacity,
        instance_growth(capacity, count) matches Some(grown) ==> grown >= count && grown >= 2
            * capacity && (grown == count || grown == 2 * capacity),
{
}

/// A new array holds nothing, owes no upload, and has room for one entry.
pub proof fn law_a_new_array_is_empty<M>(slot: u32)
    ensures
        ({
            let array = MetadataModel::<M>::initial();
            &&& array.entries.len() == 0
            &&& !array.is_live(slot)
            &&& array.next_slot() == 0
            &&& !array.dirty
            &&& array.capacity == 1
        }),
{
}

/// What is due follows from what changed: nothing for an array that did not
/// change, a larger buffer exactly when the array outgrew the one it has, and
/// then one as large as the array will say its buffer is; and once uploaded,
/// nothing is due.
pub proof fn law_an_upload_is_due_when_something_changed<M>(array: MetadataModel<M>)
    requires
        array.can_grow(),
        array.entries.len() <= u32::MAX,
    ensures
        array.due() is Nothing <==> !array.dirty,
        array.due() matches MetadataUpload::Recreate(capacity) ==> {
            &&& capacity == array.uploaded().capacity
            &&& capacity > array.capacity
            &&& capacity >= array.entries.len()
        },
        array.due() is InPlace ==> array.entries.len() <= array.capacity && array.uploaded().capacity
            == array.capacity,
        array.dirty && array.entries.len() > array.capacity ==> array.due() is Recreate,
        array.uploaded().due() is Nothing,
{
}

} // verus!
