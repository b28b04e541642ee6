//! Mounting frame sources and the order they record in.

use unlit3d::source::{
    frame_target, next_mount_index, record_order, set_frame_target, spawn_source, spawn_source_at,
    unset_frame_target, AmbiguousGroup, AnySource, FrameOrder, FrameSource, FrameTarget,
    FrameTargetSlot, MountCounter, OrderWarnings, Source, SourceEntry, SourceOrder,
};

/// A source that declares an order.
struct RecordingSource {
    order: FrameOrder,
    built: u32,
}

impl RecordingSource {
    fn new(order: FrameOrder) -> Self {
        Self { order, built: 0 }
    }
}

impl FrameSource for RecordingSource {
    fn declared_order(&self) -> FrameOrder {
        self.order
    }

    fn order(&self) -> FrameOrder {
        self.order
    }
}

/// A world of mounted sources: each with its entity, in row order.
struct Mounted {
    counter: MountCounter,
    rows: Vec<(u32, Source<RecordingSource>)>,
    next: u32,
}

impl Mounted {
    fn new() -> Self {
        Self {
            counter: MountCounter::default(),
            rows: Vec::new(),
            next: 1,
        }
    }

    fn spawn(&mut self, order: FrameOrder) -> u32 {
        let source = spawn_source(Some(&mut self.counter), RecordingSource::new(order));
        self.add(source)
    }

    fn spawn_at(&mut self, at: FrameOrder, declared: FrameOrder) -> u32 {
        let source = spawn_source_at(Some(&mut self.counter), at, RecordingSource::new(declared));
        self.add(source)
    }

    fn add(&mut self, source: Source<RecordingSource>) -> u32 {
        let entity = self.next;
        self.next += 1;
        self.rows.push((entity, source));
        entity
    }

    fn entries(&self) -> Vec<SourceEntry<u32>> {
        self.rows.iter().map(|(entity, source)| source.entry(*entity)).collect()
    }

    fn record_order(&self) -> (Vec<u32>, Vec<AmbiguousGroup<u32>>) {
        record_order(&self.entries())
    }

    /// Despawn an entity, moving the last row into the freed one.
    fn despawn(&mut self, entity: u32) {
        let row = self.rows.iter().position(|(e, _)| *e == entity).unwrap();
        self.rows.swap_remove(row);
    }

    fn source(&mut self, entity: u32) -> &mut Source<RecordingSource> {
        &mut self.rows.iter_mut().find(|(e, _)| *e == entity).unwrap().1
    }
}

#[test]
fn explicit_order_wins_over_mount_order() {
    let mut world = Mounted::new();

    // Mounted overlay-first, so mount order is the opposite of draw order.
    let overlay = world.spawn(FrameOrder::overlay());
    let mesh = world.spawn(FrameOrder::mesh());

    let (order, ambiguous) = world.record_order();
    assert_eq!(order, vec![mesh, overlay], "the lower order records first");
    assert!(ambiguous.is_empty(), "distinct orders are not ambiguous");
}

#[test]
fn equal_orders_keep_mount_order_across_a_despawn() {
    let mut world = Mounted::new();

    let first = world.spawn(FrameOrder::overlay());
    let second = world.spawn(FrameOrder::overlay());
    let third = world.spawn(FrameOrder::overlay());
    assert_eq!(world.record_order().0, vec![first, second, third]);

    // Despawning the first leaves the other two in mount order, even though
    // the last row moved into the freed one.
    world.despawn(first);
    assert_eq!(
        world.record_order().0,
        vec![second, third],
        "mount order survives a despawn"
    );
}

#[test]
fn an_explicit_order_overrides_the_one_the_source_declares() {
    let mut world = Mounted::new();

    let a = world.spawn_at(FrameOrder::overlay(), FrameOrder::mesh());
    let b = world.spawn(FrameOrder::mesh());

    // `a` was mounted as an overlay, so it records last despite declaring the
    // mesh order itself.
    assert_eq!(world.record_order().0, vec![b, a]);

    world.source(a).set_order(None);
    assert_eq!(
        world.record_order().0,
        vec![a, b],
        "dropping the override falls back to the declared order"
    );
}

#[test]
fn a_source_reports_its_declared_order_until_overridden() {
    let source = Source::new(RecordingSource::new(FrameOrder::overlay()));
    assert_eq!(source.order(), FrameOrder::overlay());

    let mut source =
        Source::new(RecordingSource::new(FrameOrder::mesh())).with_order(FrameOrder::overlay());
    assert_eq!(source.order(), FrameOrder::overlay(), "the override wins");

    source.set_order(None);
    assert_eq!(source.order(), FrameOrder::mesh(), "and can be dropped");
}

#[test]
fn an_ambiguity_is_reported_once_and_again_only_when_it_changes() {
    let mut world = Mounted::new();

    let a = world.spawn(FrameOrder::mesh());
    let b = world.spawn(FrameOrder::mesh());

    let (_, ambiguous) = world.record_order();
    assert_eq!(ambiguous.len(), 1, "the two share one order");
    assert_eq!(ambiguous[0].0, FrameOrder::mesh());
    assert_eq!(ambiguous[0].1, vec![a, b], "in mount order");

    let mut warnings = OrderWarnings::default();
    assert!(warnings.check(&ambiguous), "the first frame reports it");
    assert!(!warnings.check(&ambiguous), "a steady frame stays quiet");

    // Resolving the ambiguity stops the reporting; reintroducing it warns once
    // more.
    world.source(b).set_order(Some(FrameOrder::overlay()));
    let (_, resolved) = world.record_order();
    assert!(resolved.is_empty());
    assert!(!warnings.check(&resolved));

    world.source(b).set_order(Some(FrameOrder::mesh()));
    let (_, again) = world.record_order();
    assert!(warnings.check(&again), "the ambiguity is back");
    assert!(!warnings.check(&again), "and still reports only once");
}

#[test]
fn distinct_orders_are_never_ambiguous() {
    let mut world = Mounted::new();
    world.spawn(FrameOrder::mesh());
    world.spawn(FrameOrder::overlay());

    let (order, ambiguous) = world.record_order();
    assert_eq!(order.len(), 2);
    assert!(ambiguous.is_empty());
    assert!(!OrderWarnings::default().check(&ambiguous));
}

#[test]
fn a_three_way_ambiguity_is_one_group_of_three() {
    let mut world = Mounted::new();

    let ids: Vec<u32> = (0..3).map(|_| world.spawn(FrameOrder::mesh())).collect();

    let (_, ambiguous) = world.record_order();
    assert_eq!(ambiguous.len(), 1, "one group, not pairs");
    assert_eq!(ambiguous[0].1, ids);
}

#[test]
fn mount_indices_are_monotonic() {
    let mut world = Mounted::new();

    let indices: Vec<u64> = (0..3)
        .map(|_| {
            let entity = world.spawn(FrameOrder::mesh());
            world.source(entity).mount_index()
        })
        .collect();
    assert_eq!(indices, vec![0, 1, 2]);
}

#[test]
fn a_world_without_a_counter_mounts_at_zero() {
    assert_eq!(next_mount_index(None), 0);
    let source = spawn_source(None, RecordingSource::new(FrameOrder(7)));
    assert_eq!(source.mount_index(), 0);
    assert_eq!(source.order(), FrameOrder(7));
}

#[test]
fn equal_entries_keep_the_order_they_came_in() {
    let entry = |order, mount_index, entity| SourceEntry {
        order: FrameOrder(order),
        mount_index,
        entity,
    };
    let rows = vec![
        entry(5, 0, 'a'),
        entry(-3, 9, 'b'),
        entry(5, 0, 'c'),
        entry(i32::MIN, u64::MAX, 'd'),
        entry(5, 1, 'e'),
        entry(-3, 2, 'f'),
    ];
    let (order, ambiguous) = record_order(&rows);
    assert_eq!(order, ['d', 'f', 'b', 'a', 'c', 'e']);
    assert_eq!(
        ambiguous,
        [
            (FrameOrder(-3), vec!['f', 'b']),
            (FrameOrder(5), vec!['a', 'c', 'e']),
        ]
    );
}

#[test]
fn a_resolved_order_replaces_the_last_one() {
    let mut order = SourceOrder::empty();
    assert!(order.entities().is_empty());
    let mut world = Mounted::new();
    let overlay = world.spawn(FrameOrder::overlay());
    let mesh = world.spawn(FrameOrder::mesh());
    order.resolve(&world.entries());
    assert_eq!(*order.entities(), [mesh, overlay]);
    assert!(order.ambiguous().is_empty());
    world.source(overlay).set_order(Some(FrameOrder::mesh()));
    order.resolve(&world.entries());
    assert_eq!(*order.ambiguous(), [(FrameOrder::mesh(), vec![overlay, mesh])]);
}

#[test]
fn the_wrapped_source_stays_reachable() {
    fn is_any<S: AnySource>(_: &S) {}
    let mut source = Source::new(RecordingSource::new(FrameOrder::mesh()));
    is_any(source.source());
    source.source_mut().built += 1;
    source.source_mut().order = FrameOrder(3);
    assert_eq!(source.source().built, 1);
    assert_eq!(source.order(), FrameOrder(3));
}

#[test]
fn a_target_slot_holds_the_last_target_written() {
    let target = FrameTarget {
        surface: 'k',
        width: 640,
        height: 480,
    };
    let mut slot = FrameTargetSlot::empty();
    assert_eq!(frame_target(Some(&slot)), None);
    assert!(set_frame_target(Some(&mut slot), target));
    assert_eq!(frame_target(Some(&slot)), Some(target));
    assert!(unset_frame_target(Some(&mut slot)));
    assert_eq!(frame_target(Some(&slot)), None);
    assert!(!set_frame_target(None, target));
    assert!(!unset_frame_target::<char>(None));
    assert_eq!(frame_target::<char>(None), None);
}
