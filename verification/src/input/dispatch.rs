//! Where each event of a frame is delivered, and in what order.

use vstd::prelude::*;

use super::{InputEvent, InputState};

verus! {

/// The behaviour components an event can be delivered to.
#[derive(Clone, Copy, Debug, PartialEq, Eq, Structural)]
pub enum Behaviour {
    /// Runs for every input event, whatever its category.
    OnInput,
    /// Runs for every [`KeyEvent`](super::KeyEvent).
    OnKey,
    /// Runs for every [`MouseEvent`](super::MouseEvent).
    OnMouse,
    /// Runs for every [`PointerEvent`](super::PointerEvent), whatever device produced it.
    OnPointer,
    /// Runs for every [`TouchEvent`](super::TouchEvent).
    OnTouch,
    /// Runs for every [`TextEvent`](super::TextEvent).
    OnText,
    /// Runs for every [`ImeEvent`](super::ImeEvent).
    OnIme,
}

/// The entities that carry each behaviour component, in the order the world
/// yields them.
pub struct Behaviours<E> {
    /// The entities with an `OnInput`.
    pub on_input: Vec<E>,
    /// The entities with an `OnKey`.
    pub on_key: Vec<E>,
    /// The entities with an `OnMouse`.
    pub on_mouse: Vec<E>,
    /// The entities with an `OnPointer`.
    pub on_pointer: Vec<E>,
    /// The entities with an `OnTouch`.
    pub on_touch: Vec<E>,
    /// The entities with an `OnText`.
    pub on_text: Vec<E>,
    /// The entities with an `OnIme`.
    pub on_ime: Vec<E>,
}

impl<E> Behaviours<E> {
    /// The entities that carry `behaviour`.
    pub open spec fn carriers(self, behaviour: Behaviour) -> Seq<E> {
        match behaviour {
            Behaviour::OnInput => self.on_input@,
            Behaviour::OnKey => self.on_key@,
            Behaviour::OnMouse => self.on_mouse@,
            Behaviour::OnPointer => self.on_pointer@,
            Behaviour::OnTouch => self.on_touch@,
            Behaviour::OnText => self.on_text@,
            Behaviour::OnIme => self.on_ime@,
        }
    }
}

/// One call of a behaviour: which event of the frame goes to which behaviour
/// component on which entity.
#[derive(Clone, Copy, Debug, PartialEq, Eq)]
pub struct Delivery<E> {
    /// The event's index in the frame's list.
    pub event: usize,
    /// The component that receives it.
    pub behaviour: Behaviour,
    /// The entity the component sits on.
    pub entity: E,
}

/// The behaviour of an event's own category, or `None` for the events only the
/// catch-all hears.
pub open spec fn category(event: InputEvent) -> Option<Behaviour> {
    match event {
        InputEvent::Key(_) => Some(Behaviour::OnKey),
        InputEvent::Mouse(_) => Some(Behaviour::OnMouse),
        InputEvent::Pointer(_) => Some(Behaviour::OnPointer),
        InputEvent::Touch(_) => Some(Behaviour::OnTouch),
        InputEvent::Text(_) => Some(Behaviour::OnText),
        InputEvent::Ime(_) => Some(Behaviour::OnIme),
        InputEvent::ModifiersChanged(_) | InputEvent::FocusChanged(_) => None,
    }
}

/// The delivery of one event to every entity that carries one behaviour.
pub open spec fn deliveries<E>(event: nat, behaviour: Behaviour, entities: Seq<E>) -> Seq<
    Delivery<E>,
> {
    Seq::new(
        entities.len(),
        |i: int| Delivery { event: event as usize, behaviour, entity: entities[i] },
    )
}

/// The deliveries of the event at index `at`: first its category's behaviour,
/// then the catch-all.
pub open spec fn event_deliveries<E>(
    at: nat,
    event: InputEvent,
    behaviours: Behaviours<E>,
) -> Seq<Delivery<E>> {
    (match category(event) {
        Some(behaviour) => deliveries(at, behaviour, behaviours.carriers(behaviour)),
        None => Seq::empty(),
    }) + deliveries(at, Behaviour::OnInput, behaviours.carriers(Behaviour::OnInput))
}

/// The deliveries of a frame's events, in the order the events arrived.
pub open spec fn frame_deliveries<E>(
    events: Seq<InputEvent>,
    behaviours: Behaviours<E>,
) -> Seq<Delivery<E>>
    decreases events.len(),
{
    if events.len() == 0 {
        Seq::empty()
    } else {
        frame_deliveries(events.drop_last(), behaviours) + event_deliveries(
            (events.len() - 1) as nat,
            events.last(),
            behaviours,
        )
    }
}

/// What a dispatch does.
pub struct Dispatch<E> {
    /// Whether any event was delivered, so a caller can skip applying the
    /// structural changes an empty dispatch cannot have queued.
    pub delivered: bool,
    /// The calls to make, first to last.
    pub deliveries: Vec<Delivery<E>>,
}

/// Append the delivery of one event to every entity that carries one
/// behaviour.
fn deliver<E: Copy>(
    plan: &mut Vec<Delivery<E>>,
    event: usize,
    behaviour: Behaviour,
    entities: &Vec<E>,
)
    ensures
        final(plan)@ == old(plan)@ + deliveries(event as nat, behaviour, entities@),
{
    let ghost before = plan@;
    let mut i: usize = 0;
    while i < entities.len()
        invariant
            i <= entities.len(),
            plan@ == before + deliveries(event as nat, behaviour, entities@).take(i as int),
        decreases entities.len() - i,
    {
        plan.push(Delivery { event, behaviour, entity: entities[i] });
        i = i + 1;
        assert(plan@ =~= before + deliveries(event as nat, behaviour, entities@).take(i as int));
    }
    assert(plan@ =~= before + deliveries(event as nat, behaviour, entities@));
}

/// Lay out the behaviour calls for each event of the frame.
///
/// Each event goes to its category's behaviour component and, in addition, to
/// every `OnInput`. With no [`InputState`] in the world there is nothing to
/// deliver, and that is not an error.
pub fn dispatch_input<E: Copy>(state: Option<&InputState>, behaviours: &Behaviours<E>) -> (dispatch:
    Dispatch<E>)
    ensures
        dispatch.delivered == (state matches Some(state) && state@.events.len() > 0),
        dispatch.deliveries@.len() > 0 ==> dispatch.delivered,
        dispatch.deliveries@ == match state {
            Some(state) => frame_deliveries(state@.events, *behaviours),
            None => Seq::empty(),
        },
{
    let mut plan: Vec<Delivery<E>> = Vec::new();
    let state = match state {
        Some(state) => state,
        None => {
            return Dispatch { delivered: false, deliveries: plan };
        },
    };
    let events = state.events();
    let mut i: usize = 0;
    assert(events@.take(0) =~= Seq::empty());
    while i < events.len()
        invariant
            i <= events.len(),
            plan@ == frame_deliveries(events@.take(i as int), *behaviours),
        decreases events.len() - i,
    {
        proof {
            let next = events@.take(i + 1);
            assert(next.drop_last() =~= events@.take(i as int));
            assert(next.last() == events@[i as int]);
            assert(plan@ + Seq::<Delivery<E>>::empty() =~= plan@);
        }
        let ghost before = plan@;
        match &events[i] {
            InputEvent::Key(_) => deliver(&mut plan, i, Behaviour::OnKey, &behaviours.on_key),
            InputEvent::Mouse(_) => deliver(&mut plan, i, Behaviour::OnMouse, &behaviours.on_mouse),
            InputEvent::Pointer(_) => deliver(
                &mut plan,
                i,
                Behaviour::OnPointer,
                &behaviours.on_pointer,
            ),
            InputEvent::Touch(_) => deliver(&mut plan, i, Behaviour::OnTouch, &behaviours.on_touch),
            InputEvent::Text(_) => deliver(&mut plan, i, Behaviour::OnText, &behaviours.on_text),
            InputEvent::Ime(_) => deliver(&mut plan, i, Behaviour::OnIme, &behaviours.on_ime),
            // These two carry no payload to route, so only the catch-all hears
            // them.
            InputEvent::ModifiersChanged(_) => {},
            InputEvent::FocusChanged(_) => {},
        }
        deliver(&mut plan, i, Behaviour::OnInput, &behaviours.on_input);
        assert(plan@ =~= before + event_deliveries(i as nat, events@[i as int], *behaviours));
        i = i + 1;
    }
    assert(events@.take(i as int) =~= events@);
    Dispatch { delivered: events.len() > 0, deliveries: plan }
}

/// Whether `delivery` is one the frame owes: an event of the frame, to the
/// behaviour of its category or to the catch-all, on an entity that carries it.
pub open spec fn is_owed<E>(
    delivery: Delivery<E>,
    events: Seq<InputEvent>,
    behaviours: Behaviours<E>,
) -> bool {
    &&& delivery.event < events.len()
    &&& delivery.behaviour == Behaviour::OnInput || category(events[delivery.event as int]) == Some(
        delivery.behaviour,
    )
    &&& behaviours.carriers(delivery.behaviour).contains(delivery.entity)
}

/// A dispatch makes exactly the calls the frame owes: every event reaches its
/// category's behaviour and every catch-all, on every entity that carries
/// them, and no other call is made.
pub proof fn law_every_event_reaches_its_listeners<E>(
    events: Seq<InputEvent>,
    behaviours: Behaviours<E>,
    delivery: Delivery<E>,
)
    requires
        events.len() <= usize::MAX,
    ensures
        frame_deliveries(events, behaviours).contains(delivery) <==> is_owed(
            delivery,
            events,
            behaviours,
        ),
    decreases events.len(),
{
    if events.len() > 0 {
        let rest = events.drop_last();
        let at = (events.len() - 1) as nat;
        let before = frame_deliveries(rest, behaviours);
        let routed = match category(events.last()) {
            Some(behaviour) => deliveries(at, behaviour, behaviours.carriers(behaviour)),
            None => Seq::empty(),
        };
        let caught = deliveries(
            at,
            Behaviour::OnInput,
            behaviours.carriers(Behaviour::OnInput),
        );
        let all = frame_deliveries(events, behaviours);
        law_every_event_reaches_its_listeners(rest, behaviours, delivery);
        assert(all == before + (routed + caught));
        if all.contains(delivery) {
            let i = choose|i: int| 0 <= i < all.len() && all[i] == delivery;
            if i < before.len() {
                assert(before[i] == delivery);
                assert(before.contains(delivery));
                assert(rest[delivery.event as int] == events[delivery.event as int]);
            } else if i < before.len() + routed.len() {
                assert(routed[i - before.len()] == delivery);
                assert(behaviours.carriers(delivery.behaviour)[i - before.len()]
                    == delivery.entity);
            } else {
                let j = i - before.len() - routed.len();
                assert(caught[j] == delivery);
                assert(behaviours.carriers(delivery.behaviour)[j] == delivery.entity);
            }
        }
        if is_owed(delivery, events, behaviours) {
            let carriers = behaviours.carriers(delivery.behaviour);
            let k = choose|k: int| 0 <= k < carriers.len() && carriers[k] == delivery.entity;
            if delivery.event < rest.len() {
                assert(rest[delivery.event as int] == events[delivery.event as int]);
                let i = choose|i: int| 0 <= i < before.len() && before[i] == delivery;
                assert(all[i] == delivery);
            } else if delivery.behaviour == Behaviour::OnInput {
                assert(caught[k] == delivery);
                assert(all[before.len() + routed.len() + k] == delivery);
            } else {
                assert(routed[k] == delivery);
                assert(all[before.len() + k] == delivery);
            }
        }
    }
}

/// Deliveries keep the order of the events, and within one event the
/// category's behaviour runs before the catch-all.
pub proof fn law_deliveries_follow_the_events<E>(
    events: Seq<InputEvent>,
    behaviours: Behaviours<E>,
    i: int,
    j: int,
)
    requires
        events.len() <= usize::MAX,
        0 <= i < j < frame_deliveries(events, behaviours).len(),
    ensures
        frame_deliveries(events, behaviours)[i].event <= frame_deliveries(
            events,
            behaviours,
        )[j].event,
        frame_deliveries(events, behaviours)[i].event == frame_deliveries(
            events,
            behaviours,
        )[j].event && frame_deliveries(events, behaviours)[i].behaviour == Behaviour::OnInput
            ==> frame_deliveries(events, behaviours)[j].behaviour == Behaviour::OnInput,
    decreases events.len(),
{
    if events.len() > 0 {
        let rest = events.drop_last();
        let before = frame_deliveries(rest, behaviours);
        let all = frame_deliveries(events, behaviours);
        if j < before.len() {
            law_deliveries_follow_the_events(rest, behaviours, i, j);
        } else if i < before.len() {
            assert(before.contains(before[i]));
            law_every_event_reaches_its_listeners(rest, behaviours, before[i]);
            assert(all[i] == before[i]);
        }
    }
}

/// How many of `plan` call `behaviour`.
pub open spec fn calls<E>(plan: Seq<Delivery<E>>, behaviour: Behaviour) -> nat
    decreases plan.len(),
{
    if plan.len() == 0 {
        0
    } else {
        calls(plan.drop_last(), behaviour) + if plan.last().behaviour == behaviour {
            1nat
        } else {
            0
        }
    }
}

/// The calls of a concatenation are those of its parts.
proof fn lemma_calls_add<E>(a: Seq<Delivery<E>>, b: Seq<Delivery<E>>, behaviour: Behaviour)
    ensures
        calls(a + b, behaviour) == calls(a, behaviour) + calls(b, behaviour),
    decreases b.len(),
{
    if b.len() == 0 {
        assert(a + b =~= a);
    } else {
        assert((a + b).drop_last() =~= a + b.drop_last());
        lemma_calls_add(a, b.drop_last(), behaviour);
    }
}

/// Every entity that carries a behaviour is called once per delivered event.
proof fn lemma_calls_deliveries<E>(
    event: nat,
    behaviour: Behaviour,
    entities: Seq<E>,
    counted: Behaviour,
)
    ensures
        calls(deliveries(event, behaviour, entities), counted) == if behaviour == counted {
            entities.len()
        } else {
            0
        },
    decreases entities.len(),
{
    if entities.len() > 0 {
        let rest = entities.drop_last();
        assert(deliveries(event, behaviour, entities).drop_last() =~= deliveries(
            event,
            behaviour,
            rest,
        ));
        lemma_calls_deliveries(event, behaviour, rest, counted);
    }
}

/// The catch-all hears each event of the frame exactly once on every entity
/// that carries it.
pub proof fn law_the_catch_all_hears_every_event<E>(
    events: Seq<InputEvent>,
    behaviours: Behaviours<E>,
)
    ensures
        calls(frame_deliveries(events, behaviours), Behaviour::OnInput) == events.len()
            * behaviours.on_input@.len(),
    decreases events.len(),
{
    let listeners = behaviours.on_input@.len();
    if events.len() == 0 {
        assert(0 * listeners == 0) by (nonlinear_arith);
    } else {
        let rest = events.drop_last();
        let at = (events.len() - 1) as nat;
        let routed = match category(events.last()) {
            Some(behaviour) => deliveries(at, behaviour, behaviours.carriers(behaviour)),
            None => Seq::empty(),
        };
        let caught = deliveries(
            at,
            Behaviour::OnInput,
            behaviours.carriers(Behaviour::OnInput),
        );
        law_the_catch_all_hears_every_event(rest, behaviours);
        lemma_calls_add(routed, caught, Behaviour::OnInput);
        lemma_calls_add(frame_deliveries(rest, behaviours), routed + caught, Behaviour::OnInput);
        if let Some(behaviour) = category(events.last()) {
            lemma_calls_deliveries(
                at,
                behaviour,
                behaviours.carriers(behaviour),
                Behaviour::OnInput,
            );
        }
        lemma_calls_deliveries(
            at,
            Behaviour::OnInput,
            behaviours.carriers(Behaviour::OnInput),
            Behaviour::OnInput,
        );
        assert(events.len() * listeners == (events.len() - 1) * listeners + listeners)
            by (nonlinear_arith)
            requires
                events.len() > 0,
        ;
    }
}

/// A behaviour hears its own kind of event and no other: keys go to `OnKey`,
/// mouse events to `OnMouse` and so on, on exactly the entities that carry the
/// component, and `OnInput` hears everything.
pub proof fn law_a_behaviour_hears_its_own_kind<E>(
    events: Seq<InputEvent>,
    behaviours: Behaviours<E>,
    delivery: Delivery<E>,
)
    requires
        events.len() <= usize::MAX,
        delivery.event < events.len(),
    ensures
        ({
            let made = frame_deliveries(events, behaviours).contains(delivery);
            let event = events[delivery.event as int];
            let entity = delivery.entity;
            match delivery.behaviour {
                Behaviour::OnInput => made <==> behaviours.on_input@.contains(entity),
                Behaviour::OnKey => made <==> event is Key && behaviours.on_key@.contains(entity),
                Behaviour::OnMouse => made <==> event is Mouse && behaviours.on_mouse@.contains(
                    entity,
                ),
                Behaviour::OnPointer => made <==> event is Pointer
                    && behaviours.on_pointer@.contains(entity),
                Behaviour::OnTouch => made <==> event is Touch && behaviours.on_touch@.contains(
                    entity,
                ),
                Behaviour::OnText => made <==> event is Text && behaviours.on_text@.contains(entity),
                Behaviour::OnIme => made <==> event is Ime && behaviours.on_ime@.contains(entity),
            }
        }),
{
    law_every_event_reaches_its_listeners(events, behaviours, delivery);
}

/// The entities that hear an event through the behaviour of its own kind.
pub open spec fn listeners<E>(event: InputEvent, behaviours: Behaviours<E>) -> Seq<E> {
    if event is Key {
        behaviours.on_key@
    } else if event is Mouse {
        behaviours.on_mouse@
    } else if event is Pointer {
        behaviours.on_pointer@
    } else if event is Touch {
        behaviours.on_touch@
    } else if event is Text {
        behaviours.on_text@
    } else if event is Ime {
        behaviours.on_ime@
    } else {
        Seq::empty()
    }
}

/// One more event adds its own calls after those of the events before it, and
/// changes none of those: one call per listener of its kind, in the order the
/// world yields them, then one per catch-all, in that order too.
pub proof fn law_an_event_adds_its_own_calls<E>(
    events: Seq<InputEvent>,
    event: InputEvent,
    behaviours: Behaviours<E>,
    k: int,
)
    requires
        events.len() < usize::MAX,
    ensures
        ({
            let before = frame_deliveries(events, behaviours);
            let all = frame_deliveries(events.push(event), behaviours);
            let own = listeners(event, behaviours);
            let caught = behaviours.on_input@;
            let at = before.len() as int;
            &&& all.len() == before.len() + own.len() + caught.len()
            &&& 0 <= k < before.len() ==> all[k] == before[k]
            &&& 0 <= k < own.len() ==> all[at + k].entity == own[k] && all[at + k].event
                == events.len() && all[at + k].behaviour != Behaviour::OnInput
            &&& 0 <= k < caught.len() ==> all[at + own.len() + k].entity == caught[k] && all[at
                + own.len() + k].event == events.len() && all[at + own.len() + k].behaviour
                == Behaviour::OnInput
        }),
{
    assert(events.push(event).drop_last() =~= events);
    let routed = match category(event) {
        Some(behaviour) => deliveries(events.len(), behaviour, behaviours.carriers(behaviour)),
        None => Seq::empty(),
    };
    assert(routed.len() == listeners(event, behaviours).len());
}

} // verus!
