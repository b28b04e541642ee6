//! The input state machine and the dispatch of its events.

use unlit3d::input::{
    dispatch_input, Behaviour, Behaviours, Delivery, ImeEvent, ImeKind, InputEvent, InputState,
    Key, KeyEvent, Modifiers, MouseButton, MouseButtons, MouseEvent, PointerAction,
    PointerContact, PointerEvent, PointerKind, TextEvent, TouchEvent, TouchPhase, WheelUnit,
};
use unlit3d::scalar::{Position, Scalar};

fn scalar(value: f32) -> Scalar {
    Scalar(value.to_bits())
}

fn at(x: f32, y: f32) -> Position {
    [scalar(x), scalar(y)]
}

/// A pointer position used where a test only needs one that is not the origin.
fn cursor() -> Position {
    at(3.0, 4.0)
}

fn bit(bits: u8) -> MouseButtons {
    MouseButtons::of_bits(bits)
}

fn key_event(key: Key) -> InputEvent {
    InputEvent::Key(KeyEvent {
        key,
        pressed: true,
        repeat: false,
        modifiers: Modifiers::default(),
    })
}

fn mouse_event() -> InputEvent {
    InputEvent::Mouse(MouseEvent::Moved { position: cursor() })
}

fn pointer_event() -> InputEvent {
    pointer(PointerKind::Mouse, 0, PointerAction::Moved, Some(cursor()))
}

fn touch_event() -> InputEvent {
    InputEvent::Touch(TouchEvent {
        id: 1,
        phase: TouchPhase::Started,
        position: cursor(),
        force: None,
    })
}

fn text_event() -> InputEvent {
    InputEvent::Text(TextEvent("hi".to_owned()))
}

fn ime_event() -> InputEvent {
    InputEvent::Ime(ImeEvent {
        kind: ImeKind::Commit("hi".to_owned()),
    })
}

fn pointer(
    kind: PointerKind,
    id: u64,
    action: PointerAction,
    position: Option<Position>,
) -> InputEvent {
    InputEvent::Pointer(PointerEvent {
        kind,
        id,
        action,
        position,
        modifiers: Modifiers::default(),
    })
}

fn button(button: MouseButton, pressed: bool) -> InputEvent {
    InputEvent::Mouse(MouseEvent::Button {
        position: cursor(),
        button,
        pressed,
        modifiers: Modifiers::default(),
    })
}

fn touch(id: u64, phase: TouchPhase, position: Position) -> InputEvent {
    InputEvent::Touch(TouchEvent {
        id,
        phase,
        position,
        force: None,
    })
}

/// Nobody carries any behaviour.
fn nobody() -> Behaviours<u32> {
    Behaviours {
        on_input: vec![],
        on_key: vec![],
        on_mouse: vec![],
        on_pointer: vec![],
        on_touch: vec![],
        on_text: vec![],
        on_ime: vec![],
    }
}

fn count(deliveries: &[Delivery<u32>], behaviour: Behaviour) -> usize {
    deliveries.iter().filter(|d| d.behaviour == behaviour).count()
}

#[test]
fn each_event_reaches_its_category_and_every_on_input() {
    let behaviours = Behaviours {
        on_input: vec![1],
        on_key: vec![2],
        on_mouse: vec![3],
        on_pointer: vec![4],
        on_touch: vec![5],
        on_text: vec![6],
        on_ime: vec![7],
    };
    let events = [
        key_event(Key::W),
        mouse_event(),
        pointer_event(),
        touch_event(),
        text_event(),
        ime_event(),
        InputEvent::ModifiersChanged(Modifiers {
            ctrl: true,
            ..Modifiers::default()
        }),
        InputEvent::FocusChanged(false),
    ];
    let event_count = events.len();
    let mut state = InputState::default();
    for event in events {
        state.push(event);
    }

    let dispatch = dispatch_input(Some(&state), &behaviours);
    assert!(dispatch.delivered, "events were delivered");

    let plan = &dispatch.deliveries;
    assert_eq!(count(plan, Behaviour::OnInput), event_count, "OnInput hears every event");
    assert_eq!(count(plan, Behaviour::OnKey), 1, "OnKey hears only the key event");
    assert_eq!(count(plan, Behaviour::OnMouse), 1, "OnMouse hears only the mouse event");
    assert_eq!(count(plan, Behaviour::OnPointer), 1);
    assert_eq!(count(plan, Behaviour::OnTouch), 1);
    assert_eq!(count(plan, Behaviour::OnText), 1);
    assert_eq!(count(plan, Behaviour::OnIme), 1);
}

#[test]
fn one_entity_carries_on_key_and_on_input_together() {
    let behaviours = Behaviours {
        on_input: vec![1],
        on_key: vec![1],
        ..nobody()
    };
    let mut state = InputState::default();
    state.push(key_event(Key::A));
    state.push(mouse_event());

    let plan = dispatch_input(Some(&state), &behaviours).deliveries;

    assert_eq!(count(&plan, Behaviour::OnKey), 1);
    assert_eq!(count(&plan, Behaviour::OnInput), 2);
}

#[test]
fn one_behaviour_serves_every_entity_carrying_it() {
    let behaviours = Behaviours {
        on_key: vec![10, 11, 12],
        ..nobody()
    };
    let mut state = InputState::default();
    state.push(key_event(Key::A));

    let plan = dispatch_input(Some(&state), &behaviours).deliveries;

    assert_eq!(count(&plan, Behaviour::OnKey), 3, "one key event per behaviour");
}

#[test]
fn a_callback_sees_the_entity_it_sits_on() {
    let behaviours = Behaviours {
        on_key: vec![7, 9],
        ..nobody()
    };
    let mut state = InputState::default();
    state.push(key_event(Key::A));

    let plan = dispatch_input(Some(&state), &behaviours).deliveries;

    assert_eq!(
        plan,
        [
            Delivery {
                event: 0,
                behaviour: Behaviour::OnKey,
                entity: 7,
            },
            Delivery {
                event: 0,
                behaviour: Behaviour::OnKey,
                entity: 9,
            },
        ]
    );
}

#[test]
fn an_empty_event_list_delivers_nothing() {
    let behaviours = Behaviours {
        on_input: vec![1],
        ..nobody()
    };
    let dispatch = dispatch_input(Some(&InputState::default()), &behaviours);

    assert!(!dispatch.delivered);
    assert_eq!(dispatch.deliveries.len(), 0);
}

#[test]
fn no_input_state_resource_is_not_an_error() {
    let behaviours = Behaviours {
        on_input: vec![1],
        ..nobody()
    };
    let dispatch = dispatch_input(None, &behaviours);

    assert!(!dispatch.delivered);
    assert_eq!(dispatch.deliveries.len(), 0);
}

#[test]
fn events_without_behaviours_are_delivered_to_nobody() {
    let mut state = InputState::default();
    state.push(key_event(Key::A));

    // Events did arrive, so the caller still owes an `apply`.
    let dispatch = dispatch_input(Some(&state), &nobody());
    assert!(dispatch.delivered);
    assert!(dispatch.deliveries.is_empty());
}

#[test]
fn deliveries_keep_event_order_with_the_category_first() {
    let behaviours = Behaviours {
        on_input: vec![1],
        on_key: vec![2],
        ..nobody()
    };
    let mut state = InputState::default();
    state.push(InputEvent::FocusChanged(true));
    state.push(key_event(Key::A));

    let plan = dispatch_input(Some(&state), &behaviours).deliveries;
    let order: Vec<(usize, Behaviour)> = plan.iter().map(|d| (d.event, d.behaviour)).collect();
    assert_eq!(
        order,
        [
            (0, Behaviour::OnInput),
            (1, Behaviour::OnKey),
            (1, Behaviour::OnInput),
        ]
    );
}

#[test]
fn push_updates_the_state_and_keeps_the_event() {
    let mut state = InputState::default();

    state.push(InputEvent::ModifiersChanged(Modifiers {
        shift: true,
        ..Modifiers::default()
    }));
    state.push(InputEvent::FocusChanged(false));
    state.push(InputEvent::Mouse(MouseEvent::Moved { position: cursor() }));
    state.push(button(MouseButton::Primary, true));
    state.push(pointer(
        PointerKind::Mouse,
        0,
        PointerAction::Pressed,
        Some(cursor()),
    ));
    state.push(InputEvent::Touch(TouchEvent {
        id: 7,
        phase: TouchPhase::Started,
        position: cursor(),
        force: Some(scalar(0.5)),
    }));

    assert_eq!(state.events().len(), 6);
    assert!(state.modifiers.shift);
    assert!(!state.focused);
    assert_eq!(state.cursor, Some(cursor()));
    assert!(state.buttons.contains(bit(MouseButtons::PRIMARY)));
    assert_eq!(state.pointer, Some(cursor()));
    assert!(state.pointer_down);
    assert_eq!(state.touches, [(7, cursor())]);

    // An unnamed button has no bit to occupy, but its event is still
    // delivered.
    state.push(button(MouseButton::Other(9), true));
    assert_eq!(state.buttons.held().len(), 1);

    // Releasing clears the bit; ending the touch drops it from the active
    // set.
    state.push(button(MouseButton::Primary, false));
    state.push(pointer(
        PointerKind::Mouse,
        0,
        PointerAction::Released { cancelled: false },
        Some(cursor()),
    ));
    state.push(InputEvent::Mouse(MouseEvent::Left));
    state.push(pointer(PointerKind::Mouse, 0, PointerAction::Left, None));
    state.push(touch(7, TouchPhase::Moved, at(1.0, 2.0)));
    assert!(state.buttons.is_empty());
    assert!(!state.pointer_down);
    assert_eq!(state.cursor, None);
    assert_eq!(state.pointer, None);
    assert_eq!(state.touches, [(7, at(1.0, 2.0))], "moved, not duplicated");

    state.push(touch(7, TouchPhase::Ended, at(1.0, 2.0)));
    assert!(state.touches.is_empty());
    assert_eq!(state.buttons.held().len(), 0);
}

#[test]
fn a_pointer_down_state_is_device_agnostic() {
    let mut state = InputState::default();

    state.push(pointer(
        PointerKind::Touch,
        1,
        PointerAction::Pressed,
        Some(cursor()),
    ));

    assert!(state.pointer_down);
    assert_eq!(state.pointer, Some(cursor()));
    assert!(state.buttons.is_empty(), "a touch is not a mouse button being held");
    assert_eq!(state.cursor, None, "a touch does not move the mouse");

    state.push(pointer(
        PointerKind::Touch,
        1,
        PointerAction::Released { cancelled: true },
        None,
    ));
    assert!(!state.pointer_down, "a cancelled pointer is no longer down");
}

#[test]
fn two_fingers_are_two_pointers() {
    let mut state = InputState::default();
    let press = |id, position| {
        pointer(PointerKind::Touch, id, PointerAction::Pressed, Some(position))
    };

    state.push(press(1, at(10.0, 10.0)));
    state.push(press(2, at(40.0, 10.0)));
    assert_eq!(
        state.pointers,
        [
            PointerContact {
                kind: PointerKind::Touch,
                id: 1,
                position: at(10.0, 10.0),
            },
            PointerContact {
                kind: PointerKind::Touch,
                id: 2,
                position: at(40.0, 10.0),
            },
        ],
        "both contacts are tracked, in the order they went down"
    );

    // Moving one finger moves only its own contact.
    state.push(pointer(
        PointerKind::Touch,
        2,
        PointerAction::Moved,
        Some(at(50.0, 10.0)),
    ));
    assert_eq!(state.pointers[0].position, at(10.0, 10.0), "the other stays");
    assert_eq!(state.pointers[1].position, at(50.0, 10.0));
    assert_eq!(state.pointer, Some(at(50.0, 10.0)), "the latest move is it");

    // Lifting one leaves the other down.
    state.push(pointer(
        PointerKind::Touch,
        1,
        PointerAction::Released { cancelled: false },
        Some(at(10.0, 10.0)),
    ));
    assert!(state.pointer_down, "one finger is still on the screen");
    assert_eq!(state.pointers.len(), 1);
    assert_eq!(state.pointers[0].id, 2);

    state.push(pointer(
        PointerKind::Touch,
        2,
        PointerAction::Released { cancelled: false },
        Some(at(50.0, 10.0)),
    ));
    assert!(!state.pointer_down, "the screen is clear again");
    assert!(state.pointers.is_empty());
}

#[test]
fn a_mouse_and_a_finger_can_be_down_at_once() {
    let mut state = InputState::default();
    state.push(pointer(
        PointerKind::Mouse,
        0,
        PointerAction::Pressed,
        Some(at(1.0, 1.0)),
    ));
    state.push(pointer(
        PointerKind::Touch,
        0,
        PointerAction::Pressed,
        Some(at(2.0, 2.0)),
    ));

    assert_eq!(state.pointers.len(), 2, "the same id on two kinds differ");
    assert!(state.pointer_down);

    // Releasing the mouse leaves the finger down.
    state.push(pointer(
        PointerKind::Mouse,
        0,
        PointerAction::Released { cancelled: false },
        Some(at(1.0, 1.0)),
    ));
    assert_eq!(state.pointers.len(), 1);
    assert_eq!(state.pointers[0].kind, PointerKind::Touch);
    assert!(state.pointer_down);
}

#[test]
fn a_hover_does_not_press_a_pointer() {
    let mut state = InputState::default();
    state.push(pointer(
        PointerKind::Mouse,
        0,
        PointerAction::Moved,
        Some(cursor()),
    ));

    assert_eq!(state.pointer, Some(cursor()));
    assert!(!state.pointer_down);
    assert!(state.pointers.is_empty());
}

#[test]
fn a_cancelled_pointer_keeps_the_position_it_was_last_seen_at() {
    let mut state = InputState::default();
    state.push(pointer(
        PointerKind::Touch,
        1,
        PointerAction::Moved,
        Some(cursor()),
    ));
    state.push(pointer(
        PointerKind::Touch,
        1,
        PointerAction::Released { cancelled: true },
        None,
    ));

    assert_eq!(state.pointer, Some(cursor()));
    assert!(!state.pointer_down);
}

#[test]
fn clear_events_keeps_the_state() {
    let mut state = InputState::default();
    state.set_size_px(1280, 720);
    state.set_scale_factor(scalar(2.0));
    state.push(InputEvent::ModifiersChanged(Modifiers {
        alt: true,
        ..Modifiers::default()
    }));
    state.push(InputEvent::FocusChanged(false));
    state.push(InputEvent::Mouse(MouseEvent::Moved { position: cursor() }));
    state.push(button(MouseButton::Secondary, true));

    state.clear_events();

    assert!(state.events().is_empty());
    assert!(state.modifiers.alt);
    assert_eq!(state.cursor, Some(cursor()));
    assert_eq!(state.buttons, bit(MouseButtons::SECONDARY));
    assert!(!state.focused);
    assert_eq!(state.size_px, (1280, 720));
    assert_eq!(state.scale_factor, scalar(2.0));
}

#[test]
fn a_seeded_state_survives_a_dispatch_and_a_clear() {
    let mut state = InputState::default();
    state.set_size_px(800, 600);
    state.set_scale_factor(scalar(1.5));
    state.push(InputEvent::FocusChanged(false));
    state.push(key_event(Key::S));

    assert!(dispatch_input(Some(&state), &nobody()).delivered);
    state.clear_events();

    assert!(state.events().is_empty());
    assert_eq!(state.size_px, (800, 600));
    assert_eq!(state.scale_factor, scalar(1.5));
    assert!(!state.focused);
}

#[test]
fn a_fresh_state_is_focused_and_empty() {
    let state = InputState::default();
    assert!(state.focused);
    assert!(state.events().is_empty());
    assert_eq!(state.modifiers, Modifiers::default());
    assert_eq!(state.pointer, None);
    assert_eq!(state.cursor, None);
    assert!(state.buttons.is_empty());
    assert_eq!(state.size_px, (0, 0));
    assert_eq!(state.scale_factor, scalar(1.0));
}

#[test]
fn a_press_without_a_position_uses_the_last_known_one() {
    let mut state = InputState::default();
    // Nothing is known yet, so there is nowhere to put the contact.
    state.push(pointer(PointerKind::Touch, 4, PointerAction::Pressed, None));
    assert!(state.pointers.is_empty());
    assert!(!state.pointer_down);

    state.set_pointer(Some(at(8.0, 9.0)));
    state.push(pointer(PointerKind::Touch, 4, PointerAction::Pressed, None));
    assert_eq!(state.pointers[0].position, at(8.0, 9.0));
    assert_eq!(state.pointer, Some(at(8.0, 9.0)));

    // Pressing again moves the contact instead of adding a second one.
    state.push(pointer(
        PointerKind::Touch,
        4,
        PointerAction::Pressed,
        Some(at(1.0, 0.0)),
    ));
    assert_eq!(state.pointers.len(), 1);
    assert_eq!(state.pointers[0].position, at(1.0, 0.0));
}

#[test]
fn gestures_and_wheels_leave_the_state_alone() {
    let mut state = InputState::default();
    state.push(pointer(
        PointerKind::Trackpad,
        0,
        PointerAction::Zoom(scalar(1.5)),
        None,
    ));
    state.push(pointer(
        PointerKind::Trackpad,
        0,
        PointerAction::Rotate(scalar(0.5)),
        None,
    ));
    state.push(InputEvent::Mouse(MouseEvent::Wheel {
        delta: at(0.0, 1.0),
        unit: WheelUnit::Page,
        phase: TouchPhase::Moved,
        modifiers: Modifiers::default(),
    }));
    assert_eq!(state.events().len(), 3);
    assert!(state.pointers.is_empty());
    assert_eq!(state.pointer, None);
    assert_eq!(state.cursor, None);
}

#[test]
fn held_lists_the_buttons_in_the_tracked_order() {
    let mut buttons = MouseButtons::empty();
    for (button, bits) in [
        (MouseButton::Forward, MouseButtons::FORWARD),
        (MouseButton::Primary, MouseButtons::PRIMARY),
        (MouseButton::Back, MouseButtons::BACK),
    ] {
        assert_eq!(MouseButtons::bit_of(button), Some(bit(bits)));
        buttons.set(bit(bits), true);
    }
    assert_eq!(
        buttons.held(),
        [
            bit(MouseButtons::PRIMARY),
            bit(MouseButtons::BACK),
            bit(MouseButtons::FORWARD),
        ]
    );
    buttons.set(bit(MouseButtons::BACK), false);
    assert_eq!(buttons.bits, 17);
    assert_eq!(MouseButtons::bit_of(MouseButton::Middle), Some(bit(MouseButtons::MIDDLE)));
    assert_eq!(MouseButtons::bit_of(MouseButton::Other(3)), None);
}

#[test]
fn a_text_event_reads_as_its_text() {
    let event = TextEvent("grün".to_owned());
    assert_eq!(event.chars().count(), 4);
}

#[test]
fn two_touches_are_tracked_one_by_one() {
    let mut state = InputState::default();
    state.push(touch(1, TouchPhase::Started, at(1.0, 1.0)));
    state.push(touch(2, TouchPhase::Started, at(2.0, 2.0)));
    state.push(touch(1, TouchPhase::Moved, at(3.0, 3.0)));
    assert_eq!(state.touches, [(1, at(3.0, 3.0)), (2, at(2.0, 2.0))]);

    state.push(touch(1, TouchPhase::Cancelled, at(4.0, 4.0)));
    assert_eq!(state.touches, [(2, at(2.0, 2.0))]);
}

#[test]
fn a_copied_state_holds_the_same_input() {
    let mut state = InputState::default();
    for event in [
        key_event(Key::Space),
        mouse_event(),
        pointer_event(),
        touch_event(),
        text_event(),
        ime_event(),
        InputEvent::Ime(ImeEvent {
            kind: ImeKind::Preedit {
                text: "ka".to_owned(),
                active_range: Some(0..2),
            },
        }),
        InputEvent::FocusChanged(false),
    ] {
        state.push(event);
    }
    let mut copy = state.clone();
    assert_eq!(copy, state);
    copy.push(InputEvent::FocusChanged(true));
    assert_ne!(copy, state, "the copy has events of its own");
    assert_eq!(state.events().len(), 8);
}
