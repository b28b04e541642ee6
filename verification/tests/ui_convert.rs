//! Input events in egui's terms.

use egui::Event as EguiEvent;
use egui::ImeEvent as EguiImeEvent;
use egui::PointerButton as EguiPointerButton;
use egui::TouchPhase as EguiTouchPhase;
use egui::{MouseWheelUnit, Pos2, TouchDeviceId, TouchId, Vec2};
use unlit3d::input::{
    ImeEvent, ImeKind, InputEvent, Key, KeyEvent, Modifiers, MouseButton, MouseEvent,
    PointerAction, PointerEvent, PointerKind, TextEvent, TouchEvent, TouchPhase, WheelUnit,
};
use unlit3d::scalar::{Position, Scalar};
use unlit3d::ui::convert::{
    bytes_to_chars, to_egui_event, to_egui_events, to_key, to_modifiers, to_pointer_button,
    Points, UiEvent,
};

fn scalar(value: f32) -> Scalar {
    Scalar(value.to_bits())
}

fn number(scalar: Scalar) -> f32 {
    f32::from_bits(scalar.0)
}

fn at(x: f32, y: f32) -> Position {
    [scalar(x), scalar(y)]
}

fn pos(points: Points) -> Pos2 {
    let density = number(points.density);
    Pos2::new(
        number(points.pixels[0]) / density,
        number(points.pixels[1]) / density,
    )
}

/// The egui event a translated event stands for.
fn egui_event(event: UiEvent) -> EguiEvent {
    match event {
        UiEvent::Key {
            key,
            physical_key,
            pressed,
            repeat,
            modifiers,
        } => EguiEvent::Key {
            key,
            physical_key,
            pressed,
            repeat,
            modifiers,
        },
        UiEvent::PointerMoved(points) => EguiEvent::PointerMoved(pos(points)),
        UiEvent::PointerButton {
            pos: points,
            button,
            pressed,
            modifiers,
        } => EguiEvent::PointerButton {
            pos: pos(points),
            button,
            pressed,
            modifiers,
        },
        UiEvent::PointerGone => EguiEvent::PointerGone,
        UiEvent::MouseWheel {
            unit,
            delta,
            phase,
            modifiers,
        } => EguiEvent::MouseWheel {
            unit,
            delta: pos(delta).to_vec2(),
            phase,
            modifiers,
        },
        UiEvent::Zoom(delta) => EguiEvent::Zoom(number(delta)),
        UiEvent::Rotate(delta) => EguiEvent::Rotate(number(delta)),
        UiEvent::Touch {
            device_id,
            id,
            phase,
            pos: points,
            force,
        } => EguiEvent::Touch {
            device_id,
            id,
            phase,
            pos: pos(points),
            force: force.map(number),
        },
        UiEvent::Text(text) => EguiEvent::Text(text),
        UiEvent::Ime(event) => EguiEvent::Ime(event),
        UiEvent::ModifiersChanged(modifiers) => EguiEvent::ModifiersChanged(modifiers),
        UiEvent::WindowFocused(focused) => EguiEvent::WindowFocused(focused),
    }
}

fn at_density(event: InputEvent, density: f32) -> Vec<EguiEvent> {
    to_egui_event(&event, scalar(density))
        .into_iter()
        .map(egui_event)
        .collect()
}

/// One event's translation at a density of one, where points and pixels
/// coincide.
fn at_one(event: InputEvent) -> Vec<EguiEvent> {
    at_density(event, 1.0)
}

fn key(key: Key, pressed: bool) -> InputEvent {
    InputEvent::Key(KeyEvent {
        key,
        pressed,
        repeat: false,
        modifiers: Modifiers::default(),
    })
}

fn gesture(action: PointerAction) -> InputEvent {
    InputEvent::Pointer(PointerEvent {
        kind: PointerKind::Trackpad,
        id: 0,
        action,
        position: None,
        modifiers: Modifiers::default(),
    })
}

#[test]
fn a_key_press_carries_both_readings_of_the_key() {
    let event = at_one(key(Key::W, true));
    assert_eq!(
        event,
        vec![EguiEvent::Key {
            key: egui::Key::W,
            physical_key: Some(egui::Key::W),
            pressed: true,
            repeat: false,
            modifiers: egui::Modifiers::default(),
        }],
        "egui's shortcuts read the logical key and a game control the \
         physical one, so both are filled"
    );
}

#[test]
fn a_key_release_and_repeat_survive_the_translation() {
    let release = at_one(InputEvent::Key(KeyEvent {
        key: Key::Space,
        pressed: false,
        repeat: true,
        modifiers: Modifiers::default(),
    }));
    let EguiEvent::Key {
        pressed, repeat, ..
    } = release[0]
    else {
        panic!("a key event should translate to one egui key event");
    };
    assert!(!pressed && repeat, "both flags belong to egui's own event");
}

#[test]
fn every_named_key_has_a_counterpart() {
    for (key, counterpart) in every_named_key() {
        assert_eq!(to_key(key), Some(counterpart), "{key:?}");
    }
}

#[test]
fn an_unnamed_key_is_dropped_rather_than_misreported() {
    assert!(at_one(key(Key::Other(0x58), true)).is_empty());
}

#[test]
fn an_unnamed_key_is_not_any_named_one() {
    assert!(to_key(Key::Other(4)).is_none());
}

#[test]
fn a_pointer_position_is_converted_to_points() {
    let events = at_density(
        InputEvent::Mouse(MouseEvent::Moved {
            position: at(40.0, 20.0),
        }),
        2.0,
    );
    assert_eq!(
        events,
        vec![EguiEvent::PointerMoved(Pos2::new(20.0, 10.0))],
        "input reports physical pixels and egui lays out in points"
    );
}

#[test]
fn a_pointer_button_keeps_its_position_button_and_state() {
    let events = at_one(InputEvent::Mouse(MouseEvent::Button {
        position: at(10.0, 30.0),
        button: MouseButton::Secondary,
        pressed: true,
        modifiers: Modifiers {
            shift: true,
            ..Modifiers::default()
        },
    }));
    assert_eq!(
        events,
        vec![EguiEvent::PointerButton {
            pos: Pos2::new(10.0, 30.0),
            button: EguiPointerButton::Secondary,
            pressed: true,
            modifiers: egui::Modifiers {
                shift: true,
                ..egui::Modifiers::default()
            },
        }]
    );
}

#[test]
fn every_pointer_button_maps_to_its_own_egui_button() {
    let buttons = [
        (MouseButton::Primary, EguiPointerButton::Primary),
        (MouseButton::Secondary, EguiPointerButton::Secondary),
        (MouseButton::Middle, EguiPointerButton::Middle),
        (MouseButton::Back, EguiPointerButton::Extra1),
        (MouseButton::Forward, EguiPointerButton::Extra2),
    ];
    for (ours, theirs) in buttons {
        assert_eq!(to_pointer_button(ours), Some(theirs));
    }
    // The two side buttons must not collapse onto one.
    assert_ne!(
        to_pointer_button(MouseButton::Back),
        to_pointer_button(MouseButton::Forward)
    );
    assert_eq!(to_pointer_button(MouseButton::Other(7)), None);
}

#[test]
fn an_unnamed_button_is_dropped() {
    let events = at_one(InputEvent::Mouse(MouseEvent::Button {
        position: at(1.0, 1.0),
        button: MouseButton::Other(7),
        pressed: true,
        modifiers: Modifiers::default(),
    }));
    assert!(events.is_empty());
}

#[test]
fn a_pointer_leaving_the_window_becomes_pointer_gone() {
    assert_eq!(
        at_one(InputEvent::Mouse(MouseEvent::Left)),
        vec![EguiEvent::PointerGone]
    );
}

#[test]
fn a_wheel_line_delta_passes_through_unscaled() {
    let wheel = |unit| {
        InputEvent::Mouse(MouseEvent::Wheel {
            delta: at(1.0, -3.0),
            unit,
            phase: TouchPhase::Moved,
            modifiers: Modifiers::default(),
        })
    };
    let expected = |unit| {
        vec![EguiEvent::MouseWheel {
            unit,
            delta: Vec2::new(1.0, -3.0),
            phase: EguiTouchPhase::Move,
            modifiers: egui::Modifiers::default(),
        }]
    };
    assert_eq!(
        at_one(wheel(WheelUnit::Line)),
        expected(MouseWheelUnit::Line)
    );
    assert_eq!(
        at_density(wheel(WheelUnit::Line), 2.0),
        expected(MouseWheelUnit::Line)
    );
    assert_eq!(
        at_density(wheel(WheelUnit::Page), 2.0),
        expected(MouseWheelUnit::Page)
    );
}

#[test]
fn a_wheel_pixel_delta_is_converted_to_points() {
    let events = at_density(
        InputEvent::Mouse(MouseEvent::Wheel {
            delta: at(8.0, -16.0),
            unit: WheelUnit::Pixel,
            phase: TouchPhase::Started,
            modifiers: Modifiers::default(),
        }),
        2.0,
    );
    assert_eq!(
        events,
        vec![EguiEvent::MouseWheel {
            unit: MouseWheelUnit::Point,
            delta: Vec2::new(4.0, -8.0),
            phase: EguiTouchPhase::Start,
            modifiers: egui::Modifiers::default(),
        }],
        "egui measures a point-unit delta in points, so a pixel delta is scaled"
    );
}

#[test]
fn zoom_and_rotate_pass_their_amount_through() {
    assert_eq!(
        at_one(gesture(PointerAction::Zoom(scalar(1.5)))),
        vec![EguiEvent::Zoom(1.5)]
    );
    assert_eq!(
        at_one(gesture(PointerAction::Rotate(scalar(0.5)))),
        vec![EguiEvent::Rotate(0.5)]
    );
}

/// The mouse and the touches report themselves; their device-agnostic half
/// must not press anything a second time.
#[test]
fn pointer_positions_and_presses_do_not_reach_egui_twice() {
    for action in [
        PointerAction::Moved,
        PointerAction::Pressed,
        PointerAction::Released { cancelled: false },
        PointerAction::Left,
    ] {
        assert!(at_one(gesture(action)).is_empty(), "{action:?}");
    }
}

#[test]
fn text_is_forwarded_as_its_own_event() {
    assert_eq!(
        at_one(InputEvent::Text(TextEvent("héllo".to_string()))),
        vec![EguiEvent::Text("héllo".to_string())]
    );
}

#[test]
fn modifiers_are_forwarded_with_command_intact() {
    let modifiers = Modifiers {
        ctrl: true,
        command: true,
        ..Modifiers::default()
    };
    let expected = egui::Modifiers {
        ctrl: true,
        command: true,
        ..egui::Modifiers::default()
    };
    assert_eq!(
        at_one(InputEvent::ModifiersChanged(modifiers)),
        vec![EguiEvent::ModifiersChanged(expected)]
    );
    assert_eq!(to_modifiers(modifiers), expected);
    assert_eq!(egui::Modifiers::from(modifiers), expected);
}

#[test]
fn a_touch_reports_itself_and_the_pointer() {
    let start = at_one(InputEvent::Touch(TouchEvent {
        id: 7,
        phase: TouchPhase::Started,
        position: at(12.0, 24.0),
        force: Some(scalar(0.5)),
    }));
    assert_eq!(
        start,
        vec![
            EguiEvent::Touch {
                device_id: TouchDeviceId(0),
                id: TouchId(7),
                phase: EguiTouchPhase::Start,
                pos: Pos2::new(12.0, 24.0),
                force: Some(0.5),
            },
            EguiEvent::PointerMoved(Pos2::new(12.0, 24.0)),
            EguiEvent::PointerButton {
                pos: Pos2::new(12.0, 24.0),
                button: EguiPointerButton::Primary,
                pressed: true,
                modifiers: egui::Modifiers::default(),
            },
        ],
        "a finger down must also press the pointer, or a tap hits nothing"
    );

    let end = at_one(InputEvent::Touch(TouchEvent {
        id: 7,
        phase: TouchPhase::Ended,
        position: at(12.0, 24.0),
        force: None,
    }));
    assert_eq!(
        end,
        vec![
            EguiEvent::Touch {
                device_id: TouchDeviceId(0),
                id: TouchId(7),
                phase: EguiTouchPhase::End,
                pos: Pos2::new(12.0, 24.0),
                force: None,
            },
            EguiEvent::PointerButton {
                pos: Pos2::new(12.0, 24.0),
                button: EguiPointerButton::Primary,
                pressed: false,
                modifiers: egui::Modifiers::default(),
            },
            EguiEvent::PointerGone,
        ],
        "the release must come before the pointer leaves"
    );
}

#[test]
fn a_moved_touch_only_moves_the_pointer() {
    let events = at_one(InputEvent::Touch(TouchEvent {
        id: 1,
        phase: TouchPhase::Moved,
        position: at(4.0, 5.0),
        force: None,
    }));
    assert_eq!(events.len(), 2, "the touch and one pointer move");
    assert!(matches!(events[1], EguiEvent::PointerMoved(_)));
}

#[test]
fn a_cancelled_touch_also_releases_the_pointer() {
    let events = at_one(InputEvent::Touch(TouchEvent {
        id: 1,
        phase: TouchPhase::Cancelled,
        position: at(1.0, 1.0),
        force: None,
    }));
    assert!(
        matches!(events.last(), Some(EguiEvent::PointerGone)),
        "a cancelled touch is not a hover"
    );
}

#[test]
fn a_preedit_range_is_remeasured_in_characters() {
    // "héllo": `é` is two bytes, so byte offsets and character offsets
    // disagree from there on.
    let text = "héllo";
    let events = at_one(InputEvent::Ime(ImeEvent {
        kind: ImeKind::Preedit {
            text: text.to_string(),
            active_range: Some(1..4),
        },
    }));
    assert_eq!(
        events,
        vec![EguiEvent::Ime(EguiImeEvent::Preedit {
            text: text.to_string(),
            active_range_chars: Some(1..3),
        })],
        "egui counts characters where input counts bytes"
    );
}

#[test]
fn a_preedit_without_a_range_keeps_it_absent() {
    let events = at_one(InputEvent::Ime(ImeEvent {
        kind: ImeKind::Preedit {
            text: "ab".to_string(),
            active_range: None,
        },
    }));
    assert_eq!(
        events,
        vec![EguiEvent::Ime(EguiImeEvent::Preedit {
            text: "ab".to_string(),
            active_range_chars: None,
        })]
    );
}

#[test]
fn byte_ranges_go_to_the_nearest_character_boundary() {
    // One, two, three and four bytes.
    let text = "aé語🦀";
    assert_eq!(bytes_to_chars(text, &(0..10)), 0..4);
    assert_eq!(bytes_to_chars(text, &(1..3)), 1..2);
    assert_eq!(bytes_to_chars(text, &(3..6)), 2..3);
    // Inside a character: the nearer end, and the later one halfway.
    assert_eq!(bytes_to_chars(text, &(2..4)), 2..2);
    assert_eq!(bytes_to_chars(text, &(4..5)), 2..3);
    assert_eq!(bytes_to_chars(text, &(7..9)), 3..4);
    assert_eq!(bytes_to_chars(text, &(7..8)), 3..4);
    assert_eq!(bytes_to_chars("にほん", &(1..4)), 0..1);
    // Past the end.
    assert_eq!(bytes_to_chars(text, &(6..usize::MAX)), 3..4);
    assert_eq!(bytes_to_chars("", &(0..1)), 0..0);
}

#[test]
fn a_commit_and_a_delete_surrounding_reach_egui() {
    assert_eq!(
        at_one(InputEvent::Ime(ImeEvent {
            kind: ImeKind::Commit("done".to_string()),
        })),
        vec![EguiEvent::Ime(EguiImeEvent::Commit("done".to_string()))]
    );
    assert_eq!(
        at_one(InputEvent::Ime(ImeEvent {
            kind: ImeKind::DeleteSurrounding {
                before: 2,
                after: 3,
            },
        })),
        vec![EguiEvent::Ime(EguiImeEvent::DeleteSurrounding {
            before_chars: 2,
            after_chars: 3,
        })]
    );
}

#[test]
fn enabling_and_disabling_the_input_method_produce_nothing() {
    assert!(at_one(InputEvent::Ime(ImeEvent {
        kind: ImeKind::Enabled
    }))
    .is_empty());
    assert!(at_one(InputEvent::Ime(ImeEvent {
        kind: ImeKind::Disabled
    }))
    .is_empty());
}

#[test]
fn focus_changes_reach_egui() {
    assert_eq!(
        at_one(InputEvent::FocusChanged(false)),
        vec![EguiEvent::WindowFocused(false)]
    );
}

#[test]
fn a_frame_keeps_its_event_order() {
    let events = vec![
        InputEvent::Mouse(MouseEvent::Moved {
            position: at(1.0, 1.0),
        }),
        InputEvent::Mouse(MouseEvent::Button {
            position: at(1.0, 1.0),
            button: MouseButton::Primary,
            pressed: true,
            modifiers: Modifiers::default(),
        }),
        InputEvent::Mouse(MouseEvent::Left),
    ];
    let converted: Vec<EguiEvent> = to_egui_events(&events, scalar(1.0))
        .into_iter()
        .map(egui_event)
        .collect();
    assert_eq!(
        converted,
        vec![
            EguiEvent::PointerMoved(Pos2::new(1.0, 1.0)),
            EguiEvent::PointerButton {
                pos: Pos2::new(1.0, 1.0),
                button: EguiPointerButton::Primary,
                pressed: true,
                modifiers: egui::Modifiers::default(),
            },
            EguiEvent::PointerGone,
        ]
    );
}

#[test]
fn an_empty_frame_converts_to_nothing() {
    assert!(to_egui_events(&[], scalar(1.0)).is_empty());
}

/// Every key input names, with the egui key of the same name.
fn every_named_key() -> Vec<(Key, egui::Key)> {
    vec![
        (Key::Escape, egui::Key::Escape),
        (Key::Space, egui::Key::Space),
        (Key::Enter, egui::Key::Enter),
        (Key::Tab, egui::Key::Tab),
        (Key::Backspace, egui::Key::Backspace),
        (Key::Delete, egui::Key::Delete),
        (Key::ArrowUp, egui::Key::ArrowUp),
        (Key::ArrowDown, egui::Key::ArrowDown),
        (Key::ArrowLeft, egui::Key::ArrowLeft),
        (Key::ArrowRight, egui::Key::ArrowRight),
        (Key::Home, egui::Key::Home),
        (Key::End, egui::Key::End),
        (Key::PageUp, egui::Key::PageUp),
        (Key::PageDown, egui::Key::PageDown),
        (Key::A, egui::Key::A),
        (Key::B, egui::Key::B),
        (Key::C, egui::Key::C),
        (Key::D, egui::Key::D),
        (Key::E, egui::Key::E),
        (Key::F, egui::Key::F),
        (Key::G, egui::Key::G),
        (Key::H, egui::Key::H),
        (Key::I, egui::Key::I),
        (Key::J, egui::Key::J),
        (Key::K, egui::Key::K),
        (Key::L, egui::Key::L),
        (Key::M, egui::Key::M),
        (Key::N, egui::Key::N),
        (Key::O, egui::Key::O),
        (Key::P, egui::Key::P),
        (Key::Q, egui::Key::Q),
        (Key::R, egui::Key::R),
        (Key::S, egui::Key::S),
        (Key::T, egui::Key::T),
        (Key::U, egui::Key::U),
        (Key::V, egui::Key::V),
        (Key::W, egui::Key::W),
        (Key::X, egui::Key::X),
        (Key::Y, egui::Key::Y),
        (Key::Z, egui::Key::Z),
        (Key::Num0, egui::Key::Num0),
        (Key::Num1, egui::Key::Num1),
        (Key::Num2, egui::Key::Num2),
        (Key::Num3, egui::Key::Num3),
        (Key::Num4, egui::Key::Num4),
        (Key::Num5, egui::Key::Num5),
        (Key::Num6, egui::Key::Num6),
        (Key::Num7, egui::Key::Num7),
        (Key::Num8, egui::Key::Num8),
        (Key::Num9, egui::Key::Num9),
        (Key::F1, egui::Key::F1),
        (Key::F2, egui::Key::F2),
        (Key::F3, egui::Key::F3),
        (Key::F4, egui::Key::F4),
        (Key::F5, egui::Key::F5),
        (Key::F6, egui::Key::F6),
        (Key::F7, egui::Key::F7),
        (Key::F8, egui::Key::F8),
        (Key::F9, egui::Key::F9),
        (Key::F10, egui::Key::F10),
        (Key::F11, egui::Key::F11),
        (Key::F12, egui::Key::F12),
        (Key::F13, egui::Key::F13),
        (Key::F14, egui::Key::F14),
        (Key::F15, egui::Key::F15),
        (Key::F16, egui::Key::F16),
        (Key::F17, egui::Key::F17),
        (Key::F18, egui::Key::F18),
        (Key::F19, egui::Key::F19),
        (Key::F20, egui::Key::F20),
        (Key::F21, egui::Key::F21),
        (Key::F22, egui::Key::F22),
        (Key::F23, egui::Key::F23),
        (Key::F24, egui::Key::F24),
        (Key::F25, egui::Key::F25),
        (Key::F26, egui::Key::F26),
        (Key::F27, egui::Key::F27),
        (Key::F28, egui::Key::F28),
        (Key::F29, egui::Key::F29),
        (Key::F30, egui::Key::F30),
        (Key::F31, egui::Key::F31),
        (Key::F32, egui::Key::F32),
        (Key::F33, egui::Key::F33),
        (Key::F34, egui::Key::F34),
        (Key::F35, egui::Key::F35),
    ]
}
