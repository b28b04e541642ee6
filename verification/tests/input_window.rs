//! The translation of window events.

use unlit3d::input::window::{
    code_with_scancode, key_of, native_code, to_modifiers, ModifiersState, MouseScrollDelta,
    Platform, WindowEvent, WinitInput, MOUSE_POINTER,
};
use unlit3d::input::{
    ImeEvent, ImeKind, InputEvent, InputState, Key, KeyEvent, Modifiers,
    MouseButton as CrateButton, MouseButtons, MouseEvent, PointerAction, PointerEvent, PointerKind,
    TextEvent, TouchEvent, TouchPhase, WheelUnit,
};
use unlit3d::scalar::{Position, Scalar};
use winit::event::{ElementState, Ime, MouseButton, TouchPhase as WinitTouchPhase};
use winit::keyboard::{KeyCode, NativeKeyCode, PhysicalKey};

const NO_MODIFIERS: ModifiersState = ModifiersState {
    alt_key: false,
    control_key: false,
    shift_key: false,
    super_key: false,
};

fn scalar(value: f32) -> Scalar {
    Scalar(value.to_bits())
}

fn at(x: f32, y: f32) -> Position {
    [scalar(x), scalar(y)]
}

/// The pointer position tests move to before producing a button or wheel
/// event, deliberately not the fallback origin.
fn cursor() -> Position {
    at(12.0, 34.0)
}

fn input() -> (InputState, WinitInput<u32>) {
    (InputState::default(), WinitInput::new(1, Platform::Other))
}

fn moved() -> WindowEvent {
    WindowEvent::CursorMoved { position: cursor() }
}

fn touch(phase: WinitTouchPhase, force: Option<Scalar>) -> WindowEvent {
    WindowEvent::Touch {
        id: 1,
        phase,
        location: at(5.0, 6.0),
        force,
    }
}

fn mouse_pointer(action: PointerAction, position: Option<Position>) -> InputEvent {
    InputEvent::Pointer(PointerEvent {
        kind: PointerKind::Mouse,
        id: MOUSE_POINTER,
        action,
        position,
        modifiers: Modifiers::default(),
    })
}

#[test]
fn a_physical_key_carries_its_key_and_the_held_modifiers() {
    let (mut state, input) = input();
    let shift = ModifiersState {
        shift_key: true,
        ..NO_MODIFIERS
    };
    assert!(input.on_window_event(Some(&mut state), WindowEvent::ModifiersChanged(shift)));

    let w = PhysicalKey::Code(KeyCode::KeyW);
    assert!(input.on_key(&mut state, w, true, false, None));
    assert!(input.on_key(&mut state, w, false, false, None));

    let expected = to_modifiers(shift, Platform::Other);
    assert_eq!(
        state.events()[1],
        InputEvent::Key(KeyEvent {
            key: Key::W,
            pressed: true,
            repeat: false,
            modifiers: expected,
        })
    );
    assert_eq!(
        state.events()[2],
        InputEvent::Key(KeyEvent {
            key: Key::W,
            pressed: false,
            repeat: false,
            modifiers: expected,
        }),
        "the release carries the modifiers too"
    );
    assert!(state.modifiers.shift);
}

#[test]
fn a_pressed_key_also_pushes_the_text_it_produced() {
    let (mut state, input) = input();

    assert!(input.on_key(
        &mut state,
        PhysicalKey::Code(KeyCode::KeyA),
        true,
        false,
        Some("a".to_owned())
    ));

    assert_eq!(
        state.events(),
        [
            InputEvent::Key(KeyEvent {
                key: Key::A,
                pressed: true,
                repeat: false,
                modifiers: Modifiers::default(),
            }),
            InputEvent::Text(TextEvent("a".to_owned())),
        ]
    );
}

#[test]
fn a_released_key_pushes_no_text() {
    let (mut state, input) = input();

    assert!(input.on_key(
        &mut state,
        PhysicalKey::Code(KeyCode::KeyA),
        false,
        false,
        Some("a".to_owned())
    ));

    assert_eq!(state.events().len(), 1);
}

#[test]
fn every_named_key_maps_to_its_variant() {
    assert_eq!(key_of(PhysicalKey::Code(KeyCode::Escape)), Key::Escape);
    assert_eq!(key_of(PhysicalKey::Code(KeyCode::Space)), Key::Space);
    assert_eq!(key_of(PhysicalKey::Code(KeyCode::Enter)), Key::Enter);
    assert_eq!(key_of(PhysicalKey::Code(KeyCode::Tab)), Key::Tab);
    assert_eq!(key_of(PhysicalKey::Code(KeyCode::Backspace)), Key::Backspace);
    assert_eq!(key_of(PhysicalKey::Code(KeyCode::Delete)), Key::Delete);
    assert_eq!(key_of(PhysicalKey::Code(KeyCode::ArrowUp)), Key::ArrowUp);
    assert_eq!(key_of(PhysicalKey::Code(KeyCode::ArrowDown)), Key::ArrowDown);
    assert_eq!(key_of(PhysicalKey::Code(KeyCode::ArrowLeft)), Key::ArrowLeft);
    assert_eq!(key_of(PhysicalKey::Code(KeyCode::ArrowRight)), Key::ArrowRight);
    assert_eq!(key_of(PhysicalKey::Code(KeyCode::Home)), Key::Home);
    assert_eq!(key_of(PhysicalKey::Code(KeyCode::End)), Key::End);
    assert_eq!(key_of(PhysicalKey::Code(KeyCode::PageUp)), Key::PageUp);
    assert_eq!(key_of(PhysicalKey::Code(KeyCode::PageDown)), Key::PageDown);
    assert_eq!(key_of(PhysicalKey::Code(KeyCode::KeyZ)), Key::Z);
    assert_eq!(key_of(PhysicalKey::Code(KeyCode::Digit0)), Key::Num0);
    assert_eq!(key_of(PhysicalKey::Code(KeyCode::Digit3)), Key::Num3);
    assert_eq!(key_of(PhysicalKey::Code(KeyCode::F1)), Key::F1);
    assert_eq!(key_of(PhysicalKey::Code(KeyCode::F35)), Key::F35);
}

#[test]
fn a_key_the_crate_does_not_name_keeps_a_platform_code() {
    // The numpad is deliberately not collapsed into the top-row digits, so
    // it comes through as an unnamed key.
    let numpad = key_of(PhysicalKey::Code(KeyCode::Numpad0));
    assert!(matches!(numpad, Key::Other(_)), "{numpad:?}");
    assert_ne!(numpad, key_of(PhysicalKey::Code(KeyCode::Numpad1)));

    assert_eq!(
        key_of(PhysicalKey::Unidentified(NativeKeyCode::Xkb(9))),
        Key::Other(9)
    );
}

#[test]
fn a_scancode_is_preferred_to_the_discriminant() {
    let numpad = PhysicalKey::Code(KeyCode::Numpad0);
    assert_eq!(code_with_scancode(numpad, Some(82)), 82);
    assert_eq!(code_with_scancode(numpad, None), KeyCode::Numpad0 as u32);
    let android = PhysicalKey::Unidentified(NativeKeyCode::Android(5));
    assert_eq!(code_with_scancode(android, None), 5);
    // Winit's scancode for the keypad's zero is 82 on X11, Wayland and Windows
    // alike.
    assert_eq!(key_of(numpad), Key::Other(82));
}

#[test]
fn a_native_code_passes_through() {
    assert_eq!(native_code(NativeKeyCode::MacOS(7)), 7);
    assert_eq!(native_code(NativeKeyCode::Windows(65535)), 65535);
    assert_eq!(native_code(NativeKeyCode::Xkb(70000)), 70000);
    assert_eq!(native_code(NativeKeyCode::Unidentified), 0);
}

#[test]
fn modifiers_changed_updates_the_state_and_pushes_the_event() {
    let (mut state, input) = input();
    let control = ModifiersState {
        control_key: true,
        ..NO_MODIFIERS
    };

    assert!(input.on_window_event(Some(&mut state), WindowEvent::ModifiersChanged(control)));

    assert_eq!(
        state.events(),
        [InputEvent::ModifiersChanged(to_modifiers(
            control,
            Platform::Other
        ))]
    );
    let held = state.modifiers;
    assert!(held.ctrl);
    assert!(held.command, "Ctrl commands off macOS");
    assert!(!held.shift);
}

#[test]
fn command_follows_the_platform() {
    let control = ModifiersState {
        control_key: true,
        ..NO_MODIFIERS
    };
    let command = ModifiersState {
        super_key: true,
        ..NO_MODIFIERS
    };
    let on_macos = to_modifiers(command, Platform::MacOs);
    assert!(on_macos.command && on_macos.mac_cmd && !on_macos.ctrl);
    assert!(!to_modifiers(control, Platform::MacOs).command);
    let elsewhere = to_modifiers(command, Platform::Other);
    assert!(!elsewhere.command && !elsewhere.mac_cmd);
}

#[test]
fn cursor_moved_pushes_a_mouse_and_a_pointer_move() {
    let (mut state, input) = input();

    assert!(input.on_window_event(Some(&mut state), moved()));

    assert_eq!(
        state.events(),
        [
            InputEvent::Mouse(MouseEvent::Moved { position: cursor() }),
            mouse_pointer(PointerAction::Moved, Some(cursor())),
        ]
    );
    assert_eq!(state.cursor, Some(cursor()));
    assert_eq!(state.pointer, Some(cursor()));
}

#[test]
fn a_button_press_uses_the_current_cursor() {
    let (mut state, input) = input();
    assert!(input.on_window_event(Some(&mut state), moved()));

    assert!(input.on_window_event(
        Some(&mut state),
        WindowEvent::MouseInput {
            state: ElementState::Pressed,
            button: MouseButton::Left,
        }
    ));

    assert_eq!(
        state.events()[2],
        InputEvent::Mouse(MouseEvent::Button {
            position: cursor(),
            button: CrateButton::Primary,
            pressed: true,
            modifiers: Modifiers::default(),
        })
    );
    assert_eq!(
        state.events()[3],
        mouse_pointer(PointerAction::Pressed, Some(cursor()))
    );
    assert!(state.buttons.contains(MouseButtons::of_bits(MouseButtons::PRIMARY)));
    assert!(state.pointer_down);
}

#[test]
fn a_button_press_without_a_cursor_falls_back_to_the_origin() {
    let (mut state, input) = input();

    assert!(input.on_window_event(
        Some(&mut state),
        WindowEvent::MouseInput {
            state: ElementState::Released,
            button: MouseButton::Right,
        }
    ));

    assert_eq!(
        state.events(),
        [
            InputEvent::Mouse(MouseEvent::Button {
                position: at(0.0, 0.0),
                button: CrateButton::Secondary,
                pressed: false,
                modifiers: Modifiers::default(),
            }),
            mouse_pointer(
                PointerAction::Released { cancelled: false },
                Some(at(0.0, 0.0))
            ),
        ]
    );
    assert!(!state.pointer_down);
}

#[test]
fn a_wheel_delta_keeps_its_unit() {
    let (mut state, input) = input();

    assert!(input.on_window_event(
        Some(&mut state),
        WindowEvent::MouseWheel {
            delta: MouseScrollDelta::LineDelta(scalar(1.0), scalar(-2.0)),
            phase: WinitTouchPhase::Moved,
        }
    ));
    assert!(input.on_window_event(
        Some(&mut state),
        WindowEvent::MouseWheel {
            delta: MouseScrollDelta::PixelDelta(at(3.0, 4.0)),
            phase: WinitTouchPhase::Ended,
        }
    ));

    assert_eq!(
        state.events(),
        [
            InputEvent::Mouse(MouseEvent::Wheel {
                delta: at(1.0, -2.0),
                unit: WheelUnit::Line,
                phase: TouchPhase::Moved,
                modifiers: Modifiers::default(),
            }),
            InputEvent::Mouse(MouseEvent::Wheel {
                delta: at(3.0, 4.0),
                unit: WheelUnit::Pixel,
                phase: TouchPhase::Ended,
                modifiers: Modifiers::default(),
            }),
        ]
    );
}

#[test]
fn a_pinch_and_a_rotation_become_pointer_gestures() {
    for (platform, kind) in [
        (Platform::Other, PointerKind::Touch),
        (Platform::MacOs, PointerKind::Trackpad),
    ] {
        let mut state = InputState::default();
        let input = WinitInput::new(1u32, platform);
        assert!(input.on_window_event(
            Some(&mut state),
            WindowEvent::PinchGesture { delta: scalar(1.5) }
        ));
        assert!(input.on_window_event(
            Some(&mut state),
            WindowEvent::RotationGesture {
                delta: scalar(-0.25)
            }
        ));

        let gesture = |action| {
            InputEvent::Pointer(PointerEvent {
                kind,
                id: MOUSE_POINTER,
                action,
                position: None,
                modifiers: Modifiers::default(),
            })
        };
        assert_eq!(
            state.events(),
            [
                gesture(PointerAction::Zoom(scalar(1.5))),
                gesture(PointerAction::Rotate(scalar(-0.25))),
            ]
        );
    }
}

#[test]
fn a_touch_carries_its_phase_and_normalized_force() {
    let (mut state, input) = input();

    assert!(input.on_window_event(
        Some(&mut state),
        touch(WinitTouchPhase::Started, Some(scalar(0.5)))
    ));
    assert_eq!(
        state.events(),
        [
            InputEvent::Touch(TouchEvent {
                id: 1,
                phase: TouchPhase::Started,
                position: at(5.0, 6.0),
                force: Some(scalar(0.5)),
            }),
            InputEvent::Pointer(PointerEvent {
                kind: PointerKind::Touch,
                id: 1,
                action: PointerAction::Pressed,
                position: Some(at(5.0, 6.0)),
                modifiers: Modifiers::default(),
            }),
        ]
    );
    assert_eq!(state.touches, [(1, at(5.0, 6.0))]);
    assert!(state.pointer_down);
    assert!(state.buttons.is_empty(), "a touch is not a mouse button");

    assert!(input.on_window_event(Some(&mut state), touch(WinitTouchPhase::Moved, None)));
    assert!(input.on_window_event(Some(&mut state), touch(WinitTouchPhase::Ended, None)));
    assert_eq!(
        state.events()[4],
        InputEvent::Touch(TouchEvent {
            id: 1,
            phase: TouchPhase::Ended,
            position: at(5.0, 6.0),
            force: None,
        })
    );
    assert!(!state.pointer_down);
    assert!(state.touches.is_empty());
}

#[test]
fn a_cancelled_touch_abandons_its_pointer() {
    let (mut state, input) = input();

    assert!(input.on_window_event(Some(&mut state), touch(WinitTouchPhase::Started, None)));
    assert!(input.on_window_event(Some(&mut state), touch(WinitTouchPhase::Cancelled, None)));

    assert_eq!(
        state.events()[3],
        InputEvent::Pointer(PointerEvent {
            kind: PointerKind::Touch,
            id: 1,
            action: PointerAction::Released { cancelled: true },
            position: None,
            modifiers: Modifiers::default(),
        })
    );
    assert!(!state.pointer_down);
}

#[test]
fn ime_preedit_and_commit_become_ime_events() {
    let (mut state, input) = input();

    assert!(input.on_window_event(
        Some(&mut state),
        WindowEvent::Ime(Ime::Preedit("にほん".to_owned(), Some((3, 6))))
    ));
    assert!(input.on_window_event(
        Some(&mut state),
        WindowEvent::Ime(Ime::Commit("日本".to_owned()))
    ));
    assert!(input.on_window_event(Some(&mut state), WindowEvent::Ime(Ime::Disabled)));

    assert_eq!(
        state.events(),
        [
            InputEvent::Ime(ImeEvent {
                kind: ImeKind::Preedit {
                    text: "にほん".to_owned(),
                    active_range: Some(3..6),
                },
            }),
            InputEvent::Ime(ImeEvent {
                kind: ImeKind::Commit("日本".to_owned()),
            }),
            InputEvent::Ime(ImeEvent {
                kind: ImeKind::Disabled,
            }),
        ]
    );
}

#[test]
fn losing_focus_updates_the_state() {
    let (mut state, input) = input();

    assert!(input.on_window_event(Some(&mut state), WindowEvent::Focused(false)));

    assert_eq!(state.events(), [InputEvent::FocusChanged(false)]);
    assert!(!state.focused);
}

#[test]
fn leaving_the_window_forgets_the_cursor() {
    let (mut state, input) = input();
    assert!(input.on_window_event(Some(&mut state), moved()));

    assert!(input.on_window_event(Some(&mut state), WindowEvent::CursorLeft));

    assert_eq!(state.events()[2], InputEvent::Mouse(MouseEvent::Left));
    assert_eq!(state.events()[3], mouse_pointer(PointerAction::Left, None));
    assert_eq!(state.cursor, None);
    assert_eq!(state.pointer, None);
}

#[test]
fn a_resize_updates_the_state_without_pushing_an_event() {
    let (mut state, input) = input();

    assert!(!input.on_window_event(
        Some(&mut state),
        WindowEvent::Resized {
            width: 800,
            height: 600,
        }
    ));

    assert!(state.events().is_empty());
    assert_eq!(state.size_px, (800, 600));
}

#[test]
fn a_scale_factor_change_updates_the_state_without_pushing_an_event() {
    let (mut state, input) = input();

    assert!(!input.on_scale_factor(&mut state, scalar(1.5)));

    assert!(state.events().is_empty());
    assert_eq!(state.scale_factor, scalar(1.5));
}

#[test]
fn an_ignored_event_pushes_nothing() {
    let (mut state, input) = input();

    assert!(!input.on_window_event(Some(&mut state), WindowEvent::Other));

    assert!(state.events().is_empty());
    assert_eq!(state.scale_factor, scalar(1.0));
}

#[test]
fn a_despawned_state_takes_no_events() {
    let (_, input) = input();
    assert!(!input.on_window_event(None, moved()));
    assert_eq!(input.state(), 1);
}

#[test]
fn a_key_press_through_the_window_event() {
    let (mut state, input) = input();
    assert!(input.on_window_event(
        Some(&mut state),
        WindowEvent::KeyboardInput {
            physical_key: PhysicalKey::Code(KeyCode::Digit7),
            state: ElementState::Pressed,
            repeat: true,
            text: Some("7".to_owned()),
        }
    ));
    assert_eq!(
        state.events(),
        [
            InputEvent::Key(KeyEvent {
                key: Key::Num7,
                pressed: true,
                repeat: true,
                modifiers: Modifiers::default(),
            }),
            InputEvent::Text(TextEvent("7".to_owned())),
        ]
    );
}

#[test]
fn a_held_button_keeps_the_pointer_down() {
    let (mut state, input) = input();
    let mut feed = |button, pressed| {
        let pressed = if pressed {
            ElementState::Pressed
        } else {
            ElementState::Released
        };
        input.on_window_event(
            Some(&mut state),
            WindowEvent::MouseInput {
                state: pressed,
                button,
            },
        );
        (state.buttons, state.pointer_down, state.pointers.len())
    };
    let primary = MouseButtons::of_bits(MouseButtons::PRIMARY);
    assert_eq!(feed(MouseButton::Left, true), (primary, true, 1));
    assert!(feed(MouseButton::Right, true).1);
    assert_eq!(feed(MouseButton::Right, false), (primary, true, 1));
    assert_eq!(
        feed(MouseButton::Left, false),
        (MouseButtons::empty(), false, 0)
    );
}
