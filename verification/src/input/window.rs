//! Translating a winit window's events into the ones of [`crate::input`].
//!
//! [`WinitInput`] is the winit half of the input module: a caller forwards
//! every window event, and the adapter translates the ones that carry input
//! and pushes each into the [`InputState`] it feeds.
//!
//! # Coordinates
//!
//! Positions pass through as winit reports them: physical pixels with the
//! origin at the window's top-left corner. A consumer that needs logical
//! points divides by [`InputState::scale_factor`] itself.
//!
//! # Which key a key event names
//!
//! A key comes from the event's *physical* key, so a control bound to `W`
//! stays on the key above `S` on every keyboard layout. A `KeyCode` this crate
//! does not name becomes [`Key::Other`] carrying the platform's own code: the
//! scancode where winit has one, otherwise the native code of a key winit could
//! not identify, otherwise the `KeyCode`'s discriminant.

use vstd::prelude::*;

use super::{
    ImeEvent, ImeKind, InputEvent, InputModel, InputState, Key, KeyEvent, Modifiers, MouseButton,
    MouseEvent, PointerAction, PointerEvent, PointerKind, TextEvent, TouchEvent, TouchPhase,
    WheelUnit,
};
use crate::scalar::{Position, Scalar};
use winit::event::ElementState;
use winit::event::Ime;
use winit::event::MouseButton as WinitButton;
use winit::event::TouchPhase as WinitPhase;
use winit::keyboard::KeyCode;
use winit::keyboard::NativeKeyCode;
use winit::keyboard::PhysicalKey;
use winit::platform::scancode::PhysicalKeyExtScancode;

verus! {

/// Winit's key codes, variant by variant.
#[verifier::external_type_specification]
pub struct ExKeyCode(winit::keyboard::KeyCode);

/// Winit's codes for keys it could not identify, variant by variant.
#[verifier::external_type_specification]
pub struct ExNativeKeyCode(winit::keyboard::NativeKeyCode);

/// Winit's physical keys, variant by variant.
#[verifier::external_type_specification]
pub struct ExPhysicalKey(winit::keyboard::PhysicalKey);

/// Winit's pressed and released, variant by variant.
#[verifier::external_type_specification]
pub struct ExElementState(winit::event::ElementState);

/// Winit's mouse buttons, variant by variant.
#[verifier::external_type_specification]
pub struct ExMouseButton(WinitButton);

/// Winit's touch phases, variant by variant.
#[verifier::external_type_specification]
pub struct ExTouchPhase(WinitPhase);

/// Winit's input-method events, variant by variant.
#[verifier::external_type_specification]
pub struct ExIme(winit::event::Ime);

/// The pointer id of the one pointer a mouse is.
///
/// A mouse cannot be several contacts at once, so it always reports this id. A
/// gesture shares it because a gesture is not a contact either: it never
/// presses or releases.
pub const MOUSE_POINTER: u64 = 0;

/// The code [`Key::Other`] carries for a key winit identified neither as a
/// `KeyCode` nor by a native code.
pub const UNIDENTIFIED_CODE: u32 = 0;

/// The platform a window runs on, as far as its input differs.
#[derive(Clone, Copy, Debug, PartialEq, Eq, Structural)]
pub enum Platform {
    /// macOS, whose shortcuts are built on the Command key and whose gestures
    /// come from a trackpad.
    MacOs,
    /// Any other platform, whose shortcuts are built on Control and whose
    /// gestures come from a touch screen.
    Other,
}

/// The modifier keys winit reports as held.
#[derive(Clone, Copy, Debug, PartialEq, Eq, Structural)]
pub struct ModifiersState {
    /// The Alt key is held.
    pub alt_key: bool,
    /// The Control key is held.
    pub control_key: bool,
    /// The Shift key is held.
    pub shift_key: bool,
    /// The Super key (Command on macOS) is held.
    pub super_key: bool,
}

/// A wheel delta as winit reports it.
#[derive(Clone, Copy, Debug, PartialEq, Eq)]
pub enum MouseScrollDelta {
    /// Lines scrolled, horizontally and vertically.
    LineDelta(Scalar, Scalar),
    /// Pixels scrolled.
    PixelDelta(Position),
}

/// What a window event carries, as far as input reads it.
#[derive(Debug)]
#[allow(inconsistent_fields)]
pub enum WindowEvent {
    /// A key changed state.
    KeyboardInput {
        /// The key, by physical position.
        physical_key: PhysicalKey,
        /// Whether it went down or came up.
        state: ElementState,
        /// Whether this is an auto-repeat.
        repeat: bool,
        /// The text the key produced, if any.
        text: Option<String>,
    },
    /// The modifier keys changed.
    ModifiersChanged(ModifiersState),
    /// The cursor moved.
    CursorMoved {
        /// Where to.
        position: Position,
    },
    /// A mouse button changed state.
    MouseInput {
        /// Whether it went down or came up.
        state: ElementState,
        /// Which button.
        button: WinitButton,
    },
    /// The wheel or trackpad scrolled.
    MouseWheel {
        /// How far.
        delta: MouseScrollDelta,
        /// Where the gesture is in its lifetime.
        phase: WinitPhase,
    },
    /// Two fingers pinched.
    PinchGesture {
        /// The change of scale.
        delta: Scalar,
    },
    /// Two fingers turned.
    RotationGesture {
        /// The turn.
        delta: Scalar,
    },
    /// A touch point changed.
    Touch {
        /// Which touch.
        id: u64,
        /// Where the touch is in its lifetime.
        phase: WinitPhase,
        /// Where the touch is.
        location: Position,
        /// The normalized pressure, if the device reports any.
        force: Option<Scalar>,
    },
    /// An input method changed its composition state.
    Ime(Ime),
    /// The window gained or lost focus.
    Focused(bool),
    /// The cursor left the window.
    CursorLeft,
    /// The window's size changed.
    Resized {
        /// The new width in physical pixels.
        width: u32,
        /// The new height in physical pixels.
        height: u32,
    },
    /// The window's pixel density changed.
    ScaleFactorChanged {
        /// The new density.
        scale_factor: Scalar,
    },
    /// An event that carries no input.
    Other,
}

/// The pointer kind a pinch or rotation gesture is attributed to.
#[verifier::allow_in_spec]
pub fn gesture_kind(platform: Platform) -> PointerKind
    returns
        (match platform {
            Platform::MacOs => PointerKind::Trackpad,
            Platform::Other => PointerKind::Touch,
        }),
{
    match platform {
        Platform::MacOs => PointerKind::Trackpad,
        Platform::Other => PointerKind::Touch,
    }
}

/// The key this crate names for one of winit's key codes, or `None` for a code
/// it does not name.
///
/// Numpad digits and Enter are not named on purpose: [`Key::Num0`] and
/// [`Key::Enter`] mean the top row and the main Enter, and collapsing the two
/// would make a keypad control impossible.
pub open spec fn named_key(code: KeyCode) -> Option<Key> {
    match code {
        KeyCode::Escape => Some(Key::Escape),
        KeyCode::Space => Some(Key::Space),
        KeyCode::Enter => Some(Key::Enter),
        KeyCode::Tab => Some(Key::Tab),
        KeyCode::Backspace => Some(Key::Backspace),
        KeyCode::Delete => Some(Key::Delete),
        KeyCode::ArrowUp => Some(Key::ArrowUp),
        KeyCode::ArrowDown => Some(Key::ArrowDown),
        KeyCode::ArrowLeft => Some(Key::ArrowLeft),
        KeyCode::ArrowRight => Some(Key::ArrowRight),
        KeyCode::Home => Some(Key::Home),
        KeyCode::End => Some(Key::End),
        KeyCode::PageUp => Some(Key::PageUp),
        KeyCode::PageDown => Some(Key::PageDown),
        KeyCode::KeyA => Some(Key::A),
        KeyCode::KeyB => Some(Key::B),
        KeyCode::KeyC => Some(Key::C),
        KeyCode::KeyD => Some(Key::D),
        KeyCode::KeyE => Some(Key::E),
        KeyCode::KeyF => Some(Key::F),
        KeyCode::KeyG => Some(Key::G),
        KeyCode::KeyH => Some(Key::H),
        KeyCode::KeyI => Some(Key::I),
        KeyCode::KeyJ => Some(Key::J),
        KeyCode::KeyK => Some(Key::K),
        KeyCode::KeyL => Some(Key::L),
        KeyCode::KeyM => Some(Key::M),
        KeyCode::KeyN => Some(Key::N),
        KeyCode::KeyO => Some(Key::O),
        KeyCode::KeyP => Some(Key::P),
        KeyCode::KeyQ => Some(Key::Q),
        KeyCode::KeyR => Some(Key::R),
        KeyCode::KeyS => Some(Key::S),
        KeyCode::KeyT => Some(Key::T),
        KeyCode::KeyU => Some(Key::U),
        KeyCode::KeyV => Some(Key::V),
        KeyCode::KeyW => Some(Key::W),
        KeyCode::KeyX => Some(Key::X),
        KeyCode::KeyY => Some(Key::Y),
        KeyCode::KeyZ => Some(Key::Z),
        KeyCode::Digit0 => Some(Key::Num0),
        KeyCode::Digit1 => Some(Key::Num1),
        KeyCode::Digit2 => Some(Key::Num2),
        KeyCode::Digit3 => Some(Key::Num3),
        KeyCode::Digit4 => Some(Key::Num4),
        KeyCode::Digit5 => Some(Key::Num5),
        KeyCode::Digit6 => Some(Key::Num6),
        KeyCode::Digit7 => Some(Key::Num7),
        KeyCode::Digit8 => Some(Key::Num8),
        KeyCode::Digit9 => Some(Key::Num9),
        KeyCode::F1 => Some(Key::F1),
        KeyCode::F2 => Some(Key::F2),
        KeyCode::F3 => Some(Key::F3),
        KeyCode::F4 => Some(Key::F4),
        KeyCode::F5 => Some(Key::F5),
        KeyCode::F6 => Some(Key::F6),
        KeyCode::F7 => Some(Key::F7),
        KeyCode::F8 => Some(Key::F8),
        KeyCode::F9 => Some(Key::F9),
        KeyCode::F10 => Some(Key::F10),
        KeyCode::F11 => Some(Key::F11),
        KeyCode::F12 => Some(Key::F12),
        KeyCode::F13 => Some(Key::F13),
        KeyCode::F14 => Some(Key::F14),
        KeyCode::F15 => Some(Key::F15),
        KeyCode::F16 => Some(Key::F16),
        KeyCode::F17 => Some(Key::F17),
        KeyCode::F18 => Some(Key::F18),
        KeyCode::F19 => Some(Key::F19),
        KeyCode::F20 => Some(Key::F20),
        KeyCode::F21 => Some(Key::F21),
        KeyCode::F22 => Some(Key::F22),
        KeyCode::F23 => Some(Key::F23),
        KeyCode::F24 => Some(Key::F24),
        KeyCode::F25 => Some(Key::F25),
        KeyCode::F26 => Some(Key::F26),
        KeyCode::F27 => Some(Key::F27),
        KeyCode::F28 => Some(Key::F28),
        KeyCode::F29 => Some(Key::F29),
        KeyCode::F30 => Some(Key::F30),
        KeyCode::F31 => Some(Key::F31),
        KeyCode::F32 => Some(Key::F32),
        KeyCode::F33 => Some(Key::F33),
        KeyCode::F34 => Some(Key::F34),
        KeyCode::F35 => Some(Key::F35),
        _ => None,
    }
}

/// The native code winit reports for a key it could not identify.
#[verifier::allow_in_spec]
pub fn native_code(native: NativeKeyCode) -> u32
    returns
        (match native {
            NativeKeyCode::Android(code) => code,
            NativeKeyCode::Xkb(code) => code,
            NativeKeyCode::MacOS(code) => code as u32,
            NativeKeyCode::Windows(code) => code as u32,
            NativeKeyCode::Unidentified => UNIDENTIFIED_CODE,
        }),
{
    match native {
        NativeKeyCode::Android(code) => code,
        NativeKeyCode::Xkb(code) => code,
        NativeKeyCode::MacOS(code) => code as u32,
        NativeKeyCode::Windows(code) => code as u32,
        NativeKeyCode::Unidentified => UNIDENTIFIED_CODE,
    }
}

/// The scancode of a physical key, from winit's
/// `PhysicalKeyExtScancode::to_scancode`.
///
/// Nothing is claimed of the result: each platform has its own table, and on
/// some the keyboard layout in use decides.
#[verifier::external_body]
fn scancode_of(physical_key: PhysicalKey) -> (scancode: Option<u32>) {
    physical_key.to_scancode()
}

/// The platform's own code for a key, given the scancode winit has for it.
///
/// The scancode is preferred where there is one, because it is a property of
/// the keyboard rather than of the winit version that named the key.
pub open spec fn code_given(physical_key: PhysicalKey, scancode: Option<u32>) -> u32 {
    match scancode {
        Some(scancode) => scancode,
        None => match physical_key {
            PhysicalKey::Code(code) => code as u32,
            PhysicalKey::Unidentified(native) => native_code(native),
        },
    }
}

/// The platform's own code for a key, given the scancode winit has for it.
pub fn code_with_scancode(physical_key: PhysicalKey, scancode: Option<u32>) -> (code: u32)
    ensures
        code == code_given(physical_key, scancode),
{
    match scancode {
        Some(scancode) => scancode,
        None => match physical_key {
            PhysicalKey::Code(code) => code as u32,
            PhysicalKey::Unidentified(native) => native_code(native),
        },
    }
}

/// The platform's own code for a key this crate does not name.
///
/// Which scancode winit has for the key is left open;
/// [`code_with_scancode`] says which code follows from each.
pub fn platform_code(physical_key: PhysicalKey) -> (code: u32)
    ensures
        exists|scancode: Option<u32>| code == #[trigger] code_given(physical_key, scancode),
{
    let scancode = scancode_of(physical_key);
    code_with_scancode(physical_key, scancode)
}

/// Whether `key` is this crate's name for the physical key: the named key where
/// there is one, otherwise the platform's own code, whatever scancode winit has
/// for it.
pub open spec fn is_name_of(key: Key, physical_key: PhysicalKey) -> bool {
    match physical_key {
        PhysicalKey::Code(code) => match named_key(code) {
            Some(named) => key == named,
            None => exists|scancode: Option<u32>|
                key == Key::Other(#[trigger] code_given(physical_key, scancode)),
        },
        PhysicalKey::Unidentified(native) => key == Key::Other(native_code(native)),
    }
}

/// The crate's name for a winit physical key.
pub fn key_of(physical_key: PhysicalKey) -> (key: Key)
    ensures
        is_name_of(key, physical_key),
{
    match physical_key {
        PhysicalKey::Code(code) => key_code(code),
        PhysicalKey::Unidentified(native) => Key::Other(native_code(native)),
    }
}

/// The crate's name for one of winit's key codes.
///
/// The named keys are the ones game controls address; everything else keeps
/// the platform's own code.
pub fn key_code(code: KeyCode) -> (key: Key)
    ensures
        is_name_of(key, PhysicalKey::Code(code)),
{
    match code {
        KeyCode::Escape => Key::Escape,
        KeyCode::Space => Key::Space,
        KeyCode::Enter => Key::Enter,
        KeyCode::Tab => Key::Tab,
        KeyCode::Backspace => Key::Backspace,
        KeyCode::Delete => Key::Delete,
        KeyCode::ArrowUp => Key::ArrowUp,
        KeyCode::ArrowDown => Key::ArrowDown,
        KeyCode::ArrowLeft => Key::ArrowLeft,
        KeyCode::ArrowRight => Key::ArrowRight,
        KeyCode::Home => Key::Home,
        KeyCode::End => Key::End,
        KeyCode::PageUp => Key::PageUp,
        KeyCode::PageDown => Key::PageDown,
        KeyCode::KeyA => Key::A,
        KeyCode::KeyB => Key::B,
        KeyCode::KeyC => Key::C,
        KeyCode::KeyD => Key::D,
        KeyCode::KeyE => Key::E,
        KeyCode::KeyF => Key::F,
        KeyCode::KeyG => Key::G,
        KeyCode::KeyH => Key::H,
        KeyCode::KeyI => Key::I,
        KeyCode::KeyJ => Key::J,
        KeyCode::KeyK => Key::K,
        KeyCode::KeyL => Key::L,
        KeyCode::KeyM => Key::M,
        KeyCode::KeyN => Key::N,
        KeyCode::KeyO => Key::O,
        KeyCode::KeyP => Key::P,
        KeyCode::KeyQ => Key::Q,
        KeyCode::KeyR => Key::R,
        KeyCode::KeyS => Key::S,
        KeyCode::KeyT => Key::T,
        KeyCode::KeyU => Key::U,
        KeyCode::KeyV => Key::V,
        KeyCode::KeyW => Key::W,
        KeyCode::KeyX => Key::X,
        KeyCode::KeyY => Key::Y,
        KeyCode::KeyZ => Key::Z,
        KeyCode::Digit0 => Key::Num0,
        KeyCode::Digit1 => Key::Num1,
        KeyCode::Digit2 => Key::Num2,
        KeyCode::Digit3 => Key::Num3,
        KeyCode::Digit4 => Key::Num4,
        KeyCode::Digit5 => Key::Num5,
        KeyCode::Digit6 => Key::Num6,
        KeyCode::Digit7 => Key::Num7,
        KeyCode::Digit8 => Key::Num8,
        KeyCode::Digit9 => Key::Num9,
        KeyCode::F1 => Key::F1,
        KeyCode::F2 => Key::F2,
        KeyCode::F3 => Key::F3,
        KeyCode::F4 => Key::F4,
        KeyCode::F5 => Key::F5,
        KeyCode::F6 => Key::F6,
        KeyCode::F7 => Key::F7,
        KeyCode::F8 => Key::F8,
        KeyCode::F9 => Key::F9,
        KeyCode::F10 => Key::F10,
        KeyCode::F11 => Key::F11,
        KeyCode::F12 => Key::F12,
        KeyCode::F13 => Key::F13,
        KeyCode::F14 => Key::F14,
        KeyCode::F15 => Key::F15,
        KeyCode::F16 => Key::F16,
        KeyCode::F17 => Key::F17,
        KeyCode::F18 => Key::F18,
        KeyCode::F19 => Key::F19,
        KeyCode::F20 => Key::F20,
        KeyCode::F21 => Key::F21,
        KeyCode::F22 => Key::F22,
        KeyCode::F23 => Key::F23,
        KeyCode::F24 => Key::F24,
        KeyCode::F25 => Key::F25,
        KeyCode::F26 => Key::F26,
        KeyCode::F27 => Key::F27,
        KeyCode::F28 => Key::F28,
        KeyCode::F29 => Key::F29,
        KeyCode::F30 => Key::F30,
        KeyCode::F31 => Key::F31,
        KeyCode::F32 => Key::F32,
        KeyCode::F33 => Key::F33,
        KeyCode::F34 => Key::F34,
        KeyCode::F35 => Key::F35,
        unnamed => Key::Other(platform_code(PhysicalKey::Code(unnamed))),
    }
}

/// The crate's modifier state for winit's.
///
/// `command` is the key a platform's shortcuts are built on, so it is Control
/// off macOS and Command on it, while `mac_cmd` is Command wherever it exists.
#[verifier::allow_in_spec]
pub fn to_modifiers(state: ModifiersState, platform: Platform) -> Modifiers
    returns
        (Modifiers {
            alt: state.alt_key,
            ctrl: state.control_key,
            shift: state.shift_key,
            mac_cmd: platform is MacOs && state.super_key,
            command: if platform is MacOs {
                state.super_key
            } else {
                state.control_key
            },
        }),
{
    let macos = match platform {
        Platform::MacOs => true,
        Platform::Other => false,
    };
    Modifiers {
        alt: state.alt_key,
        ctrl: state.control_key,
        shift: state.shift_key,
        mac_cmd: macos && state.super_key,
        command: if macos {
            state.super_key
        } else {
            state.control_key
        },
    }
}

/// The crate's name for a winit mouse button.
#[verifier::allow_in_spec]
pub fn to_button(button: WinitButton) -> MouseButton
    returns
        (match button {
            WinitButton::Left => MouseButton::Primary,
            WinitButton::Right => MouseButton::Secondary,
            WinitButton::Middle => MouseButton::Middle,
            WinitButton::Back => MouseButton::Back,
            WinitButton::Forward => MouseButton::Forward,
            WinitButton::Other(code) => MouseButton::Other(code),
        }),
{
    match button {
        WinitButton::Left => MouseButton::Primary,
        WinitButton::Right => MouseButton::Secondary,
        WinitButton::Middle => MouseButton::Middle,
        WinitButton::Back => MouseButton::Back,
        WinitButton::Forward => MouseButton::Forward,
        WinitButton::Other(code) => MouseButton::Other(code),
    }
}

/// The crate's name for a winit touch phase.
#[verifier::allow_in_spec]
pub fn to_phase(phase: WinitPhase) -> TouchPhase
    returns
        (match phase {
            WinitPhase::Started => TouchPhase::Started,
            WinitPhase::Moved => TouchPhase::Moved,
            WinitPhase::Ended => TouchPhase::Ended,
            WinitPhase::Cancelled => TouchPhase::Cancelled,
        }),
{
    match phase {
        WinitPhase::Started => TouchPhase::Started,
        WinitPhase::Moved => TouchPhase::Moved,
        WinitPhase::Ended => TouchPhase::Ended,
        WinitPhase::Cancelled => TouchPhase::Cancelled,
    }
}

/// A wheel delta and the unit it is measured in.
///
/// A device that reports lines is a stepped wheel and one that reports pixels
/// is a trackpad; keeping the distinction lets a consumer decide how far a
/// line scrolls.
#[verifier::allow_in_spec]
pub fn to_wheel(delta: MouseScrollDelta) -> (Position, WheelUnit)
    returns
        (match delta {
            MouseScrollDelta::LineDelta(x, y) => ([x, y], WheelUnit::Line),
            MouseScrollDelta::PixelDelta(position) => (position, WheelUnit::Pixel),
        }),
{
    match delta {
        MouseScrollDelta::LineDelta(x, y) => ([x, y], WheelUnit::Line),
        MouseScrollDelta::PixelDelta(position) => (position, WheelUnit::Pixel),
    }
}

/// The crate's name for a winit input-method event.
///
/// Winit has no event that asks to delete text around the cursor, so none
/// becomes an [`ImeKind::DeleteSurrounding`].
pub open spec fn ime_kind(ime: Ime) -> ImeKind {
    match ime {
        Ime::Enabled => ImeKind::Enabled,
        Ime::Preedit(text, cursor) => ImeKind::Preedit {
            text,
            active_range: match cursor {
                Some((start, end)) => Some(core::ops::Range { start, end }),
                None => None,
            },
        },
        Ime::Commit(text) => ImeKind::Commit(text),
        Ime::Disabled => ImeKind::Disabled,
    }
}

/// The crate's name for a winit input-method event.
pub fn to_ime_kind(ime: Ime) -> (kind: ImeKind)
    ensures
        kind == ime_kind(ime),
{
    match ime {
        Ime::Enabled => ImeKind::Enabled,
        Ime::Preedit(text, cursor) => {
            let active_range = match cursor {
                Some((start, end)) => Some(core::ops::Range { start, end }),
                None => None,
            };
            ImeKind::Preedit { text, active_range }
        },
        Ime::Commit(text) => ImeKind::Commit(text),
        Ime::Disabled => ImeKind::Disabled,
    }
}

/// The pointer action a touch phase stands for, and the position it carries.
///
/// A cancelled touch has no position to report: the platform took the gesture
/// away, so a consumer must abandon the drag rather than continue it from a
/// point the device never reached.
#[verifier::allow_in_spec]
pub fn pointer_of_touch(phase: TouchPhase, position: Position) -> (PointerAction, Option<Position>)
    returns
        (match phase {
            TouchPhase::Started => (PointerAction::Pressed, Some(position)),
            TouchPhase::Moved => (PointerAction::Moved, Some(position)),
            TouchPhase::Ended => (PointerAction::Released { cancelled: false }, Some(position)),
            TouchPhase::Cancelled => (PointerAction::Released { cancelled: true }, None),
        }),
{
    match phase {
        TouchPhase::Started => (PointerAction::Pressed, Some(position)),
        TouchPhase::Moved => (PointerAction::Moved, Some(position)),
        TouchPhase::Ended => (PointerAction::Released { cancelled: false }, Some(position)),
        TouchPhase::Cancelled => (PointerAction::Released { cancelled: true }, None),
    }
}

/// The pointer event of the mouse.
pub open spec fn mouse_pointer(
    action: PointerAction,
    position: Option<Position>,
    modifiers: Modifiers,
) -> InputEvent {
    InputEvent::Pointer(
        PointerEvent { kind: PointerKind::Mouse, id: MOUSE_POINTER, action, position, modifiers },
    )
}

/// The pointer event of a gesture, which has no position and is not a contact.
pub open spec fn gesture_pointer(
    platform: Platform,
    action: PointerAction,
    modifiers: Modifiers,
) -> InputEvent {
    InputEvent::Pointer(
        PointerEvent {
            kind: gesture_kind(platform),
            id: MOUSE_POINTER,
            action,
            position: None,
            modifiers,
        },
    )
}

/// Where a mouse event that carries no position happens: at the cursor, or at
/// the origin while the cursor is outside the window.
pub open spec fn cursor_or_origin(state: InputModel) -> Position {
    match state.cursor {
        Some(position) => position,
        None => [Scalar::zero(), Scalar::zero()],
    }
}

/// The events a key press, release or repeat becomes: the key, and the text it
/// produced when it went down.
pub open spec fn key_events(
    state: InputModel,
    key: Key,
    pressed: bool,
    repeat: bool,
    text: Option<String>,
) -> Seq<InputEvent> {
    let event = InputEvent::Key(KeyEvent { key, pressed, repeat, modifiers: state.modifiers });
    match text {
        Some(text) if pressed => seq![event, InputEvent::Text(TextEvent(text))],
        _ => seq![event],
    }
}

/// The events a window event becomes, in the order they are pushed. `key` is
/// the crate's name for the physical key of a keyboard event, and is not read
/// for any other.
///
/// One physical action can become several events, because the categories
/// overlap: a mouse move is a [`MouseEvent`] *and* a [`PointerEvent`], and a
/// touch is a [`TouchEvent`] *and* a [`PointerEvent`]. A wheel step is a
/// mouse's alone, and a gesture a pointer's.
pub open spec fn translated(
    state: InputModel,
    platform: Platform,
    event: WindowEvent,
    key: Key,
) -> Seq<InputEvent> {
    match event {
        WindowEvent::KeyboardInput { state: pressed, repeat, text, .. } => key_events(
            state,
            key,
            pressed is Pressed,
            repeat,
            text,
        ),
        WindowEvent::ModifiersChanged(modifiers) => seq![
            InputEvent::ModifiersChanged(to_modifiers(modifiers, platform)),
        ],
        WindowEvent::CursorMoved { position } => seq![
            InputEvent::Mouse(MouseEvent::Moved { position }),
            mouse_pointer(PointerAction::Moved, Some(position), state.modifiers),
        ],
        WindowEvent::MouseInput { state: pressed, button } => seq![
            InputEvent::Mouse(
                MouseEvent::Button {
                    position: cursor_or_origin(state),
                    button: to_button(button),
                    pressed: pressed is Pressed,
                    modifiers: state.modifiers,
                },
            ),
            mouse_pointer(
                if pressed is Pressed {
                    PointerAction::Pressed
                } else {
                    PointerAction::Released { cancelled: false }
                },
                Some(cursor_or_origin(state)),
                state.modifiers,
            ),
        ],
        WindowEvent::MouseWheel { delta, phase } => seq![
            InputEvent::Mouse(
                MouseEvent::Wheel {
                    delta: to_wheel(delta).0,
                    unit: to_wheel(delta).1,
                    phase: to_phase(phase),
                    modifiers: state.modifiers,
                },
            ),
        ],
        WindowEvent::PinchGesture { delta } => seq![
            gesture_pointer(platform, PointerAction::Zoom(delta), state.modifiers),
        ],
        WindowEvent::RotationGesture { delta } => seq![
            gesture_pointer(platform, PointerAction::Rotate(delta), state.modifiers),
        ],
        WindowEvent::Touch { id, phase, location, force } => seq![
            InputEvent::Touch(
                TouchEvent { id, phase: to_phase(phase), position: location, force },
            ),
            InputEvent::Pointer(
                PointerEvent {
                    kind: PointerKind::Touch,
                    id,
                    action: pointer_of_touch(to_phase(phase), location).0,
                    position: pointer_of_touch(to_phase(phase), location).1,
                    modifiers: state.modifiers,
                },
            ),
        ],
        WindowEvent::Ime(ime) => seq![InputEvent::Ime(ImeEvent { kind: ime_kind(ime) })],
        WindowEvent::Focused(focused) => seq![InputEvent::FocusChanged(focused)],
        WindowEvent::CursorLeft => seq![
            InputEvent::Mouse(MouseEvent::Left),
            mouse_pointer(PointerAction::Left, None, state.modifiers),
        ],
        WindowEvent::Resized { .. }
        | WindowEvent::ScaleFactorChanged { .. }
        | WindowEvent::Other => seq![],
    }
}

/// The state after a window event that carries no event of its own but
/// refreshes what later events read from.
pub open spec fn refreshed(state: InputModel, event: WindowEvent) -> InputModel {
    match event {
        WindowEvent::Resized { width, height } => InputModel { size_px: (width, height), ..state },
        WindowEvent::ScaleFactorChanged { scale_factor } => InputModel { scale_factor, ..state },
        _ => state,
    }
}

/// Whether `after` is the state once a window event is translated and pushed.
pub open spec fn is_fed(
    before: InputModel,
    after: InputModel,
    platform: Platform,
    event: WindowEvent,
) -> bool {
    match event {
        WindowEvent::KeyboardInput { physical_key, .. } => exists|key: Key|
            #[trigger] is_name_of(key, physical_key) && after == before.pushed_all(
                translated(before, platform, event, key),
            ),
        _ => after == refreshed(before, event).pushed_all(
            translated(before, platform, event, Key::Escape),
        ),
    }
}

/// Whether a window event becomes any event at all.
pub open spec fn carries_input(event: WindowEvent) -> bool {
    !(event is Resized || event is ScaleFactorChanged || event is Other)
}

/// Pushing a list of one or two events is pushing each in turn.
proof fn lemma_push_few(state: InputModel, first: InputEvent, second: InputEvent)
    ensures
        state.pushed_all(seq![]) == state,
        state.pushed_all(seq![first]) == state.pushed(first),
        state.pushed_all(seq![first, second]) == state.pushed(first).pushed(second),
{
    assert(seq![first].drop_last() =~= seq![]);
    assert(seq![first, second].drop_last() =~= seq![first]);
    reveal_with_fuel(InputModel::pushed_all, 3);
}

/// Feeds a winit window's events into an [`InputState`].
///
/// The adapter decides nothing about what the input *means*, so it holds only
/// the entity of the state it writes and the platform the window runs on.
#[derive(Clone, Copy, Debug)]
pub struct WinitInput<E> {
    entity: E,
    platform: Platform,
}

impl<E: Copy> WinitInput<E> {
    /// The entity of the state this adapter feeds.
    pub closed spec fn entity(self) -> E {
        self.entity
    }

    /// The platform the window runs on.
    pub closed spec fn platform(self) -> Platform {
        self.platform
    }

    /// An adapter for the `InputState` that sits on `entity`.
    pub fn new(entity: E, platform: Platform) -> (input: Self)
        ensures
            input.entity() == entity,
            input.platform() == platform,
    {
        WinitInput { entity, platform }
    }

    /// The `InputState` resource entity.
    pub fn state(&self) -> (entity: E)
        ensures
            entity == self.entity(),
    {
        self.entity
    }

    /// Translate the parts of `event` that carry input and push them into
    /// `state`, which is `None` once the entity no longer carries one.
    ///
    /// Returns whether anything was pushed. An event that carries no input is
    /// ignored, and one that only updates device state, resizing for instance,
    /// pushes nothing.
    pub fn on_window_event(&self, state: Option<&mut InputState>, event: WindowEvent) -> (pushed:
        bool)
        ensures
            match state {
                Some(state) => pushed == carries_input(event) && is_fed(
                    state@,
                    final(state)@,
                    self.platform(),
                    event,
                ),
                None => !pushed,
            },
    {
        let state = match state {
            Some(state) => state,
            None => {
                return false;
            },
        };
        let ghost before = state@;
        let modifiers = state.modifiers;
        match event {
            WindowEvent::KeyboardInput { physical_key, state: pressed, repeat, text } => {
                let pressed = match pressed {
                    ElementState::Pressed => true,
                    ElementState::Released => false,
                };
                self.on_key(state, physical_key, pressed, repeat, text)
            },
            WindowEvent::ModifiersChanged(modifiers) => {
                let first = InputEvent::ModifiersChanged(to_modifiers(modifiers, self.platform));
                proof {
                    lemma_push_few(before, first, first);
                }
                state.push(first);
                true
            },
            WindowEvent::CursorMoved { position } => {
                let first = InputEvent::Mouse(MouseEvent::Moved { position });
                let second = InputEvent::Pointer(
                    PointerEvent {
                        kind: PointerKind::Mouse,
                        id: MOUSE_POINTER,
                        action: PointerAction::Moved,
                        position: Some(position),
                        modifiers,
                    },
                );
                proof {
                    lemma_push_few(before, first, second);
                }
                state.push(first);
                state.push(second);
                true
            },
            WindowEvent::MouseInput { state: pressed, button } => {
                let pressed = match pressed {
                    ElementState::Pressed => true,
                    ElementState::Released => false,
                };
                let position = match state.cursor {
                    Some(position) => position,
                    None => [Scalar::zero(), Scalar::zero()],
                };
                let first = InputEvent::Mouse(
                    MouseEvent::Button { position, button: to_button(button), pressed, modifiers },
                );
                let second = InputEvent::Pointer(
                    PointerEvent {
                        kind: PointerKind::Mouse,
                        id: MOUSE_POINTER,
                        action: if pressed {
                            PointerAction::Pressed
                        } else {
                            PointerAction::Released { cancelled: false }
                        },
                        position: Some(position),
                        modifiers,
                    },
                );
                proof {
                    lemma_push_few(before, first, second);
                }
                state.push(first);
                state.push(second);
                true
            },
            WindowEvent::MouseWheel { delta, phase } => {
                let (delta, unit) = to_wheel(delta);
                let first = InputEvent::Mouse(
                    MouseEvent::Wheel { delta, unit, phase: to_phase(phase), modifiers },
                );
                proof {
                    lemma_push_few(before, first, first);
                }
                state.push(first);
                true
            },
            WindowEvent::PinchGesture { delta } => {
                self.on_gesture(state, PointerAction::Zoom(delta));
                true
            },
            WindowEvent::RotationGesture { delta } => {
                self.on_gesture(state, PointerAction::Rotate(delta));
                true
            },
            WindowEvent::Touch { id, phase, location, force } => {
                let phase = to_phase(phase);
                let (action, position) = pointer_of_touch(phase, location);
                let first = InputEvent::Touch(
                    TouchEvent { id, phase, position: location, force },
                );
                let second = InputEvent::Pointer(
                    PointerEvent { kind: PointerKind::Touch, id, action, position, modifiers },
                );
                proof {
                    lemma_push_few(before, first, second);
                }
                state.push(first);
                state.push(second);
                true
            },
            WindowEvent::Ime(ime) => {
                let first = InputEvent::Ime(ImeEvent { kind: to_ime_kind(ime) });
                proof {
                    lemma_push_few(before, first, first);
                }
                state.push(first);
                true
            },
            WindowEvent::Focused(focused) => {
                let first = InputEvent::FocusChanged(focused);
                proof {
                    lemma_push_few(before, first, first);
                }
                state.push(first);
                true
            },
            WindowEvent::CursorLeft => {
                // The pointer leaves with the mouse: a touch that is still down
                // is not gone because the cursor left the window.
                let first = InputEvent::Mouse(MouseEvent::Left);
                let second = InputEvent::Pointer(
                    PointerEvent {
                        kind: PointerKind::Mouse,
                        id: MOUSE_POINTER,
                        action: PointerAction::Left,
                        position: None,
                        modifiers,
                    },
                );
                proof {
                    lemma_push_few(before, first, second);
                }
                state.push(first);
                state.push(second);
                true
            },
            WindowEvent::Resized { width, height } => {
                state.set_size_px(width, height);
                false
            },
            WindowEvent::ScaleFactorChanged { scale_factor } => self.on_scale_factor(
                state,
                scale_factor,
            ),
            WindowEvent::Other => false,
        }
    }

    /// Push the events of a key that changed state; always pushes something.
    pub fn on_key(
        &self,
        state: &mut InputState,
        physical_key: PhysicalKey,
        pressed: bool,
        repeat: bool,
        text: Option<String>,
    ) -> (pushed: bool)
        ensures
            pushed,
            exists|key: Key|
                #[trigger] is_name_of(key, physical_key) && final(state)@ == old(state)@.pushed_all(
                    key_events(old(state)@, key, pressed, repeat, text),
                ),
    {
        let key = key_of(physical_key);
        self.on_named_key(state, key, pressed, repeat, text)
    }

    /// As [`Self::on_key`], for a key whose name is known.
    pub fn on_named_key(
        &self,
        state: &mut InputState,
        key: Key,
        pressed: bool,
        repeat: bool,
        text: Option<String>,
    ) -> (pushed: bool)
        ensures
            pushed,
            final(state)@ == old(state)@.pushed_all(
                key_events(old(state)@, key, pressed, repeat, text),
            ),
    {
        let ghost before = state@;
        let first = InputEvent::Key(
            KeyEvent { key, pressed, repeat, modifiers: state.modifiers },
        );
        proof {
            lemma_push_few(before, first, first);
        }
        let ghost first_event = first;
        state.push(first);
        // A press also carries the character the layout produced there.
        match text {
            Some(text) => {
                if pressed {
                    let second = InputEvent::Text(TextEvent(text));
                    proof {
                        lemma_push_few(before, first_event, second);
                    }
                    state.push(second);
                }
            },
            None => {},
        }
        true
    }

    /// Push the pointer event of a gesture.
    fn on_gesture(&self, state: &mut InputState, action: PointerAction)
        ensures
            final(state)@ == old(state)@.pushed_all(
                seq![gesture_pointer(self.platform(), action, old(state)@.modifiers)],
            ),
    {
        let first = InputEvent::Pointer(
            PointerEvent {
                kind: gesture_kind(self.platform),
                id: MOUSE_POINTER,
                action,
                position: None,
                modifiers: state.modifiers,
            },
        );
        proof {
            lemma_push_few(state@, first, first);
        }
        state.push(first);
    }

    /// Record a pixel density; pushes nothing.
    pub fn on_scale_factor(&self, state: &mut InputState, scale_factor: Scalar) -> (pushed: bool)
        ensures
            !pushed,
            final(state)@ == (InputModel { scale_factor, ..old(state)@ }),
    {
        state.set_scale_factor(scale_factor);
        false
    }
}

/// Whether every mouse contact is the one pointer a mouse is.
pub open spec fn mouse_is_one_pointer(state: InputModel) -> bool {
    forall|i: int|
        0 <= i < state.pointers.len() && (#[trigger] state.pointers[i]).kind == PointerKind::Mouse
            ==> state.pointers[i].id == MOUSE_POINTER
}

/// Pushing keeps a state consistent, and the mouse one pointer, as long as
/// every mouse event pushed reports the mouse's id.
proof fn lemma_push_all_keeps(state: InputModel, events: Seq<InputEvent>)
    requires
        state.wf(),
        mouse_is_one_pointer(state),
        forall|i: int|
            0 <= i < events.len() ==> (#[trigger] events[i] matches InputEvent::Pointer(event)
                ==> event.kind == PointerKind::Mouse ==> event.id == MOUSE_POINTER),
    ensures
        state.pushed_all(events).wf(),
        mouse_is_one_pointer(state.pushed_all(events)),
    decreases events.len(),
{
    if events.len() > 0 {
        let rest = events.drop_last();
        assert forall|i: int| 0 <= i < rest.len() implies (#[trigger] rest[i] matches InputEvent::Pointer(event)
            ==> event.kind == PointerKind::Mouse ==> event.id == MOUSE_POINTER) by {
            assert(rest[i] == events[i]);
        }
        lemma_push_all_keeps(state, rest);
        let before = state.pushed_all(rest);
        let last = events.last();
        assert(last == events[events.len() - 1]);
        super::law_push_keeps_the_state_consistent(before, last);
        if let InputEvent::Pointer(event) = last {
            super::lemma_contact_index_finds(before.pointers, event.kind, event.id);
            super::lemma_released(before.pointers, event.kind, event.id);
            let after = before.pushed(last).pointers;
            assert forall|i: int|
                0 <= i < after.len() && (#[trigger] after[i]).kind
                    == PointerKind::Mouse implies after[i].id == MOUSE_POINTER by {
                if event.action is Released && !before.holds(event.kind) {
                    assert(before.pointers.contains(after[i]));
                } else if i < before.pointers.len() && after[i] == before.pointers[i] {
                }
            }
        }
    }
}

/// No window event breaks what holds of a state, and the mouse stays one
/// pointer: with every contact listed at most once, it contributes at most one
/// entry.
pub proof fn law_window_events_keep_the_state_consistent(
    before: InputModel,
    after: InputModel,
    platform: Platform,
    event: WindowEvent,
)
    requires
        before.wf(),
        mouse_is_one_pointer(before),
        is_fed(before, after, platform, event),
    ensures
        after.wf(),
        mouse_is_one_pointer(after),
{
    let key = match event {
        WindowEvent::KeyboardInput { physical_key, .. } => choose|key: Key|
            #[trigger] is_name_of(key, physical_key) && after == before.pushed_all(
                translated(before, platform, event, key),
            ),
        _ => Key::Escape,
    };
    lemma_push_all_keeps(
        refreshed(before, event),
        translated(before, platform, event, key),
    );
}

/// Whether the mouse is down whenever one of its buttons is held.
pub open spec fn mouse_down_while_held(state: InputModel) -> bool {
    !state.buttons.is_empty() ==> super::contact_position(
        state.pointers,
        PointerKind::Mouse,
        MOUSE_POINTER,
    ) is Some
}

/// Whether `event` presses a mouse button.
pub open spec fn presses_button(event: InputEvent) -> bool {
    event matches InputEvent::Mouse(MouseEvent::Button { pressed, .. }) && pressed
}

/// No event but the press of a button can leave a button held and the mouse
/// up.
proof fn lemma_push_keeps_mouse_down(state: InputModel, event: InputEvent)
    requires
        state.wf(),
        mouse_down_while_held(state),
        !presses_button(event),
    ensures
        mouse_down_while_held(state.pushed(event)),
{
    match event {
        InputEvent::Mouse(MouseEvent::Button { button, .. }) => {
            if let Some(bit) = super::MouseButtons::bit_of(button) {
                let bits = state.buttons.bits;
                let a = bit.bits;
                assert(bits == 0 ==> bits & !a == 0) by (bit_vector);
            }
        },
        InputEvent::Pointer(event) => {
            let kind = PointerKind::Mouse;
            let after = state.after_pointer(event).pointers;
            super::lemma_contact_index_finds(state.pointers, kind, MOUSE_POINTER);
            if event.kind != kind || event.id != MOUSE_POINTER {
                super::law_contacts_are_independent(state, event, kind, MOUSE_POINTER);
            } else if !state.buttons.is_empty() {
                let index = super::contact_index(state.pointers, kind, MOUSE_POINTER) as int;
                assert(super::is_contact(after[index], kind, MOUSE_POINTER));
                super::lemma_contact_index_finds(after, kind, MOUSE_POINTER);
            }
        },
        _ => {},
    }
}

/// As [`lemma_push_keeps_mouse_down`], for several events.
proof fn lemma_push_all_keeps_mouse_down(state: InputModel, events: Seq<InputEvent>)
    requires
        state.wf(),
        mouse_down_while_held(state),
        forall|i: int| 0 <= i < events.len() ==> !presses_button(#[trigger] events[i]),
    ensures
        state.pushed_all(events).wf(),
        mouse_down_while_held(state.pushed_all(events)),
    decreases events.len(),
{
    if events.len() > 0 {
        let rest = events.drop_last();
        assert forall|i: int| 0 <= i < rest.len() implies !presses_button(#[trigger] rest[i]) by {
            assert(rest[i] == events[i]);
        }
        lemma_push_all_keeps_mouse_down(state, rest);
        assert(events.last() == events[events.len() - 1]);
        lemma_push_keeps_mouse_down(state.pushed_all(rest), events.last());
        super::law_push_keeps_the_state_consistent(state.pushed_all(rest), events.last());
    }
}

/// A mouse button that is held keeps the pointer down: no window event leaves a
/// button held and the mouse up, so letting one of several buttons go lifts
/// nothing.
pub proof fn law_a_held_button_keeps_the_pointer_down(
    before: InputModel,
    after: InputModel,
    platform: Platform,
    event: WindowEvent,
)
    requires
        before.wf(),
        mouse_is_one_pointer(before),
        mouse_down_while_held(before),
        is_fed(before, after, platform, event),
    ensures
        mouse_down_while_held(after),
        !after.buttons.is_empty() ==> after.pointer_down,
{
    law_window_events_keep_the_state_consistent(before, after, platform, event);
    let key = match event {
        WindowEvent::KeyboardInput { physical_key, .. } => choose|key: Key|
            #[trigger] is_name_of(key, physical_key) && after == before.pushed_all(
                translated(before, platform, event, key),
            ),
        _ => Key::Escape,
    };
    let start = refreshed(before, event);
    let events = translated(before, platform, event, key);
    if events.len() > 0 && presses_button(events[0]) {
        // The press of the button is followed by that of the pointer.
        let pressed = start.pushed(events[0]);
        lemma_push_few(start, events[0], events[1]);
        assert(events =~= seq![events[0], events[1]]);
        super::law_push_keeps_the_state_consistent(start, events[0]);
        if let InputEvent::Pointer(event) = events[1] {
            super::law_press_and_release(pressed, event);
        }
    } else {
        lemma_push_all_keeps_mouse_down(start, events);
    }
    super::lemma_contact_index_finds(after.pointers, PointerKind::Mouse, MOUSE_POINTER);
}

/// Whether `after` follows from `before` by a window event or by clearing the
/// frame's events.
pub open spec fn follows(before: InputModel, after: InputModel, platform: Platform) -> bool {
    ||| exists|event: WindowEvent| #[trigger] is_fed(before, after, platform, event)
    ||| after == (InputModel { events: Seq::empty(), ..before })
}

/// Whether `states` are what an adapter on `platform` and its caller make of a
/// state from the start, one step after the other.
pub open spec fn is_history(states: Seq<InputModel>, platform: Platform) -> bool {
    &&& states.len() > 0
    &&& states[0] == InputModel::initial()
    &&& forall|i: int|
        #![trigger states[i]]
        0 < i < states.len() ==> follows(states[i - 1], states[i], platform)
}

/// Whatever window events arrive, the state they lead to is consistent, the
/// mouse is one pointer in it, and a button that is held means that a pointer
/// is down.
pub proof fn law_a_held_button_always_means_a_pointer_down(
    states: Seq<InputModel>,
    platform: Platform,
    i: int,
)
    requires
        is_history(states, platform),
        0 <= i < states.len(),
    ensures
        states[i].wf(),
        mouse_is_one_pointer(states[i]),
        mouse_down_while_held(states[i]),
        !states[i].buttons.is_empty() ==> states[i].pointer_down,
    decreases i,
{
    if i == 0 {
        super::law_events_lead_to_consistent_states(Seq::empty());
    } else {
        law_a_held_button_always_means_a_pointer_down(states, platform, i - 1);
        let before = states[i - 1];
        let after = states[i];
        assert(follows(before, after, platform));
        if exists|event: WindowEvent| is_fed(before, after, platform, event) {
            let event = choose|event: WindowEvent| is_fed(before, after, platform, event);
            law_window_events_keep_the_state_consistent(before, after, platform, event);
            law_a_held_button_keeps_the_pointer_down(before, after, platform, event);
        }
    }
}

/// A window event adds what it becomes to the frame's events and leaves those
/// already there, in the order they came; one that carries no input adds
/// nothing.
pub proof fn law_window_events_append(
    before: InputModel,
    after: InputModel,
    platform: Platform,
    event: WindowEvent,
)
    requires
        is_fed(before, after, platform, event),
    ensures
        before.events.is_prefix_of(after.events),
        after.events.len() > before.events.len() <==> carries_input(event),
{
    let key = match event {
        WindowEvent::KeyboardInput { physical_key, .. } => choose|key: Key|
            #[trigger] is_name_of(key, physical_key) && after == before.pushed_all(
                translated(before, platform, event, key),
            ),
        _ => Key::Escape,
    };
    super::law_pushed_events_are_kept_in_order(
        refreshed(before, event),
        translated(before, platform, event, key),
    );
    assert(before.events.is_prefix_of(after.events));
}

/// A gesture presses nothing: a pinch or a rotation leaves the pointers, the
/// mouse and the touches as they were.
pub proof fn law_gestures_press_nothing(
    before: InputModel,
    after: InputModel,
    platform: Platform,
    event: WindowEvent,
)
    requires
        before.wf(),
        is_fed(before, after, platform, event),
        event is PinchGesture || event is RotationGesture,
    ensures
        after == (InputModel { events: after.events, ..before }),
{
    let action = match event {
        WindowEvent::PinchGesture { delta } => PointerAction::Zoom(delta),
        WindowEvent::RotationGesture { delta } => PointerAction::Rotate(delta),
        _ => PointerAction::Moved,
    };
    let first = gesture_pointer(platform, action, before.modifiers);
    lemma_push_few(before, first, first);
}

/// No two key codes share a name, and no named key is the unnamed one.
pub proof fn law_named_keys_are_distinct(a: KeyCode, b: KeyCode)
    ensures
        named_key(a) is Some && named_key(a) == named_key(b) ==> a == b,
        named_key(a) matches Some(key) ==> !(key is Other),
{
}

/// A key this crate does not name keeps the platform's own code: it is the
/// unnamed key and never a named one, whatever scancode winit has for it.
pub proof fn law_unnamed_keys_stay_unnamed(code: KeyCode, key: Key)
    requires
        named_key(code) is None,
        is_name_of(key, PhysicalKey::Code(code)),
    ensures
        key is Other,
{
}

/// Keypad keys are not collapsed onto the keys they resemble: a numpad digit is
/// never a digit of the top row, and the numpad's Enter never the main Enter.
pub proof fn law_keypad_keys_are_kept_apart(code: KeyCode, key: Key)
    requires
        is_name_of(key, PhysicalKey::Code(code)),
        code is Numpad0 || code is Numpad1 || code is Numpad2 || code is Numpad3 || code is Numpad4
            || code is Numpad5 || code is Numpad6 || code is Numpad7 || code is Numpad8
            || code is Numpad9 || code is NumpadEnter,
    ensures
        key is Other,
        !(key is Num0 || key is Num1 || key is Num2 || key is Num3 || key is Num4 || key is Num5
            || key is Num6 || key is Num7 || key is Num8 || key is Num9 || key is Enter),
{
    assert(named_key(code) is None);
    law_unnamed_keys_stay_unnamed(code, key);
}

/// Two unnamed keys are told apart as far as winit tells them apart: by their
/// scancodes where it has one for each, and by winit's own numbering where it
/// has one for neither.
pub proof fn law_unnamed_keys_differ_as_their_codes_do(
    a: KeyCode,
    a_scancode: Option<u32>,
    b: KeyCode,
    b_scancode: Option<u32>,
)
    requires
        match (a_scancode, b_scancode) {
            (Some(a_scancode), Some(b_scancode)) => a_scancode != b_scancode,
            (None, None) => a != b,
            _ => false,
        },
    ensures
        code_given(PhysicalKey::Code(a), a_scancode) != code_given(
            PhysicalKey::Code(b),
            b_scancode,
        ),
{
    if a_scancode is None {
        lemma_key_codes_distinct(a, b);
    }
}

/// No two key codes share a number.
proof fn lemma_key_codes_distinct(a: KeyCode, b: KeyCode)
    requires
        a != b,
    ensures
        a as u32 != b as u32,
{
}

/// Every letter key gets the key of its own letter, so a control bound to `W`
/// or `S` is where the keyboard has it.
pub proof fn law_letter_keys_keep_their_letter()
    ensures
        named_key(KeyCode::KeyA) == Some(Key::A),
        named_key(KeyCode::KeyB) == Some(Key::B),
        named_key(KeyCode::KeyC) == Some(Key::C),
        named_key(KeyCode::KeyD) == Some(Key::D),
        named_key(KeyCode::KeyE) == Some(Key::E),
        named_key(KeyCode::KeyF) == Some(Key::F),
        named_key(KeyCode::KeyG) == Some(Key::G),
        named_key(KeyCode::KeyH) == Some(Key::H),
        named_key(KeyCode::KeyI) == Some(Key::I),
        named_key(KeyCode::KeyJ) == Some(Key::J),
        named_key(KeyCode::KeyK) == Some(Key::K),
        named_key(KeyCode::KeyL) == Some(Key::L),
        named_key(KeyCode::KeyM) == Some(Key::M),
        named_key(KeyCode::KeyN) == Some(Key::N),
        named_key(KeyCode::KeyO) == Some(Key::O),
        named_key(KeyCode::KeyP) == Some(Key::P),
        named_key(KeyCode::KeyQ) == Some(Key::Q),
        named_key(KeyCode::KeyR) == Some(Key::R),
        named_key(KeyCode::KeyS) == Some(Key::S),
        named_key(KeyCode::KeyT) == Some(Key::T),
        named_key(KeyCode::KeyU) == Some(Key::U),
        named_key(KeyCode::KeyV) == Some(Key::V),
        named_key(KeyCode::KeyW) == Some(Key::W),
        named_key(KeyCode::KeyX) == Some(Key::X),
        named_key(KeyCode::KeyY) == Some(Key::Y),
        named_key(KeyCode::KeyZ) == Some(Key::Z),
{
}

/// Every key of the digit row gets the key of its own digit.
pub proof fn law_digit_keys_keep_their_digit()
    ensures
        named_key(KeyCode::Digit0) == Some(Key::Num0),
        named_key(KeyCode::Digit1) == Some(Key::Num1),
        named_key(KeyCode::Digit2) == Some(Key::Num2),
        named_key(KeyCode::Digit3) == Some(Key::Num3),
        named_key(KeyCode::Digit4) == Some(Key::Num4),
        named_key(KeyCode::Digit5) == Some(Key::Num5),
        named_key(KeyCode::Digit6) == Some(Key::Num6),
        named_key(KeyCode::Digit7) == Some(Key::Num7),
        named_key(KeyCode::Digit8) == Some(Key::Num8),
        named_key(KeyCode::Digit9) == Some(Key::Num9),
{
}

/// The keys that edit and navigate get the keys of their own names.
pub proof fn law_control_keys_keep_their_name()
    ensures
        named_key(KeyCode::Escape) == Some(Key::Escape),
        named_key(KeyCode::Space) == Some(Key::Space),
        named_key(KeyCode::Enter) == Some(Key::Enter),
        named_key(KeyCode::Tab) == Some(Key::Tab),
        named_key(KeyCode::Backspace) == Some(Key::Backspace),
        named_key(KeyCode::Delete) == Some(Key::Delete),
        named_key(KeyCode::ArrowUp) == Some(Key::ArrowUp),
        named_key(KeyCode::ArrowDown) == Some(Key::ArrowDown),
        named_key(KeyCode::ArrowLeft) == Some(Key::ArrowLeft),
        named_key(KeyCode::ArrowRight) == Some(Key::ArrowRight),
        named_key(KeyCode::Home) == Some(Key::Home),
        named_key(KeyCode::End) == Some(Key::End),
        named_key(KeyCode::PageUp) == Some(Key::PageUp),
        named_key(KeyCode::PageDown) == Some(Key::PageDown),
{
}

/// Every function key gets the key of its own number.
pub proof fn law_function_keys_keep_their_number()
    ensures
        named_key(KeyCode::F1) == Some(Key::F1),
        named_key(KeyCode::F2) == Some(Key::F2),
        named_key(KeyCode::F3) == Some(Key::F3),
        named_key(KeyCode::F4) == Some(Key::F4),
        named_key(KeyCode::F5) == Some(Key::F5),
        named_key(KeyCode::F6) == Some(Key::F6),
        named_key(KeyCode::F7) == Some(Key::F7),
        named_key(KeyCode::F8) == Some(Key::F8),
        named_key(KeyCode::F9) == Some(Key::F9),
        named_key(KeyCode::F10) == Some(Key::F10),
        named_key(KeyCode::F11) == Some(Key::F11),
        named_key(KeyCode::F12) == Some(Key::F12),
        named_key(KeyCode::F13) == Some(Key::F13),
        named_key(KeyCode::F14) == Some(Key::F14),
        named_key(KeyCode::F15) == Some(Key::F15),
        named_key(KeyCode::F16) == Some(Key::F16),
        named_key(KeyCode::F17) == Some(Key::F17),
        named_key(KeyCode::F18) == Some(Key::F18),
        named_key(KeyCode::F19) == Some(Key::F19),
        named_key(KeyCode::F20) == Some(Key::F20),
        named_key(KeyCode::F21) == Some(Key::F21),
        named_key(KeyCode::F22) == Some(Key::F22),
        named_key(KeyCode::F23) == Some(Key::F23),
        named_key(KeyCode::F24) == Some(Key::F24),
        named_key(KeyCode::F25) == Some(Key::F25),
        named_key(KeyCode::F26) == Some(Key::F26),
        named_key(KeyCode::F27) == Some(Key::F27),
        named_key(KeyCode::F28) == Some(Key::F28),
        named_key(KeyCode::F29) == Some(Key::F29),
        named_key(KeyCode::F30) == Some(Key::F30),
        named_key(KeyCode::F31) == Some(Key::F31),
        named_key(KeyCode::F32) == Some(Key::F32),
        named_key(KeyCode::F33) == Some(Key::F33),
        named_key(KeyCode::F34) == Some(Key::F34),
        named_key(KeyCode::F35) == Some(Key::F35),
{
}

/// A key is named by its code and by nothing else: the key a physical key is
/// given is the one named for its code where there is one. A key winit could not
/// identify carries the native code it came with.
pub proof fn law_a_physical_key_is_named_by_its_code(code: KeyCode, native: NativeKeyCode, key: Key)
    ensures
        named_key(code) is Some ==> (is_name_of(key, PhysicalKey::Code(code)) <==> Some(key)
            == named_key(code)),
        is_name_of(key, PhysicalKey::Unidentified(native)) ==> key == Key::Other(
            native_code(native),
        ),
{
}

/// The code of an unnamed key is the keyboard's scancode where winit has one,
/// and otherwise what winit itself numbers or reports the key as.
pub proof fn law_the_scancode_is_preferred(
    physical_key: PhysicalKey,
    code: KeyCode,
    native: NativeKeyCode,
    scancode: u32,
)
    ensures
        code_given(physical_key, Some(scancode)) == scancode,
        code_given(PhysicalKey::Code(code), None) == code as u32,
        code_given(PhysicalKey::Unidentified(native), None) == native_code(native),
{
}

/// A native code reaches the application as the platform reported it.
pub proof fn law_native_codes_are_kept(wide: u32, narrow: u16)
    ensures
        native_code(NativeKeyCode::Android(wide)) == wide,
        native_code(NativeKeyCode::Xkb(wide)) == wide,
        native_code(NativeKeyCode::MacOS(narrow)) == narrow,
        native_code(NativeKeyCode::Windows(narrow)) == narrow,
        native_code(NativeKeyCode::Unidentified) == 0,
{
}

/// Every modifier is held exactly when its key is. The command key is Control,
/// but on macOS it is the Super key, which is the Command key nowhere else.
pub proof fn law_modifiers_are_the_held_keys(state: ModifiersState)
    ensures
        ({
            let here = to_modifiers(state, Platform::Other);
            let mac = to_modifiers(state, Platform::MacOs);
            &&& here.alt == state.alt_key && mac.alt == state.alt_key
            &&& here.ctrl == state.control_key && mac.ctrl == state.control_key
            &&& here.shift == state.shift_key && mac.shift == state.shift_key
            &&& here.command == state.control_key && mac.command == state.super_key
            &&& !here.mac_cmd && mac.mac_cmd == state.super_key
        }),
{
}

/// The left button is the primary one and the right button the secondary, the
/// others keep their names, and an unnamed button keeps its code.
pub proof fn law_buttons_keep_their_meaning(code: u16)
    ensures
        to_button(WinitButton::Left) == MouseButton::Primary,
        to_button(WinitButton::Right) == MouseButton::Secondary,
        to_button(WinitButton::Middle) == MouseButton::Middle,
        to_button(WinitButton::Back) == MouseButton::Back,
        to_button(WinitButton::Forward) == MouseButton::Forward,
        to_button(WinitButton::Other(code)) == MouseButton::Other(code),
{
}

/// A phase stays the phase it is.
pub proof fn law_phases_keep_their_meaning(phase: WinitPhase)
    ensures
        to_phase(phase) is Started <==> phase is Started,
        to_phase(phase) is Moved <==> phase is Moved,
        to_phase(phase) is Ended <==> phase is Ended,
        to_phase(phase) is Cancelled <==> phase is Cancelled,
{
}

/// A wheel delta keeps both of its components, and says whether it counts lines
/// or pixels.
pub proof fn law_wheel_deltas_are_kept(x: Scalar, y: Scalar, pixels: Position)
    ensures
        to_wheel(MouseScrollDelta::LineDelta(x, y)).0[0] == x,
        to_wheel(MouseScrollDelta::LineDelta(x, y)).0[1] == y,
        to_wheel(MouseScrollDelta::LineDelta(x, y)).1 is Line,
        to_wheel(MouseScrollDelta::PixelDelta(pixels)).0 == pixels,
        to_wheel(MouseScrollDelta::PixelDelta(pixels)).1 is Pixel,
{
}

/// An input method's text reaches the application as it is, with the range it
/// still composes, and switching the method on or off is told apart.
pub proof fn law_composed_text_is_kept(text: String, cursor: Option<(usize, usize)>, ime: Ime)
    ensures
        ime_kind(Ime::Commit(text)) == ImeKind::Commit(text),
        ime_kind(Ime::Preedit(text, cursor)) matches ImeKind::Preedit {
            text: composed,
            active_range,
        } && composed == text && (active_range is Some <==> cursor is Some) && (cursor matches Some(
            ends,
        ) ==> active_range->0.start == ends.0 && active_range->0.end == ends.1),
        ime_kind(ime) is Enabled <==> ime is Enabled,
        ime_kind(ime) is Disabled <==> ime is Disabled,
{
}

/// A finger acts as a pointer: going down presses, moving moves, and going up
/// releases, each where the finger is. A gesture the platform took away releases
/// too, but is marked as cancelled and happens nowhere.
pub proof fn law_a_finger_acts_as_a_pointer(phase: TouchPhase, position: Position)
    ensures
        ({
            let (action, place) = pointer_of_touch(phase, position);
            &&& action is Pressed <==> phase is Started
            &&& action is Moved <==> phase is Moved
            &&& action is Released <==> phase is Ended || phase is Cancelled
            &&& action matches PointerAction::Released { cancelled } ==> cancelled == (phase
                is Cancelled)
            &&& !(phase is Cancelled) ==> place == Some(position)
            &&& phase is Cancelled ==> place is None
        }),
{
}

/// A gesture comes from the trackpad on macOS and from the touch screen
/// elsewhere.
pub proof fn law_gestures_come_from_the_platforms_device(platform: Platform)
    ensures
        gesture_kind(platform) is Trackpad <==> platform is MacOs,
        gesture_kind(platform) is Touch <==> !(platform is MacOs),
{
}

/// The events a window event added to those of the frame.
pub open spec fn added(before: InputModel, after: InputModel) -> Seq<InputEvent> {
    after.events.skip(before.events.len() as int)
}

/// The key a fed window event was pushed with, and the events it became.
proof fn lemma_fed(
    before: InputModel,
    after: InputModel,
    platform: Platform,
    event: WindowEvent,
) -> (key: Key)
    requires
        is_fed(before, after, platform, event),
    ensures
        event matches WindowEvent::KeyboardInput { physical_key, .. } ==> is_name_of(
            key,
            physical_key,
        ),
        after == refreshed(before, event).pushed_all(translated(before, platform, event, key)),
        added(before, after) == translated(before, platform, event, key),
{
    let key = match event {
        WindowEvent::KeyboardInput { physical_key, .. } => choose|key: Key|
            #[trigger] is_name_of(key, physical_key) && after == before.pushed_all(
                translated(before, platform, event, key),
            ),
        _ => Key::Escape,
    };
    let events = translated(before, platform, event, key);
    super::law_pushed_events_are_kept_in_order(refreshed(before, event), events);
    assert(added(before, after) =~= events);
    key
}

/// What a key becomes: one key event that says which key, whether it went down
/// and whether it repeats, with the modifiers that are held; and, where it went
/// down and produced text, that text after it.
pub proof fn law_a_key_is_reported_with_its_text(
    before: InputModel,
    after: InputModel,
    platform: Platform,
    event: WindowEvent,
)
    requires
        is_fed(before, after, platform, event),
        event is KeyboardInput,
    ensures
        event matches WindowEvent::KeyboardInput { physical_key, state, repeat, text } ==> {
            let new = added(before, after);
            &&& new[0] matches InputEvent::Key(reported) && is_name_of(reported.key, physical_key)
                && reported.pressed == (state is Pressed) && reported.repeat == repeat
                && reported.modifiers == before.modifiers
            &&& new.len() == if state is Pressed && text is Some {
                2int
            } else {
                1int
            }
            &&& new.len() == 2 ==> (new[1] matches InputEvent::Text(produced) && produced.0
                == text->0)
        },
{
    let key = lemma_fed(before, after, platform, event);
}

/// What a mouse becomes: every move, button and departure is reported once for
/// the mouse and once for the pointer it is, both in the same place, and a wheel
/// step for the mouse alone. A button happens where the cursor is, or at the
/// origin while that is unknown.
pub proof fn law_the_mouse_is_reported_as_mouse_and_pointer(
    before: InputModel,
    after: InputModel,
    platform: Platform,
    event: WindowEvent,
)
    requires
        is_fed(before, after, platform, event),
    ensures
        ({
            let new = added(before, after);
            let place = if before.cursor is Some {
                before.cursor->0
            } else {
                [Scalar(0), Scalar(0)]
            };
            &&& event matches WindowEvent::CursorMoved { position } ==> {
                &&& new.len() == 2
                &&& new[0] == InputEvent::Mouse(MouseEvent::Moved { position })
                &&& new[1] matches InputEvent::Pointer(pointer) && pointer.kind is Mouse
                    && pointer.id == 0 && pointer.action is Moved && pointer.position == Some(
                    position,
                ) && pointer.modifiers == before.modifiers
            }
            &&& event matches WindowEvent::MouseInput { state, button } ==> {
                &&& new.len() == 2
                &&& new[0] == InputEvent::Mouse(
                    MouseEvent::Button {
                        position: place,
                        button: to_button(button),
                        pressed: state is Pressed,
                        modifiers: before.modifiers,
                    },
                )
                &&& new[1] matches InputEvent::Pointer(pointer) && pointer.kind is Mouse
                    && pointer.id == 0 && pointer.position == Some(place) && pointer.modifiers
                    == before.modifiers && (if state is Pressed {
                    pointer.action is Pressed
                } else {
                    pointer.action == PointerAction::Released { cancelled: false }
                })
            }
            &&& event matches WindowEvent::MouseWheel { delta, phase } ==> {
                &&& new.len() == 1
                &&& new[0] == InputEvent::Mouse(
                    MouseEvent::Wheel {
                        delta: to_wheel(delta).0,
                        unit: to_wheel(delta).1,
                        phase: to_phase(phase),
                        modifiers: before.modifiers,
                    },
                )
            }
            &&& event is CursorLeft ==> {
                &&& new.len() == 2
                &&& new[0] == InputEvent::Mouse(MouseEvent::Left)
                &&& new[1] matches InputEvent::Pointer(pointer) && pointer.kind is Mouse
                    && pointer.id == 0 && pointer.action is Left && pointer.position is None
                    && pointer.modifiers == before.modifiers
            }
        }),
{
    let key = lemma_fed(before, after, platform, event);
}

/// What a finger and a gesture become: a touch is reported once as the touch it
/// is and once as a pointer with the touch's own id; a pinch and a rotation are
/// reported once, with how far they went.
pub proof fn law_fingers_are_reported_as_touch_and_pointer(
    before: InputModel,
    after: InputModel,
    platform: Platform,
    event: WindowEvent,
)
    requires
        is_fed(before, after, platform, event),
    ensures
        ({
            let new = added(before, after);
            &&& event matches WindowEvent::Touch { id, phase, location, force } ==> {
                &&& new.len() == 2
                &&& new[0] matches InputEvent::Touch(touch) && touch.id == id && touch.phase
                    == to_phase(phase) && touch.position == location && touch.force == force
                &&& new[1] matches InputEvent::Pointer(pointer) && pointer.kind is Touch
                    && pointer.id == id && pointer.modifiers == before.modifiers && (pointer.action,
                    pointer.position) == pointer_of_touch(to_phase(phase), location)
            }
            &&& event matches WindowEvent::PinchGesture { delta } ==> {
                &&& new.len() == 1
                &&& new[0] matches InputEvent::Pointer(pointer) && pointer.action
                    == PointerAction::Zoom(delta) && pointer.kind == gesture_kind(platform)
                    && pointer.position is None && pointer.modifiers == before.modifiers
            }
            &&& event matches WindowEvent::RotationGesture { delta } ==> {
                &&& new.len() == 1
                &&& new[0] matches InputEvent::Pointer(pointer) && pointer.action
                    == PointerAction::Rotate(delta) && pointer.kind == gesture_kind(platform)
                    && pointer.position is None && pointer.modifiers == before.modifiers
            }
        }),
{
    let key = lemma_fed(before, after, platform, event);
}

/// What the rest becomes: the modifiers, the focus and the input method are
/// reported once each, and what carries no input not at all.
pub proof fn law_window_changes_are_reported_once(
    before: InputModel,
    after: InputModel,
    platform: Platform,
    event: WindowEvent,
)
    requires
        is_fed(before, after, platform, event),
    ensures
        ({
            let new = added(before, after);
            &&& event matches WindowEvent::ModifiersChanged(held) ==> new == seq![
                InputEvent::ModifiersChanged(to_modifiers(held, platform)),
            ]
            &&& event matches WindowEvent::Focused(focused) ==> new == seq![
                InputEvent::FocusChanged(focused),
            ]
            &&& event matches WindowEvent::Ime(ime) ==> new.len() == 1 && (new[0] matches InputEvent::Ime(
                method,
            ) && method.kind == ime_kind(ime))
            &&& event is Resized || event is ScaleFactorChanged || event is Other ==> new.len()
                == 0
        }),
{
    let key = lemma_fed(before, after, platform, event);
}

/// Pushing at most two events is pushing the first and then the second.
proof fn lemma_push_at_most_two(state: InputModel, events: Seq<InputEvent>)
    requires
        events.len() <= 2,
    ensures
        state.pushed_all(events) == if events.len() == 0 {
            state
        } else if events.len() == 1 {
            state.pushed(events[0])
        } else {
            state.pushed(events[0]).pushed(events[1])
        },
{
    if events.len() == 0 {
        assert(events =~= seq![]);
    } else if events.len() == 1 {
        assert(events =~= seq![events[0]]);
        lemma_push_few(state, events[0], events[0]);
    } else {
        assert(events =~= seq![events[0], events[1]]);
        lemma_push_few(state, events[0], events[1]);
    }
}

/// What a fed window event leaves behind, as one or two pushes.
proof fn lemma_fed_in_pushes(
    before: InputModel,
    after: InputModel,
    platform: Platform,
    event: WindowEvent,
)
    requires
        is_fed(before, after, platform, event),
    ensures
        ({
            let start = refreshed(before, event);
            let new = added(before, after);
            &&& new.len() <= 2
            &&& after == if new.len() == 0 {
                start
            } else if new.len() == 1 {
                start.pushed(new[0])
            } else {
                start.pushed(new[0]).pushed(new[1])
            }
        }),
{
    let key = lemma_fed(before, after, platform, event);
    let events = translated(before, platform, event, key);
    assert(events.len() <= 2);
    lemma_push_at_most_two(refreshed(before, event), events);
}

/// The focus is what the window last reported: it follows the focus events, and
/// every other event leaves it as it was.
#[verifier::spinoff_prover]
#[verifier::rlimit(50)]
pub proof fn law_the_window_has_the_focus_it_reported(
    before: InputModel,
    after: InputModel,
    platform: Platform,
    event: WindowEvent,
)
    requires
        is_fed(before, after, platform, event),
    ensures
        event matches WindowEvent::Focused(focused) ==> after.focused == focused,
        !(event is Focused) ==> after.focused == before.focused,
{
    let key = lemma_fed(before, after, platform, event);
    let start = refreshed(before, event);
    let events = translated(before, platform, event, key);
    if let WindowEvent::Focused(focused) = event {
        lemma_push_few(start, events[0], events[0]);
        assert(events =~= seq![events[0]]);
    } else {
        lemma_focus_stays(start, events);
    }
}

/// Events that report no focus leave it as it was.
proof fn lemma_focus_stays(state: InputModel, events: Seq<InputEvent>)
    requires
        forall|i: int| 0 <= i < events.len() ==> !(#[trigger] events[i] is FocusChanged),
    ensures
        state.pushed_all(events).focused == state.focused,
    decreases events.len(),
{
    if events.len() > 0 {
        let rest = events.drop_last();
        assert forall|i: int| 0 <= i < rest.len() implies !(#[trigger] rest[i] is FocusChanged) by {
            assert(rest[i] == events[i]);
        }
        lemma_focus_stays(state, rest);
        assert(!(events[events.len() - 1] is FocusChanged));
        super::law_the_focus_is_what_was_last_reported(
            state.pushed_all(rest),
            events.last(),
            true,
        );
    }
}

/// The modifiers are what the window last reported as held: they follow the
/// modifier events, and every other event leaves them as they were.
#[verifier::spinoff_prover]
#[verifier::rlimit(50)]
pub proof fn law_the_window_has_the_modifiers_it_reported(
    before: InputModel,
    after: InputModel,
    platform: Platform,
    event: WindowEvent,
)
    requires
        is_fed(before, after, platform, event),
    ensures
        event matches WindowEvent::ModifiersChanged(held) ==> after.modifiers == to_modifiers(
            held,
            platform,
        ),
        !(event is ModifiersChanged) ==> after.modifiers == before.modifiers,
{
    let key = lemma_fed(before, after, platform, event);
    let start = refreshed(before, event);
    let events = translated(before, platform, event, key);
    if let WindowEvent::ModifiersChanged(held) = event {
        lemma_push_few(start, events[0], events[0]);
        assert(events =~= seq![events[0]]);
    } else {
        lemma_modifiers_stay(start, events);
    }
}

/// Events that report no other modifiers leave them as they were.
proof fn lemma_modifiers_stay(state: InputModel, events: Seq<InputEvent>)
    requires
        forall|i: int|
            0 <= i < events.len() ==> !(#[trigger] events[i] is ModifiersChanged) && (
            events[i] matches InputEvent::Key(key) ==> key.modifiers == state.modifiers),
    ensures
        state.pushed_all(events).modifiers == state.modifiers,
    decreases events.len(),
{
    if events.len() > 0 {
        let rest = events.drop_last();
        assert forall|i: int| 0 <= i < rest.len() implies !(#[trigger] rest[i] is ModifiersChanged)
            && (rest[i] matches InputEvent::Key(key) ==> key.modifiers == state.modifiers) by {
            assert(rest[i] == events[i]);
        }
        lemma_modifiers_stay(state, rest);
        let last = events[events.len() - 1];
        assert(!(last is ModifiersChanged));
        if let InputEvent::Key(key) = last {
            super::law_the_modifiers_are_what_was_last_reported(
                state.pushed_all(rest),
                key,
                state.modifiers,
                last,
            );
        }
    }
}

/// The size and the pixel density are what the window last reported, and every
/// other event leaves them as they were.
pub proof fn law_the_window_has_the_size_it_reported(
    before: InputModel,
    after: InputModel,
    platform: Platform,
    event: WindowEvent,
)
    requires
        is_fed(before, after, platform, event),
    ensures
        event matches WindowEvent::Resized { width, height } ==> after.size_px == (width, height),
        !(event is Resized) ==> after.size_px == before.size_px,
        event matches WindowEvent::ScaleFactorChanged { scale_factor } ==> after.scale_factor
            == scale_factor,
        !(event is ScaleFactorChanged) ==> after.scale_factor == before.scale_factor,
{
    let key = lemma_fed(before, after, platform, event);
    lemma_window_stays(refreshed(before, event), translated(before, platform, event, key));
}

/// No event of a frame moves the size or the density.
proof fn lemma_window_stays(state: InputModel, events: Seq<InputEvent>)
    ensures
        state.pushed_all(events).size_px == state.size_px,
        state.pushed_all(events).scale_factor == state.scale_factor,
    decreases events.len(),
{
    if events.len() > 0 {
        lemma_window_stays(state, events.drop_last());
        super::law_an_event_moves_only_its_own_state(
            state.pushed_all(events.drop_last()),
            events.last(),
        );
    }
}

/// The mouse is what its last event said: it is where it moved, nowhere once it
/// left, and holds the buttons that went down and did not come up.
#[verifier::spinoff_prover]
pub proof fn law_the_mouse_is_what_it_last_reported(
    before: InputModel,
    after: InputModel,
    platform: Platform,
    event: WindowEvent,
    button: MouseButton,
)
    requires
        is_fed(before, after, platform, event),
        !(button is Other),
    ensures
        event matches WindowEvent::CursorMoved { position } ==> after.cursor == Some(position)
            && after.pointer == Some(position),
        event is CursorLeft ==> after.cursor is None && after.pointer is None,
        !(event is CursorMoved || event is CursorLeft || event is MouseInput) ==> after.cursor
            == before.cursor,
        ({
            let bit = super::MouseButtons::bit_of(button)->0;
            match event {
                WindowEvent::MouseInput { state, button: changed } => if to_button(changed)
                    == button {
                    after.buttons.contains(bit) == (state is Pressed)
                } else {
                    after.buttons.contains(bit) == before.buttons.contains(bit)
                },
                _ => after.buttons == before.buttons,
            }
        }),
{
    let key = lemma_fed(before, after, platform, event);
    lemma_fed_in_pushes(before, after, platform, event);
    let start = refreshed(before, event);
    let new = added(before, after);
    if new.len() > 0 {
        super::law_a_button_is_held_until_released(start, button, new[0]);
        super::law_an_event_moves_only_its_own_state(start, new[0]);
        if new.len() > 1 {
            super::law_a_button_is_held_until_released(start.pushed(new[0]), button, new[1]);
            super::law_an_event_moves_only_its_own_state(start.pushed(new[0]), new[1]);
        }
    }
}

/// Events of other devices leave the touches as they were.
proof fn lemma_touches_stay(state: InputModel, events: Seq<InputEvent>)
    requires
        forall|i: int| 0 <= i < events.len() ==> !(#[trigger] events[i] is Touch),
    ensures
        state.pushed_all(events).touches == state.touches,
    decreases events.len(),
{
    if events.len() > 0 {
        let rest = events.drop_last();
        assert forall|i: int| 0 <= i < rest.len() implies !(#[trigger] rest[i] is Touch) by {
            assert(rest[i] == events[i]);
        }
        lemma_touches_stay(state, rest);
        assert(!(events[events.len() - 1] is Touch));
        super::law_an_event_moves_only_its_own_state(state.pushed_all(rest), events.last());
    }
}

/// No event but a touch's own moves a touch.
pub proof fn law_only_fingers_move_touches(
    before: InputModel,
    after: InputModel,
    platform: Platform,
    event: WindowEvent,
)
    requires
        is_fed(before, after, platform, event),
        !(event is Touch),
    ensures
        after.touches == before.touches,
{
    let key = lemma_fed(before, after, platform, event);
    lemma_touches_stay(refreshed(before, event), translated(before, platform, event, key));
}

/// A finger is down where it last was, as a touch and as a pointer, until it
/// goes up or the platform takes it away.
pub proof fn law_a_finger_is_where_it_was_last_reported(
    before: InputModel,
    after: InputModel,
    platform: Platform,
    id: u64,
    phase: WinitPhase,
    location: Position,
    force: Option<Scalar>,
)
    requires
        before.wf(),
        is_fed(before, after, platform, (WindowEvent::Touch { id, phase, location, force })),
    ensures
        ({
            let down = if phase is Started || phase is Moved {
                Some(location)
            } else {
                None
            };
            &&& super::touch_position(after.touches, id) == down
            &&& !(phase is Moved) ==> super::contact_position(
                after.pointers,
                PointerKind::Touch,
                id,
            ) == down
        }),
{
    let event = WindowEvent::Touch { id, phase, location, force };
    let first = InputEvent::Touch(
        TouchEvent { id, phase: to_phase(phase), position: location, force },
    );
    let (action, place) = pointer_of_touch(to_phase(phase), location);
    let pointer = PointerEvent {
        kind: PointerKind::Touch,
        id,
        action,
        position: place,
        modifiers: before.modifiers,
    };
    let second = InputEvent::Pointer(pointer);
    lemma_push_few(before, first, second);
    assert(after == before.pushed(first).pushed(second));
    let other: u64 = if id == 0 {
        1
    } else {
        0
    };
    super::law_touches_are_tracked(before, first->Touch_0, other);
    super::law_push_keeps_the_state_consistent(before, first);
    super::law_an_event_moves_only_its_own_state(before.pushed(first), second);
    super::law_a_contact_follows_its_own_events(before.pushed(first), pointer);
}

} // verus!
