//! Translating input events into the ones egui takes.
//!
//! [`crate::input`] is free of any UI toolkit; this module is the one place the
//! two meet.
//!
//! # Units
//!
//! Input reports positions in physical pixels from the window's top-left; egui
//! works in logical points. A [`Points`] value names both the pixels and the
//! density they are to be divided by, so nothing is left to scale twice.
//!
//! # Touches
//!
//! egui asks for a touch point to be reported both as a touch and as the
//! pointer: a touch is what a widget watching for a finger wants, while the
//! pointer events are what makes tapping a button work at all. One touch
//! therefore becomes several events.

use egui::ImeEvent as UiImeEvent;
use egui::Key as UiKey;
use egui::Modifiers as UiModifiers;
use egui::PointerButton as UiButton;
use egui::TouchPhase as UiPhase;
use egui::{MouseWheelUnit, TouchDeviceId, TouchId};
use vstd::prelude::*;

use crate::input::{
    ImeEvent, ImeKind, InputEvent, Key, KeyEvent, Modifiers, MouseButton, MouseEvent,
    PointerAction, PointerEvent, TouchEvent, TouchPhase, WheelUnit,
};
use crate::scalar::{Position, Scalar};

verus! {

/// egui's keys.
#[verifier::external_type_specification]
pub struct ExUiKey(UiKey);

/// egui's modifier state.
#[verifier::external_type_specification]
pub struct ExUiModifiers(UiModifiers);

/// egui's pointer buttons.
#[verifier::external_type_specification]
pub struct ExUiButton(UiButton);

/// egui's gesture phases.
#[verifier::external_type_specification]
pub struct ExUiPhase(UiPhase);

/// egui's wheel units.
#[verifier::external_type_specification]
pub struct ExMouseWheelUnit(MouseWheelUnit);

/// egui's touch devices.
#[verifier::external_type_specification]
pub struct ExTouchDeviceId(TouchDeviceId);

/// egui's touch ids.
#[verifier::external_type_specification]
pub struct ExTouchId(TouchId);

/// egui's input-method events.
#[verifier::external_type_specification]
pub struct ExUiImeEvent(UiImeEvent);

/// A position or an extent in logical points: `pixels` divided, component by
/// component, by `density`.
#[derive(Clone, Copy, Debug, PartialEq, Eq)]
pub struct Points {
    /// The position or extent before the division.
    pub pixels: Position,
    /// What it is divided by.
    pub density: Scalar,
}

/// An event in egui's terms: each variant stands for the variant of the same
/// name of `egui::Event`.
#[derive(Debug, PartialEq)]
pub enum UiEvent {
    /// A key changed state.
    Key {
        /// The logical key.
        key: UiKey,
        /// The physical key.
        physical_key: Option<UiKey>,
        /// Whether the key went down.
        pressed: bool,
        /// Whether this is an auto-repeat.
        repeat: bool,
        /// The modifier state.
        modifiers: UiModifiers,
    },
    /// The pointer moved.
    PointerMoved(Points),
    /// A pointer button changed state.
    PointerButton {
        /// Where the pointer was.
        pos: Points,
        /// Which button.
        button: UiButton,
        /// Whether the button went down.
        pressed: bool,
        /// The modifier state.
        modifiers: UiModifiers,
    },
    /// The pointer left.
    PointerGone,
    /// The wheel scrolled.
    MouseWheel {
        /// What `delta` is measured in.
        unit: MouseWheelUnit,
        /// The scroll amount.
        delta: Points,
        /// Where the gesture is in its lifetime.
        phase: UiPhase,
        /// The modifier state.
        modifiers: UiModifiers,
    },
    /// A pinch gesture.
    Zoom(Scalar),
    /// A rotation gesture.
    Rotate(Scalar),
    /// A touch point changed.
    Touch {
        /// Which device the touch is on.
        device_id: TouchDeviceId,
        /// Which touch of that device it is.
        id: TouchId,
        /// Where the touch is in its lifetime.
        phase: UiPhase,
        /// Where the touch is.
        pos: Points,
        /// The pressure, if the device reports any.
        force: Option<Scalar>,
    },
    /// Text was produced.
    Text(String),
    /// An input method changed its composition state.
    Ime(UiImeEvent),
    /// The modifier state changed.
    ModifiersChanged(UiModifiers),
    /// The window gained or lost focus.
    WindowFocused(bool),
}

/// The egui key of the same name, or `None` for a key egui cannot name.
///
/// egui's key space is closed and has no "some other key", so only
/// [`Key::Other`] stays untranslatable.
pub open spec fn ui_key(key: Key) -> Option<UiKey> {
    match key {
        Key::Escape => Some(UiKey::Escape),
        Key::Space => Some(UiKey::Space),
        Key::Enter => Some(UiKey::Enter),
        Key::Tab => Some(UiKey::Tab),
        Key::Backspace => Some(UiKey::Backspace),
        Key::Delete => Some(UiKey::Delete),
        Key::ArrowUp => Some(UiKey::ArrowUp),
        Key::ArrowDown => Some(UiKey::ArrowDown),
        Key::ArrowLeft => Some(UiKey::ArrowLeft),
        Key::ArrowRight => Some(UiKey::ArrowRight),
        Key::Home => Some(UiKey::Home),
        Key::End => Some(UiKey::End),
        Key::PageUp => Some(UiKey::PageUp),
        Key::PageDown => Some(UiKey::PageDown),
        Key::A => Some(UiKey::A),
        Key::B => Some(UiKey::B),
        Key::C => Some(UiKey::C),
        Key::D => Some(UiKey::D),
        Key::E => Some(UiKey::E),
        Key::F => Some(UiKey::F),
        Key::G => Some(UiKey::G),
        Key::H => Some(UiKey::H),
        Key::I => Some(UiKey::I),
        Key::J => Some(UiKey::J),
        Key::K => Some(UiKey::K),
        Key::L => Some(UiKey::L),
        Key::M => Some(UiKey::M),
        Key::N => Some(UiKey::N),
        Key::O => Some(UiKey::O),
        Key::P => Some(UiKey::P),
        Key::Q => Some(UiKey::Q),
        Key::R => Some(UiKey::R),
        Key::S => Some(UiKey::S),
        Key::T => Some(UiKey::T),
        Key::U => Some(UiKey::U),
        Key::V => Some(UiKey::V),
        Key::W => Some(UiKey::W),
        Key::X => Some(UiKey::X),
        Key::Y => Some(UiKey::Y),
        Key::Z => Some(UiKey::Z),
        Key::Num0 => Some(UiKey::Num0),
        Key::Num1 => Some(UiKey::Num1),
        Key::Num2 => Some(UiKey::Num2),
        Key::Num3 => Some(UiKey::Num3),
        Key::Num4 => Some(UiKey::Num4),
        Key::Num5 => Some(UiKey::Num5),
        Key::Num6 => Some(UiKey::Num6),
        Key::Num7 => Some(UiKey::Num7),
        Key::Num8 => Some(UiKey::Num8),
        Key::Num9 => Some(UiKey::Num9),
        Key::F1 => Some(UiKey::F1),
        Key::F2 => Some(UiKey::F2),
        Key::F3 => Some(UiKey::F3),
        Key::F4 => Some(UiKey::F4),
        Key::F5 => Some(UiKey::F5),
        Key::F6 => Some(UiKey::F6),
        Key::F7 => Some(UiKey::F7),
        Key::F8 => Some(UiKey::F8),
        Key::F9 => Some(UiKey::F9),
        Key::F10 => Some(UiKey::F10),
        Key::F11 => Some(UiKey::F11),
        Key::F12 => Some(UiKey::F12),
        Key::F13 => Some(UiKey::F13),
        Key::F14 => Some(UiKey::F14),
        Key::F15 => Some(UiKey::F15),
        Key::F16 => Some(UiKey::F16),
        Key::F17 => Some(UiKey::F17),
        Key::F18 => Some(UiKey::F18),
        Key::F19 => Some(UiKey::F19),
        Key::F20 => Some(UiKey::F20),
        Key::F21 => Some(UiKey::F21),
        Key::F22 => Some(UiKey::F22),
        Key::F23 => Some(UiKey::F23),
        Key::F24 => Some(UiKey::F24),
        Key::F25 => Some(UiKey::F25),
        Key::F26 => Some(UiKey::F26),
        Key::F27 => Some(UiKey::F27),
        Key::F28 => Some(UiKey::F28),
        Key::F29 => Some(UiKey::F29),
        Key::F30 => Some(UiKey::F30),
        Key::F31 => Some(UiKey::F31),
        Key::F32 => Some(UiKey::F32),
        Key::F33 => Some(UiKey::F33),
        Key::F34 => Some(UiKey::F34),
        Key::F35 => Some(UiKey::F35),
        Key::Other(_) => None,
    }
}

/// The key in egui's terms, or `None` for a key egui cannot name.
pub fn to_key(key: Key) -> (named: Option<UiKey>)
    ensures
        named == ui_key(key),
{
    match key {
        Key::Escape => Some(UiKey::Escape),
        Key::Space => Some(UiKey::Space),
        Key::Enter => Some(UiKey::Enter),
        Key::Tab => Some(UiKey::Tab),
        Key::Backspace => Some(UiKey::Backspace),
        Key::Delete => Some(UiKey::Delete),
        Key::ArrowUp => Some(UiKey::ArrowUp),
        Key::ArrowDown => Some(UiKey::ArrowDown),
        Key::ArrowLeft => Some(UiKey::ArrowLeft),
        Key::ArrowRight => Some(UiKey::ArrowRight),
        Key::Home => Some(UiKey::Home),
        Key::End => Some(UiKey::End),
        Key::PageUp => Some(UiKey::PageUp),
        Key::PageDown => Some(UiKey::PageDown),
        Key::A => Some(UiKey::A),
        Key::B => Some(UiKey::B),
        Key::C => Some(UiKey::C),
        Key::D => Some(UiKey::D),
        Key::E => Some(UiKey::E),
        Key::F => Some(UiKey::F),
        Key::G => Some(UiKey::G),
        Key::H => Some(UiKey::H),
        Key::I => Some(UiKey::I),
        Key::J => Some(UiKey::J),
        Key::K => Some(UiKey::K),
        Key::L => Some(UiKey::L),
        Key::M => Some(UiKey::M),
        Key::N => Some(UiKey::N),
        Key::O => Some(UiKey::O),
        Key::P => Some(UiKey::P),
        Key::Q => Some(UiKey::Q),
        Key::R => Some(UiKey::R),
        Key::S => Some(UiKey::S),
        Key::T => Some(UiKey::T),
        Key::U => Some(UiKey::U),
        Key::V => Some(UiKey::V),
        Key::W => Some(UiKey::W),
        Key::X => Some(UiKey::X),
        Key::Y => Some(UiKey::Y),
        Key::Z => Some(UiKey::Z),
        Key::Num0 => Some(UiKey::Num0),
        Key::Num1 => Some(UiKey::Num1),
        Key::Num2 => Some(UiKey::Num2),
        Key::Num3 => Some(UiKey::Num3),
        Key::Num4 => Some(UiKey::Num4),
        Key::Num5 => Some(UiKey::Num5),
        Key::Num6 => Some(UiKey::Num6),
        Key::Num7 => Some(UiKey::Num7),
        Key::Num8 => Some(UiKey::Num8),
        Key::Num9 => Some(UiKey::Num9),
        Key::F1 => Some(UiKey::F1),
        Key::F2 => Some(UiKey::F2),
        Key::F3 => Some(UiKey::F3),
        Key::F4 => Some(UiKey::F4),
        Key::F5 => Some(UiKey::F5),
        Key::F6 => Some(UiKey::F6),
        Key::F7 => Some(UiKey::F7),
        Key::F8 => Some(UiKey::F8),
        Key::F9 => Some(UiKey::F9),
        Key::F10 => Some(UiKey::F10),
        Key::F11 => Some(UiKey::F11),
        Key::F12 => Some(UiKey::F12),
        Key::F13 => Some(UiKey::F13),
        Key::F14 => Some(UiKey::F14),
        Key::F15 => Some(UiKey::F15),
        Key::F16 => Some(UiKey::F16),
        Key::F17 => Some(UiKey::F17),
        Key::F18 => Some(UiKey::F18),
        Key::F19 => Some(UiKey::F19),
        Key::F20 => Some(UiKey::F20),
        Key::F21 => Some(UiKey::F21),
        Key::F22 => Some(UiKey::F22),
        Key::F23 => Some(UiKey::F23),
        Key::F24 => Some(UiKey::F24),
        Key::F25 => Some(UiKey::F25),
        Key::F26 => Some(UiKey::F26),
        Key::F27 => Some(UiKey::F27),
        Key::F28 => Some(UiKey::F28),
        Key::F29 => Some(UiKey::F29),
        Key::F30 => Some(UiKey::F30),
        Key::F31 => Some(UiKey::F31),
        Key::F32 => Some(UiKey::F32),
        Key::F33 => Some(UiKey::F33),
        Key::F34 => Some(UiKey::F34),
        Key::F35 => Some(UiKey::F35),
        Key::Other(_) => None,
    }
}

/// The modifier set in egui's terms, field for field.
#[verifier::allow_in_spec]
pub fn to_modifiers(modifiers: Modifiers) -> UiModifiers
    returns
        (UiModifiers {
            alt: modifiers.alt,
            ctrl: modifiers.ctrl,
            shift: modifiers.shift,
            mac_cmd: modifiers.mac_cmd,
            command: modifiers.command,
        }),
{
    UiModifiers {
        alt: modifiers.alt,
        ctrl: modifiers.ctrl,
        shift: modifiers.shift,
        mac_cmd: modifiers.mac_cmd,
        command: modifiers.command,
    }
}

impl vstd::std_specs::convert::FromSpecImpl<Modifiers> for UiModifiers {
    open spec fn obeys_from_spec() -> bool {
        true
    }

    open spec fn from_spec(modifiers: Modifiers) -> UiModifiers {
        to_modifiers(modifiers)
    }
}

impl From<Modifiers> for UiModifiers {
    fn from(modifiers: Modifiers) -> (converted: Self) {
        to_modifiers(modifiers)
    }
}

/// The wheel unit in egui's terms. A pixel is what a trackpad reports, which
/// is what egui calls a point.
#[verifier::allow_in_spec]
pub fn to_wheel_unit(unit: WheelUnit) -> MouseWheelUnit
    returns
        (match unit {
            WheelUnit::Line => MouseWheelUnit::Line,
            WheelUnit::Page => MouseWheelUnit::Page,
            WheelUnit::Pixel => MouseWheelUnit::Point,
        }),
{
    match unit {
        WheelUnit::Line => MouseWheelUnit::Line,
        WheelUnit::Page => MouseWheelUnit::Page,
        WheelUnit::Pixel => MouseWheelUnit::Point,
    }
}

/// The mouse button in egui's terms, or `None` for a button egui does not
/// name. egui numbers the two side buttons, back first.
#[verifier::allow_in_spec]
pub fn to_pointer_button(button: MouseButton) -> Option<UiButton>
    returns
        (match button {
            MouseButton::Primary => Some(UiButton::Primary),
            MouseButton::Secondary => Some(UiButton::Secondary),
            MouseButton::Middle => Some(UiButton::Middle),
            MouseButton::Back => Some(UiButton::Extra1),
            MouseButton::Forward => Some(UiButton::Extra2),
            MouseButton::Other(_) => None,
        }),
{
    match button {
        MouseButton::Primary => Some(UiButton::Primary),
        MouseButton::Secondary => Some(UiButton::Secondary),
        MouseButton::Middle => Some(UiButton::Middle),
        MouseButton::Back => Some(UiButton::Extra1),
        MouseButton::Forward => Some(UiButton::Extra2),
        MouseButton::Other(_) => None,
    }
}

/// The gesture phase in egui's terms.
#[verifier::allow_in_spec]
pub fn to_touch_phase(phase: TouchPhase) -> UiPhase
    returns
        (match phase {
            TouchPhase::Started => UiPhase::Start,
            TouchPhase::Moved => UiPhase::Move,
            TouchPhase::Ended => UiPhase::End,
            TouchPhase::Cancelled => UiPhase::Cancel,
        }),
{
    match phase {
        TouchPhase::Started => UiPhase::Start,
        TouchPhase::Moved => UiPhase::Move,
        TouchPhase::Ended => UiPhase::End,
        TouchPhase::Cancelled => UiPhase::Cancel,
    }
}

/// Where the character at `index` of `chars` starts in their UTF-8 encoding.
pub open spec fn byte_offset(chars: Seq<char>, index: int) -> nat {
    vstd::utf8::encode_utf8(chars.take(index)).len()
}

/// How far apart two byte offsets are.
pub open spec fn distance(a: nat, b: nat) -> nat {
    if a < b {
        (b - a) as nat
    } else {
        (a - b) as nat
    }
}

/// Whether `index` is where a byte offset of `bytes` falls in `chars`: no
/// character starts nearer to it, nor is the end of the text nearer, and of two
/// places that are equally near it is the later.
pub open spec fn is_char_position(chars: Seq<char>, bytes: nat, index: int) -> bool {
    &&& 0 <= index <= chars.len()
    &&& forall|j: int|
        0 <= j <= chars.len() ==> distance(byte_offset(chars, index), bytes) <= distance(
            #[trigger] byte_offset(chars, j),
            bytes,
        )
    &&& forall|j: int|
        index < j <= chars.len() ==> distance(byte_offset(chars, index), bytes) < distance(
            #[trigger] byte_offset(chars, j),
            bytes,
        )
}

/// The character position of a byte offset of `bytes` in `chars`, looking no
/// earlier than `from`: the first that is nearer to it than the next.
pub open spec fn char_position_from(chars: Seq<char>, bytes: nat, from: int) -> int
    decreases chars.len() - from,
{
    if from >= chars.len() || 2 * bytes < byte_offset(chars, from) + byte_offset(chars, from + 1) {
        from
    } else {
        char_position_from(chars, bytes, from + 1)
    }
}

/// The character position of a byte offset of `bytes` in `chars`.
pub open spec fn char_position(chars: Seq<char>, bytes: nat) -> int {
    char_position_from(chars, bytes, 0)
}

/// One more character adds its own bytes.
proof fn lemma_encode_push(chars: Seq<char>, c: char)
    ensures
        vstd::utf8::encode_utf8(chars.push(c)) == vstd::utf8::encode_utf8(chars)
            + vstd::utf8::encode_scalar(c as u32),
    decreases chars.len(),
{
    let pushed = chars.push(c);
    if chars.len() == 0 {
        assert(pushed.drop_first() =~= Seq::<char>::empty());
        assert(vstd::utf8::encode_utf8(pushed.drop_first()) =~= Seq::<u8>::empty());
        assert(pushed[0] == c);
    } else {
        assert(pushed.drop_first() =~= chars.drop_first().push(c));
        assert(pushed[0] == chars[0]);
        lemma_encode_push(chars.drop_first(), c);
    }
    assert(vstd::utf8::encode_utf8(pushed) =~= vstd::utf8::encode_utf8(chars)
        + vstd::utf8::encode_scalar(c as u32));
}

/// Offsets grow by the width of each character.
proof fn lemma_byte_offset_step(chars: Seq<char>, index: int)
    requires
        0 <= index < chars.len(),
    ensures
        byte_offset(chars, index + 1) == byte_offset(chars, index) + vstd::utf8::encode_scalar(
            chars[index] as u32,
        ).len(),
        1 <= vstd::utf8::encode_scalar(chars[index] as u32).len() <= 4,
{
    assert(chars.take(index + 1) =~= chars.take(index).push(chars[index]));
    lemma_encode_push(chars.take(index), chars[index]);
}

/// Later characters start later.
proof fn lemma_byte_offset_grows(chars: Seq<char>, i: int, j: int)
    requires
        0 <= i < j <= chars.len(),
    ensures
        byte_offset(chars, i) < byte_offset(chars, j),
    decreases j - i,
{
    lemma_byte_offset_step(chars, j - 1);
    if i < j - 1 {
        lemma_byte_offset_grows(chars, i, j - 1);
    }
}

/// Where the search stops: past every place whose next is as near, at one whose
/// next is not.
proof fn lemma_char_position_from(chars: Seq<char>, bytes: nat, from: int)
    requires
        0 <= from <= chars.len(),
    ensures
        ({
            let found = char_position_from(chars, bytes, from);
            &&& from <= found <= chars.len()
            &&& found < chars.len() ==> 2 * bytes < byte_offset(chars, found) + byte_offset(
                chars,
                found + 1,
            )
            &&& found > from ==> 2 * bytes >= byte_offset(chars, found - 1) + byte_offset(
                chars,
                found,
            )
        }),
    decreases chars.len() - from,
{
    if from < chars.len() && 2 * bytes >= byte_offset(chars, from) + byte_offset(chars, from + 1) {
        lemma_char_position_from(chars, bytes, from + 1);
    }
}

/// The search finds the position it is named for.
proof fn lemma_char_position(chars: Seq<char>, bytes: nat)
    ensures
        is_char_position(chars, bytes, char_position(chars, bytes)),
{
    lemma_char_position_from(chars, bytes, 0);
    let found = char_position(chars, bytes);
    let here = byte_offset(chars, found);
    assert forall|j: int| 0 <= j <= chars.len() implies distance(here, bytes) <= distance(
        #[trigger] byte_offset(chars, j),
        bytes,
    ) && (found < j ==> distance(here, bytes) < distance(byte_offset(chars, j), bytes)) by {
        if j < found {
            lemma_byte_offset_grows(chars, j, found);
            if j < found - 1 {
                lemma_byte_offset_grows(chars, j, found - 1);
            }
        } else if j > found {
            lemma_byte_offset_grows(chars, found, j);
            if found + 1 < j {
                lemma_byte_offset_grows(chars, found + 1, j);
            }
        }
    }
}

/// How many bytes the UTF-8 encoding of a character takes.
fn char_width(c: char) -> (width: usize)
    ensures
        width == vstd::utf8::encode_scalar(c as u32).len(),
        1 <= width <= 4,
{
    let code = c as u32;
    if code < 0x80 {
        1
    } else if code < 0x800 {
        2
    } else if code < 0x1_0000 {
        3
    } else {
        4
    }
}

/// The character position of a byte offset in `text`.
fn position_of(text: &str, bytes: usize) -> (position: usize)
    ensures
        position == char_position(text@, bytes as nat),
        is_char_position(text@, bytes as nat, position as int),
{
    proof {
        lemma_char_position(text@, bytes as nat);
    }
    let mut position: usize = 0;
    // How far the offset is past the start of the character at `position`.
    let mut past: usize = bytes;
    let count: usize = text.unicode_len();
    assert(text@.take(0) =~= Seq::<char>::empty());
    while position < count
        invariant
            count == text@.len(),
            position <= count,
            past == bytes - byte_offset(text@, position as int),
            char_position(text@, bytes as nat) == char_position_from(
                text@,
                bytes as nat,
                position as int,
            ),
            is_char_position(text@, bytes as nat, char_position(text@, bytes as nat)),
        decreases count - position,
    {
        let width = char_width(text.get_char(position));
        proof {
            lemma_byte_offset_step(text@, position as int);
            if position + 1 < count {
                lemma_byte_offset_step(text@, position + 1);
            }
        }
        if past < width {
            // Inside the character, so the nearer of its two ends.
            if past < width - past {
                return position;
            }
            assert(char_position_from(text@, bytes as nat, position + 1) == position + 1);
            return position + 1;
        }
        past = past - width;
        position = position + 1;
    }
    position
}

/// The character range that covers the byte range `range` of `text`.
///
/// A byte offset that lands inside a character is not a boundary the text has,
/// so it goes to the nearest boundary there is; one past the end goes to the
/// end.
pub fn bytes_to_chars(text: &str, range: &core::ops::Range<usize>) -> (chars: core::ops::Range<
    usize,
>)
    ensures
        chars.start == char_position(text@, range.start as nat),
        chars.end == char_position(text@, range.end as nat),
        is_char_position(text@, range.start as nat, chars.start as int),
        is_char_position(text@, range.end as nat, chars.end as int),
{
    let start = position_of(text, range.start);
    let end = position_of(text, range.end);
    start..end
}

/// A position in physical pixels as logical points.
pub open spec fn at_density(pixels: Position, density: Scalar) -> Points {
    Points { pixels, density }
}

/// What a key event becomes: egui's shortcuts read the logical key and a game
/// control the physical one, so the key fills both. A key egui has no name for
/// is dropped rather than reported as another.
pub open spec fn key_translation(event: KeyEvent) -> Seq<UiEvent> {
    match ui_key(event.key) {
        Some(key) => seq![
            UiEvent::Key {
                key,
                physical_key: Some(key),
                pressed: event.pressed,
                repeat: event.repeat,
                modifiers: to_modifiers(event.modifiers),
            },
        ],
        None => Seq::empty(),
    }
}

/// What a mouse event becomes. A button egui does not name is dropped. A pixel
/// delta is scaled like a position; egui takes the other units as they are.
pub open spec fn mouse_translation(event: MouseEvent, density: Scalar) -> Seq<UiEvent> {
    match event {
        MouseEvent::Moved { position } => seq![
            UiEvent::PointerMoved(at_density(position, density)),
        ],
        MouseEvent::Button { position, button, pressed, modifiers } => match to_pointer_button(
            button,
        ) {
            Some(button) => seq![
                UiEvent::PointerButton {
                    pos: at_density(position, density),
                    button,
                    pressed,
                    modifiers: to_modifiers(modifiers),
                },
            ],
            None => Seq::empty(),
        },
        MouseEvent::Left => seq![UiEvent::PointerGone],
        MouseEvent::Wheel { delta, unit, phase, modifiers } => seq![
            UiEvent::MouseWheel {
                unit: to_wheel_unit(unit),
                delta: at_density(
                    delta,
                    if unit is Pixel {
                        density
                    } else {
                        Scalar::one()
                    },
                ),
                phase: to_touch_phase(phase),
                modifiers: to_modifiers(modifiers),
            },
        ],
    }
}

/// What a device-agnostic pointer event becomes: a gesture, or nothing. Where
/// the pointer is and what it presses reaches egui from the mouse and the
/// touches themselves, and must not reach it twice.
pub open spec fn pointer_translation(event: PointerEvent) -> Seq<UiEvent> {
    match event.action {
        PointerAction::Zoom(delta) => seq![UiEvent::Zoom(delta)],
        PointerAction::Rotate(delta) => seq![UiEvent::Rotate(delta)],
        _ => Seq::empty(),
    }
}

/// What a touch becomes: the touch itself plus the pointer events that make a
/// widget respond to it.
pub open spec fn touch_translation(event: TouchEvent, density: Scalar) -> Seq<UiEvent> {
    let pos = at_density(event.position, density);
    let primary = |pressed: bool|
        UiEvent::PointerButton {
            pos,
            button: UiButton::Primary,
            pressed,
            modifiers: to_modifiers(Modifiers::none()),
        };
    seq![
        UiEvent::Touch {
            device_id: TouchDeviceId(0),
            id: TouchId(event.id),
            phase: to_touch_phase(event.phase),
            pos,
            force: event.force,
        },
    ] + match event.phase {
        // A finger down is the pointer arriving and pressing its primary
        // button, which is what a tap on a widget is.
        TouchPhase::Started => seq![UiEvent::PointerMoved(pos), primary(true)],
        TouchPhase::Moved => seq![UiEvent::PointerMoved(pos)],
        // The release comes before the pointer leaves the screen.
        TouchPhase::Ended | TouchPhase::Cancelled => seq![primary(false), UiEvent::PointerGone],
    }
}

/// What an input-method event becomes. Input counts bytes and egui characters,
/// so a preedit's range is measured anew. Without the surrounding text there
/// is no telling how many characters a byte count covers, so the counts of a
/// delete request pass through. egui has no use for the on and off switches.
pub open spec fn ime_translation(kind: ImeKind) -> Seq<UiEvent> {
    match kind {
        ImeKind::Preedit { text, active_range } => seq![
            UiEvent::Ime(
                UiImeEvent::Preedit {
                    text,
                    active_range_chars: match active_range {
                        Some(range) => Some(
                            core::ops::Range {
                                start: char_position(text@, range.start as nat) as usize,
                                end: char_position(text@, range.end as nat) as usize,
                            },
                        ),
                        None => None,
                    },
                },
            ),
        ],
        ImeKind::Commit(text) => seq![UiEvent::Ime(UiImeEvent::Commit(text))],
        ImeKind::DeleteSurrounding { before, after } => seq![
            UiEvent::Ime(
                UiImeEvent::DeleteSurrounding { before_chars: before, after_chars: after },
            ),
        ],
        ImeKind::Enabled | ImeKind::Disabled => Seq::empty(),
    }
}

/// What an event becomes.
pub open spec fn translation(event: InputEvent, density: Scalar) -> Seq<UiEvent> {
    match event {
        InputEvent::Key(event) => key_translation(event),
        InputEvent::Mouse(event) => mouse_translation(event, density),
        InputEvent::Pointer(event) => pointer_translation(event),
        InputEvent::Touch(event) => touch_translation(event, density),
        InputEvent::Text(text) => seq![UiEvent::Text(text.0)],
        InputEvent::Ime(event) => ime_translation(event.kind),
        InputEvent::ModifiersChanged(modifiers) => seq![
            UiEvent::ModifiersChanged(to_modifiers(modifiers)),
        ],
        InputEvent::FocusChanged(focused) => seq![UiEvent::WindowFocused(focused)],
    }
}

/// What a frame's events become: what each becomes, in the order they arrived.
pub open spec fn frame_translation(events: Seq<InputEvent>, density: Scalar) -> Seq<UiEvent>
    decreases events.len(),
{
    if events.len() == 0 {
        Seq::empty()
    } else {
        frame_translation(events.drop_last(), density) + translation(events.last(), density)
    }
}

/// A key event in egui's terms.
fn key_events(event: KeyEvent) -> (events: Vec<UiEvent>)
    ensures
        events@ == key_translation(event),
{
    let mut events: Vec<UiEvent> = Vec::new();
    if let Some(key) = to_key(event.key) {
        events.push(
            UiEvent::Key {
                key,
                physical_key: Some(key),
                pressed: event.pressed,
                repeat: event.repeat,
                modifiers: to_modifiers(event.modifiers),
            },
        );
    }
    assert(events@ =~= key_translation(event));
    events
}

/// A mouse event in egui's terms.
fn mouse_events(event: &MouseEvent, density: Scalar) -> (events: Vec<UiEvent>)
    ensures
        events@ == mouse_translation(*event, density),
{
    let mut events: Vec<UiEvent> = Vec::new();
    match *event {
        MouseEvent::Moved { position } => {
            events.push(UiEvent::PointerMoved(Points { pixels: position, density }));
        },
        MouseEvent::Button { position, button, pressed, modifiers } => {
            if let Some(button) = to_pointer_button(button) {
                events.push(
                    UiEvent::PointerButton {
                        pos: Points { pixels: position, density },
                        button,
                        pressed,
                        modifiers: to_modifiers(modifiers),
                    },
                );
            }
        },
        MouseEvent::Left => {
            events.push(UiEvent::PointerGone);
        },
        MouseEvent::Wheel { delta, unit, phase, modifiers } => {
            let density = match unit {
                WheelUnit::Pixel => density,
                WheelUnit::Line | WheelUnit::Page => Scalar::one(),
            };
            events.push(
                UiEvent::MouseWheel {
                    unit: to_wheel_unit(unit),
                    delta: Points { pixels: delta, density },
                    phase: to_touch_phase(phase),
                    modifiers: to_modifiers(modifiers),
                },
            );
        },
    }
    assert(events@ =~= mouse_translation(*event, density));
    events
}

/// A pointer event in egui's terms.
fn pointer_events(event: &PointerEvent) -> (events: Vec<UiEvent>)
    ensures
        events@ == pointer_translation(*event),
{
    let mut events: Vec<UiEvent> = Vec::new();
    match event.action {
        PointerAction::Zoom(delta) => {
            events.push(UiEvent::Zoom(delta));
        },
        PointerAction::Rotate(delta) => {
            events.push(UiEvent::Rotate(delta));
        },
        _ => {},
    }
    assert(events@ =~= pointer_translation(*event));
    events
}

/// A touch in egui's terms.
fn touch_events(event: TouchEvent, density: Scalar) -> (events: Vec<UiEvent>)
    ensures
        events@ == touch_translation(event, density),
{
    let pos = Points { pixels: event.position, density };
    let mut events: Vec<UiEvent> = Vec::new();
    events.push(
        UiEvent::Touch {
            // Touches are numbered without naming their device, so every touch
            // belongs to one synthetic device.
            device_id: TouchDeviceId(0),
            id: TouchId(event.id),
            phase: to_touch_phase(event.phase),
            pos,
            force: event.force,
        },
    );
    match event.phase {
        TouchPhase::Started => {
            events.push(UiEvent::PointerMoved(pos));
            events.push(
                UiEvent::PointerButton {
                    pos,
                    button: UiButton::Primary,
                    pressed: true,
                    modifiers: to_modifiers(Modifiers::default()),
                },
            );
        },
        TouchPhase::Moved => {
            events.push(UiEvent::PointerMoved(pos));
        },
        TouchPhase::Ended | TouchPhase::Cancelled => {
            events.push(
                UiEvent::PointerButton {
                    pos,
                    button: UiButton::Primary,
                    pressed: false,
                    modifiers: to_modifiers(Modifiers::default()),
                },
            );
            events.push(UiEvent::PointerGone);
        },
    }
    assert(events@ =~= touch_translation(event, density));
    events
}

/// An input-method event in egui's terms.
fn ime_events(event: &ImeEvent) -> (events: Vec<UiEvent>)
    ensures
        events@ == ime_translation(event.kind),
{
    let mut events: Vec<UiEvent> = Vec::new();
    match &event.kind {
        ImeKind::Preedit { text, active_range } => {
            let active_range_chars = match active_range {
                Some(range) => Some(bytes_to_chars(text.as_str(), range)),
                None => None,
            };
            events.push(
                UiEvent::Ime(UiImeEvent::Preedit { text: text.clone(), active_range_chars }),
            );
        },
        ImeKind::Commit(text) => {
            events.push(UiEvent::Ime(UiImeEvent::Commit(text.clone())));
        },
        ImeKind::DeleteSurrounding { before, after } => {
            events.push(
                UiEvent::Ime(
                    UiImeEvent::DeleteSurrounding { before_chars: *before, after_chars: *after },
                ),
            );
        },
        ImeKind::Enabled | ImeKind::Disabled => {},
    }
    assert(events@ =~= ime_translation(event.kind));
    events
}

/// Translate one event into the egui events it stands for: none for an event
/// egui has no counterpart for.
///
/// `density` is how many physical pixels a logical point takes, and must be
/// positive.
pub fn to_egui_event(event: &InputEvent, density: Scalar) -> (events: Vec<UiEvent>)
    requires
        density.is_positive(),
    ensures
        events@ == translation(*event, density),
{
    let mut events: Vec<UiEvent> = Vec::new();
    match event {
        InputEvent::Key(event) => {
            return key_events(*event);
        },
        InputEvent::Mouse(event) => {
            return mouse_events(event, density);
        },
        InputEvent::Pointer(event) => {
            return pointer_events(event);
        },
        InputEvent::Touch(event) => {
            return touch_events(*event, density);
        },
        InputEvent::Ime(event) => {
            return ime_events(event);
        },
        InputEvent::Text(text) => {
            events.push(UiEvent::Text(text.0.clone()));
        },
        InputEvent::ModifiersChanged(modifiers) => {
            events.push(UiEvent::ModifiersChanged(to_modifiers(*modifiers)));
        },
        InputEvent::FocusChanged(focused) => {
            events.push(UiEvent::WindowFocused(*focused));
        },
    }
    assert(events@ =~= translation(*event, density));
    events
}

/// Translate a whole frame's events, keeping the order they arrived in: egui's
/// own input handling depends on a press coming before the release that
/// follows it.
pub fn to_egui_events(events: &[InputEvent], density: Scalar) -> (translated: Vec<UiEvent>)
    requires
        density.is_positive(),
    ensures
        translated@ == frame_translation(events@, density),
{
    let mut translated: Vec<UiEvent> = Vec::new();
    let mut i: usize = 0;
    while i < events.len()
        invariant
            density.is_positive(),
            i <= events@.len(),
            translated@ == frame_translation(events@.take(i as int), density),
        decreases events@.len() - i,
    {
        let mut of_event = to_egui_event(&events[i], density);
        translated.append(&mut of_event);
        i = i + 1;
        assert(events@.take(i as int).drop_last() =~= events@.take(i - 1));
    }
    assert(events@.take(i as int) =~= events@);
    translated
}

/// Every key but a platform-specific one has a counterpart in egui, and no two
/// of them share one: a press never reaches egui as another key's.
pub proof fn law_named_keys_reach_egui_as_themselves(a: Key, b: Key)
    ensures
        ui_key(a) is Some <==> !(a is Other),
        ui_key(a) is Some && ui_key(a) == ui_key(b) ==> a == b,
{
}

/// The named buttons stay distinct, the two side buttons among them.
pub proof fn law_named_buttons_reach_egui_as_themselves(a: MouseButton, b: MouseButton)
    ensures
        to_pointer_button(a) is Some <==> !(a is Other),
        to_pointer_button(a) is Some && to_pointer_button(a) == to_pointer_button(b) ==> a == b,
{
}

/// A byte offset goes to the nearest place a character starts, or to the end
/// of the text where that is nearer, and to nowhere else: of two equally near
/// places, to the later.
pub proof fn law_char_positions_are_nearest(chars: Seq<char>, bytes: nat, index: int)
    ensures
        is_char_position(chars, bytes, char_position(chars, bytes)),
        is_char_position(chars, bytes, index) ==> index == char_position(chars, bytes),
{
    lemma_char_position(chars, bytes);
    let found = char_position(chars, bytes);
    if is_char_position(chars, bytes, index) && index != found {
        assert(distance(byte_offset(chars, index), bytes) == distance(
            byte_offset(chars, found),
            bytes,
        ));
    }
}

/// An offset at or past the end of the text goes to its end.
pub proof fn law_offsets_past_the_end_go_to_the_end(chars: Seq<char>, bytes: nat)
    requires
        bytes >= byte_offset(chars, chars.len() as int),
    ensures
        char_position(chars, bytes) == chars.len(),
{
    lemma_char_position(chars, bytes);
    let found = char_position(chars, bytes);
    if found < chars.len() {
        lemma_byte_offset_grows(chars, found, chars.len() as int);
        assert(distance(byte_offset(chars, found), bytes) <= distance(
            byte_offset(chars, chars.len() as int),
            bytes,
        ));
    }
}

/// An offset that is where a character starts, or the end of the text, goes to
/// exactly that character: on such offsets counting in characters loses
/// nothing.
pub proof fn law_boundaries_are_kept(chars: Seq<char>, index: int)
    requires
        0 <= index <= chars.len(),
    ensures
        char_position(chars, byte_offset(chars, index)) == index,
{
    let bytes = byte_offset(chars, index);
    lemma_char_position(chars, bytes);
    let found = char_position(chars, bytes);
    assert(distance(byte_offset(chars, found), bytes) <= distance(byte_offset(chars, index), bytes));
    if found < index {
        lemma_byte_offset_grows(chars, found, index);
    } else if found > index {
        lemma_byte_offset_grows(chars, index, found);
    }
}

/// A byte range that does not run backwards becomes a character range that
/// does not either.
pub proof fn law_char_ranges_stay_ordered(chars: Seq<char>, start: nat, end: nat)
    requires
        start <= end,
    ensures
        char_position(chars, start) <= char_position(chars, end) <= chars.len(),
{
    lemma_char_position_from(chars, start, 0);
    lemma_char_position_from(chars, end, 0);
    let first = char_position(chars, start);
    let last = char_position(chars, end);
    if last < first {
        // The end is nearer to `last` than to the next place, and the start is
        // not, though it comes no later.
        if last + 1 < first {
            lemma_byte_offset_grows(chars, last + 1, first);
            lemma_byte_offset_grows(chars, last, first - 1);
        }
    }
}

/// Frames translate in order: two runs of events become what the first becomes
/// followed by what the second becomes.
pub proof fn law_frames_translate_in_order(
    first: Seq<InputEvent>,
    second: Seq<InputEvent>,
    density: Scalar,
)
    ensures
        frame_translation(first + second, density) == frame_translation(first, density)
            + frame_translation(second, density),
    decreases second.len(),
{
    if second.len() == 0 {
        assert(first + second =~= first);
        assert(frame_translation(first, density) + frame_translation(second, density)
            =~= frame_translation(first, density));
    } else {
        assert((first + second).drop_last() =~= first + second.drop_last());
        assert((first + second).last() == second.last());
        law_frames_translate_in_order(first, second.drop_last(), density);
        assert(frame_translation(first + second, density) =~= frame_translation(first, density)
            + frame_translation(second, density));
    }
}

/// What makes a tap work: a finger that goes down presses the primary button
/// where it is, and one that is lifted or cancelled releases it and then
/// leaves the screen.
pub proof fn law_a_touch_acts_as_the_pointer(event: TouchEvent, density: Scalar)
    ensures
        ({
            let events = touch_translation(event, density);
            let pos = at_density(event.position, density);
            &&& event.phase is Started ==> events.last() == (UiEvent::PointerButton {
                pos,
                button: UiButton::Primary,
                pressed: true,
                modifiers: to_modifiers(Modifiers::none()),
            })
            &&& event.phase is Ended || event.phase is Cancelled ==> {
                &&& events[events.len() - 2] == (UiEvent::PointerButton {
                    pos,
                    button: UiButton::Primary,
                    pressed: false,
                    modifiers: to_modifiers(Modifiers::none()),
                })
                &&& events.last() == UiEvent::PointerGone
            }
        }),
{
}

/// Every letter reaches egui as itself.
pub proof fn law_letters_reach_egui_by_name()
    ensures
        ui_key(Key::A) == Some(UiKey::A),
        ui_key(Key::B) == Some(UiKey::B),
        ui_key(Key::C) == Some(UiKey::C),
        ui_key(Key::D) == Some(UiKey::D),
        ui_key(Key::E) == Some(UiKey::E),
        ui_key(Key::F) == Some(UiKey::F),
        ui_key(Key::G) == Some(UiKey::G),
        ui_key(Key::H) == Some(UiKey::H),
        ui_key(Key::I) == Some(UiKey::I),
        ui_key(Key::J) == Some(UiKey::J),
        ui_key(Key::K) == Some(UiKey::K),
        ui_key(Key::L) == Some(UiKey::L),
        ui_key(Key::M) == Some(UiKey::M),
        ui_key(Key::N) == Some(UiKey::N),
        ui_key(Key::O) == Some(UiKey::O),
        ui_key(Key::P) == Some(UiKey::P),
        ui_key(Key::Q) == Some(UiKey::Q),
        ui_key(Key::R) == Some(UiKey::R),
        ui_key(Key::S) == Some(UiKey::S),
        ui_key(Key::T) == Some(UiKey::T),
        ui_key(Key::U) == Some(UiKey::U),
        ui_key(Key::V) == Some(UiKey::V),
        ui_key(Key::W) == Some(UiKey::W),
        ui_key(Key::X) == Some(UiKey::X),
        ui_key(Key::Y) == Some(UiKey::Y),
        ui_key(Key::Z) == Some(UiKey::Z),
{
}

/// Every digit of the top row reaches egui as itself.
pub proof fn law_digits_reach_egui_by_name()
    ensures
        ui_key(Key::Num0) == Some(UiKey::Num0),
        ui_key(Key::Num1) == Some(UiKey::Num1),
        ui_key(Key::Num2) == Some(UiKey::Num2),
        ui_key(Key::Num3) == Some(UiKey::Num3),
        ui_key(Key::Num4) == Some(UiKey::Num4),
        ui_key(Key::Num5) == Some(UiKey::Num5),
        ui_key(Key::Num6) == Some(UiKey::Num6),
        ui_key(Key::Num7) == Some(UiKey::Num7),
        ui_key(Key::Num8) == Some(UiKey::Num8),
        ui_key(Key::Num9) == Some(UiKey::Num9),
{
}

/// The keys that edit and navigate reach egui as themselves.
pub proof fn law_controls_reach_egui_by_name()
    ensures
        ui_key(Key::Escape) == Some(UiKey::Escape),
        ui_key(Key::Space) == Some(UiKey::Space),
        ui_key(Key::Enter) == Some(UiKey::Enter),
        ui_key(Key::Tab) == Some(UiKey::Tab),
        ui_key(Key::Backspace) == Some(UiKey::Backspace),
        ui_key(Key::Delete) == Some(UiKey::Delete),
        ui_key(Key::ArrowUp) == Some(UiKey::ArrowUp),
        ui_key(Key::ArrowDown) == Some(UiKey::ArrowDown),
        ui_key(Key::ArrowLeft) == Some(UiKey::ArrowLeft),
        ui_key(Key::ArrowRight) == Some(UiKey::ArrowRight),
        ui_key(Key::Home) == Some(UiKey::Home),
        ui_key(Key::End) == Some(UiKey::End),
        ui_key(Key::PageUp) == Some(UiKey::PageUp),
        ui_key(Key::PageDown) == Some(UiKey::PageDown),
{
}

/// Every function key reaches egui under its own number.
pub proof fn law_function_keys_reach_egui_by_name()
    ensures
        ui_key(Key::F1) == Some(UiKey::F1),
        ui_key(Key::F2) == Some(UiKey::F2),
        ui_key(Key::F3) == Some(UiKey::F3),
        ui_key(Key::F4) == Some(UiKey::F4),
        ui_key(Key::F5) == Some(UiKey::F5),
        ui_key(Key::F6) == Some(UiKey::F6),
        ui_key(Key::F7) == Some(UiKey::F7),
        ui_key(Key::F8) == Some(UiKey::F8),
        ui_key(Key::F9) == Some(UiKey::F9),
        ui_key(Key::F10) == Some(UiKey::F10),
        ui_key(Key::F11) == Some(UiKey::F11),
        ui_key(Key::F12) == Some(UiKey::F12),
        ui_key(Key::F13) == Some(UiKey::F13),
        ui_key(Key::F14) == Some(UiKey::F14),
        ui_key(Key::F15) == Some(UiKey::F15),
        ui_key(Key::F16) == Some(UiKey::F16),
        ui_key(Key::F17) == Some(UiKey::F17),
        ui_key(Key::F18) == Some(UiKey::F18),
        ui_key(Key::F19) == Some(UiKey::F19),
        ui_key(Key::F20) == Some(UiKey::F20),
        ui_key(Key::F21) == Some(UiKey::F21),
        ui_key(Key::F22) == Some(UiKey::F22),
        ui_key(Key::F23) == Some(UiKey::F23),
        ui_key(Key::F24) == Some(UiKey::F24),
        ui_key(Key::F25) == Some(UiKey::F25),
        ui_key(Key::F26) == Some(UiKey::F26),
        ui_key(Key::F27) == Some(UiKey::F27),
        ui_key(Key::F28) == Some(UiKey::F28),
        ui_key(Key::F29) == Some(UiKey::F29),
        ui_key(Key::F30) == Some(UiKey::F30),
        ui_key(Key::F31) == Some(UiKey::F31),
        ui_key(Key::F32) == Some(UiKey::F32),
        ui_key(Key::F33) == Some(UiKey::F33),
        ui_key(Key::F34) == Some(UiKey::F34),
        ui_key(Key::F35) == Some(UiKey::F35),
{
}

/// Whether egui's modifiers are the ones the input reported, flag by flag.
pub open spec fn same_modifiers(theirs: UiModifiers, ours: Modifiers) -> bool {
    &&& theirs.alt == ours.alt
    &&& theirs.ctrl == ours.ctrl
    &&& theirs.shift == ours.shift
    &&& theirs.mac_cmd == ours.mac_cmd
    &&& theirs.command == ours.command
}

/// Modifiers reach egui flag by flag, so no two different sets look alike to it.
pub proof fn law_modifiers_reach_egui_flag_by_flag(a: Modifiers, b: Modifiers)
    ensures
        same_modifiers(to_modifiers(a), a),
        to_modifiers(a) == to_modifiers(b) <==> a == b,
{
}

/// A key reaches egui whole: a key egui can name becomes one key event, for that
/// key, with the modifiers it was struck with, and saying whether it went down
/// and whether it repeats; a shortcut therefore carries its modifiers. A key
/// egui cannot name becomes nothing.
pub proof fn law_a_key_reaches_egui_whole(event: KeyEvent, density: Scalar)
    ensures
        ({
            let events = translation(InputEvent::Key(event), density);
            &&& event.key is Other ==> events.len() == 0
            &&& !(event.key is Other) ==> events.len() == 1 && (events[0] matches UiEvent::Key {
                key,
                physical_key,
                pressed,
                repeat,
                modifiers,
            } && Some(key) == ui_key(event.key) && physical_key == Some(key) && pressed
                == event.pressed && repeat == event.repeat && same_modifiers(
                modifiers,
                event.modifiers,
            ))
        }),
{
}

/// Two key events look alike to egui only if they are alike.
#[verifier::spinoff_prover]
#[verifier::rlimit(50)]
pub proof fn law_different_keys_stay_different(a: KeyEvent, b: KeyEvent, density: Scalar)
    requires
        !(a.key is Other),
        translation(InputEvent::Key(a), density) == translation(InputEvent::Key(b), density),
    ensures
        a == b,
{
    let x = translation(InputEvent::Key(a), density);
    let y = translation(InputEvent::Key(b), density);
    assert(x.len() == 1 && y.len() == 1);
    assert(x[0] == y[0]);
    law_named_keys_reach_egui_as_themselves(a.key, b.key);
    law_modifiers_reach_egui_flag_by_flag(a.modifiers, b.modifiers);
}

/// The left, right and middle buttons reach egui as its primary, secondary and
/// middle buttons, and the side buttons as its two extra ones, back first.
pub proof fn law_buttons_reach_egui_by_name(code: u16)
    ensures
        to_pointer_button(MouseButton::Primary) == Some(UiButton::Primary),
        to_pointer_button(MouseButton::Secondary) == Some(UiButton::Secondary),
        to_pointer_button(MouseButton::Middle) == Some(UiButton::Middle),
        to_pointer_button(MouseButton::Back) == Some(UiButton::Extra1),
        to_pointer_button(MouseButton::Forward) == Some(UiButton::Extra2),
        to_pointer_button(MouseButton::Other(code)) is None,
{
}

/// Wheel units and gesture phases reach egui as what they are; what input calls
/// a pixel is egui's point.
pub proof fn law_units_and_phases_reach_egui_by_name(unit: WheelUnit, phase: TouchPhase)
    ensures
        to_wheel_unit(unit) is Line <==> unit is Line,
        to_wheel_unit(unit) is Page <==> unit is Page,
        to_wheel_unit(unit) is Point <==> unit is Pixel,
        to_touch_phase(phase) is Start <==> phase is Started,
        to_touch_phase(phase) is Move <==> phase is Moved,
        to_touch_phase(phase) is End <==> phase is Ended,
        to_touch_phase(phase) is Cancel <==> phase is Cancelled,
{
}

/// The mouse reaches egui whole: a move, a button and a wheel step each become
/// one event that keeps the place, the button, the direction, the amount and the
/// modifiers. Places are divided by the pixel density, and so is a wheel delta
/// that counts pixels; lines and pages are not.
pub proof fn law_the_mouse_reaches_egui_whole(event: MouseEvent, density: Scalar)
    ensures
        ({
            let events = translation(InputEvent::Mouse(event), density);
            match event {
                MouseEvent::Moved { position } => events.len() == 1 && (
                events[0] matches UiEvent::PointerMoved(place) && place.pixels == position
                    && place.density == density),
                MouseEvent::Button { position, button, pressed, modifiers } => if button is Other {
                    events.len() == 0
                } else {
                    events.len() == 1 && (events[0] matches UiEvent::PointerButton {
                        pos,
                        button: named,
                        pressed: down,
                        modifiers: held,
                    } && pos.pixels == position && pos.density == density && Some(named)
                        == to_pointer_button(button) && down == pressed && same_modifiers(
                        held,
                        modifiers,
                    ))
                },
                MouseEvent::Left => events.len() == 1 && events[0] is PointerGone,
                MouseEvent::Wheel { delta, unit, phase, modifiers } => events.len() == 1 && (
                events[0] matches UiEvent::MouseWheel {
                    unit: named,
                    delta: amount,
                    phase: stage,
                    modifiers: held,
                } && named == to_wheel_unit(unit) && amount.pixels == delta && amount.density.0
                    == if unit is Pixel {
                    density.0
                } else {
                    0x3f80_0000
                } && stage == to_touch_phase(phase) && same_modifiers(held, modifiers)),
            }
        }),
{
}

/// A gesture reaches egui with how far it went, and nothing else a pointer does
/// reaches it twice: the mouse and the touches already report it.
pub proof fn law_only_gestures_of_a_pointer_reach_egui(event: PointerEvent, density: Scalar)
    ensures
        ({
            let events = translation(InputEvent::Pointer(event), density);
            match event.action {
                PointerAction::Zoom(delta) => events == seq![UiEvent::Zoom(delta)],
                PointerAction::Rotate(delta) => events == seq![UiEvent::Rotate(delta)],
                _ => events.len() == 0,
            }
        }),
{
}

/// A touch reaches egui as a touch first, with its own id, phase, place and
/// force, and then as the pointer it acts as. A finger that arrives moves the
/// pointer there before it presses, one that moves takes the pointer along and
/// presses nothing, and one that goes, however it goes, releases before it
/// leaves. A finger holds no modifier.
pub proof fn law_a_touch_reaches_egui_whole(event: TouchEvent, density: Scalar)
    ensures
        ({
            let events = translation(InputEvent::Touch(event), density);
            let button = |at: int, down: bool|
                events[at] matches UiEvent::PointerButton { pos, button, pressed, modifiers }
                    && pos.pixels == event.position && pos.density == density && button is Primary
                    && pressed == down && !(modifiers.alt || modifiers.ctrl || modifiers.shift
                    || modifiers.mac_cmd || modifiers.command);
            let moved = |at: int|
                events[at] matches UiEvent::PointerMoved(place) && place.pixels == event.position
                    && place.density == density;
            &&& events[0] matches UiEvent::Touch { id, phase, pos, force, .. } && id.0 == event.id
                && phase == to_touch_phase(event.phase) && pos.pixels == event.position
                && pos.density == density && force == event.force
            &&& event.phase is Started ==> events.len() == 3 && moved(1) && button(2, true)
            &&& event.phase is Moved ==> events.len() == 2 && moved(1)
            &&& event.phase is Ended || event.phase is Cancelled ==> events.len() == 3 && button(
                1,
                false,
            ) && events[2] is PointerGone
        }),
{
}

/// Every touch is of one device to egui.
pub proof fn law_touches_share_a_device(a: TouchEvent, b: TouchEvent, density: Scalar)
    ensures
        translation(InputEvent::Touch(a), density)[0]->device_id == translation(
            InputEvent::Touch(b),
            density,
        )[0]->device_id,
{
}

/// An input method reaches egui with its text unchanged. The range it still
/// composes is counted in characters instead of bytes, end by end, and the
/// counts of a delete request pass through. Switching the method on or off
/// reaches egui as nothing.
pub proof fn law_an_input_method_reaches_egui_whole(event: ImeEvent, density: Scalar)
    ensures
        ({
            let events = translation(InputEvent::Ime(event), density);
            match event.kind {
                ImeKind::Preedit { text, active_range } => events.len() == 1 && (
                events[0] matches UiEvent::Ime(
                    UiImeEvent::Preedit { text: composed, active_range_chars },
                ) && composed == text && (active_range_chars is Some <==> active_range is Some) && (
                active_range matches Some(range) ==> active_range_chars->0.start == char_position(
                    text@,
                    range.start as nat,
                ) as usize && active_range_chars->0.end == char_position(
                    text@,
                    range.end as nat,
                ) as usize)),
                ImeKind::Commit(text) => events.len() == 1 && (events[0] matches UiEvent::Ime(
                    UiImeEvent::Commit(committed),
                ) && committed == text),
                ImeKind::DeleteSurrounding { before, after } => events.len() == 1 && (
                events[0] matches UiEvent::Ime(
                    UiImeEvent::DeleteSurrounding { before_chars, after_chars },
                ) && before_chars == before && after_chars == after),
                ImeKind::Enabled | ImeKind::Disabled => events.len() == 0,
            }
        }),
{
}

/// Text, the modifiers and the focus each reach egui as one event that says the
/// same.
pub proof fn law_text_and_focus_reach_egui_unchanged(
    text: crate::input::TextEvent,
    modifiers: Modifiers,
    focused: bool,
    density: Scalar,
)
    ensures
        translation(InputEvent::Text(text), density) == seq![UiEvent::Text(text.0)],
        translation(InputEvent::FocusChanged(focused), density) == seq![
            UiEvent::WindowFocused(focused),
        ],
        translation(InputEvent::ModifiersChanged(modifiers), density).len() == 1,
        translation(InputEvent::ModifiersChanged(modifiers), density)[0] matches UiEvent::ModifiersChanged(
            held,
        ) && same_modifiers(held, modifiers),
{
}

/// A frame of one event becomes what that event becomes, and one of none
/// nothing; with [`law_frames_translate_in_order`] this says what every frame
/// becomes.
pub proof fn law_a_frame_of_one_event(event: InputEvent, density: Scalar)
    ensures
        frame_translation(seq![event], density) == translation(event, density),
        frame_translation(Seq::empty(), density).len() == 0,
{
    reveal_with_fuel(frame_translation, 2);
    assert(seq![event].drop_last() =~= Seq::<InputEvent>::empty());
    assert(frame_translation(seq![event], density) =~= translation(event, density));
}

} // verus!
