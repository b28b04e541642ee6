//! What a frame of input can produce.

use vstd::prelude::*;

use crate::scalar::{Position, Scalar};

verus! {

/// A key, addressed by physical position rather than by the character it
/// happens to produce.
///
/// A key this enum does not name is [`Key::Other`], carrying the platform's
/// own key code so no key is unreachable.
#[derive(Clone, Copy, Debug, PartialEq, Eq, Hash, Structural)]
pub enum Key {
    /// The Escape key.
    Escape,
    /// The space bar.
    Space,
    /// The Enter (or Return) key.
    Enter,
    /// The Tab key.
    Tab,
    /// The Backspace key.
    Backspace,
    /// The Delete (forward delete) key.
    Delete,
    /// The up arrow key.
    ArrowUp,
    /// The down arrow key.
    ArrowDown,
    /// The left arrow key.
    ArrowLeft,
    /// The right arrow key.
    ArrowRight,
    /// The Home key.
    Home,
    /// The End key.
    End,
    /// The Page Up key.
    PageUp,
    /// The Page Down key.
    PageDown,
    /// The `A` key.
    A,
    /// The `B` key.
    B,
    /// The `C` key.
    C,
    /// The `D` key.
    D,
    /// The `E` key.
    E,
    /// The `F` key.
    F,
    /// The `G` key.
    G,
    /// The `H` key.
    H,
    /// The `I` key.
    I,
    /// The `J` key.
    J,
    /// The `K` key.
    K,
    /// The `L` key.
    L,
    /// The `M` key.
    M,
    /// The `N` key.
    N,
    /// The `O` key.
    O,
    /// The `P` key.
    P,
    /// The `Q` key.
    Q,
    /// The `R` key.
    R,
    /// The `S` key.
    S,
    /// The `T` key.
    T,
    /// The `U` key.
    U,
    /// The `V` key.
    V,
    /// The `W` key.
    W,
    /// The `X` key.
    X,
    /// The `Y` key.
    Y,
    /// The `Z` key.
    Z,
    /// The `0` key on the top row.
    Num0,
    /// The `1` key on the top row.
    Num1,
    /// The `2` key on the top row.
    Num2,
    /// The `3` key on the top row.
    Num3,
    /// The `4` key on the top row.
    Num4,
    /// The `5` key on the top row.
    Num5,
    /// The `6` key on the top row.
    Num6,
    /// The `7` key on the top row.
    Num7,
    /// The `8` key on the top row.
    Num8,
    /// The `9` key on the top row.
    Num9,
    /// The `F1` function key.
    F1,
    /// The `F2` function key.
    F2,
    /// The `F3` function key.
    F3,
    /// The `F4` function key.
    F4,
    /// The `F5` function key.
    F5,
    /// The `F6` function key.
    F6,
    /// The `F7` function key.
    F7,
    /// The `F8` function key.
    F8,
    /// The `F9` function key.
    F9,
    /// The `F10` function key.
    F10,
    /// The `F11` function key.
    F11,
    /// The `F12` function key.
    F12,
    /// The `F13` function key.
    F13,
    /// The `F14` function key.
    F14,
    /// The `F15` function key.
    F15,
    /// The `F16` function key.
    F16,
    /// The `F17` function key.
    F17,
    /// The `F18` function key.
    F18,
    /// The `F19` function key.
    F19,
    /// The `F20` function key.
    F20,
    /// The `F21` function key.
    F21,
    /// The `F22` function key.
    F22,
    /// The `F23` function key.
    F23,
    /// The `F24` function key.
    F24,
    /// The `F25` function key.
    F25,
    /// The `F26` function key.
    F26,
    /// The `F27` function key.
    F27,
    /// The `F28` function key.
    F28,
    /// The `F29` function key.
    F29,
    /// The `F30` function key.
    F30,
    /// The `F31` function key.
    F31,
    /// The `F32` function key.
    F32,
    /// The `F33` function key.
    F33,
    /// The `F34` function key.
    F34,
    /// The `F35` function key.
    F35,
    /// A key this type does not name, identified by the platform's own key
    /// code.
    Other(u32),
}

/// A mouse button.
#[derive(Clone, Copy, Debug, PartialEq, Eq, Structural)]
pub enum MouseButton {
    /// The primary button: usually the left one.
    Primary,
    /// The secondary button: usually the right one.
    Secondary,
    /// The middle button, usually the wheel.
    Middle,
    /// The first side button ("back").
    Back,
    /// The second side button ("forward").
    Forward,
    /// A button this type does not name, identified by the platform's own code.
    Other(u16),
}

/// The mouse buttons currently held down, one bit per named button.
///
/// A touch is not a mouse button, so a finger on the screen never sets a bit
/// here; the touches that are down live in [`InputState::touches`].
#[derive(Clone, Copy, Debug, PartialEq, Eq, Structural)]
pub struct MouseButtons {
    /// The bits of the held buttons.
    pub bits: u8,
}

impl MouseButtons {
    /// The bit of the primary button.
    pub const PRIMARY: u8 = 1;

    /// The bit of the secondary button.
    pub const SECONDARY: u8 = 2;

    /// The bit of the middle button.
    pub const MIDDLE: u8 = 4;

    /// The bit of the back side button.
    pub const BACK: u8 = 8;

    /// The bit of the forward side button.
    pub const FORWARD: u8 = 16;

    /// The set with these bits.
    #[verifier::allow_in_spec]
    pub fn of_bits(bits: u8) -> Self
        returns
            (MouseButtons { bits }),
    {
        MouseButtons { bits }
    }

    /// No button.
    #[verifier::allow_in_spec]
    pub fn empty() -> Self
        returns
            (MouseButtons { bits: 0 }),
    {
        MouseButtons { bits: 0 }
    }

    /// Whether no button is held.
    #[verifier::allow_in_spec]
    pub fn is_empty(&self) -> bool
        returns
            self.bits == 0,
    {
        self.bits == 0
    }

    /// Whether every button of `other` is held.
    #[verifier::allow_in_spec]
    pub fn contains(&self, other: Self) -> bool
        returns
            self.bits & other.bits == other.bits,
    {
        self.bits & other.bits == other.bits
    }

    /// The set that holds the buttons of `other` besides its own when `value`,
    /// and none of them otherwise.
    pub open spec fn with(self, other: Self, value: bool) -> Self {
        if value {
            MouseButtons { bits: self.bits | other.bits }
        } else {
            MouseButtons { bits: self.bits & !other.bits }
        }
    }

    /// Whether the set holds named buttons and nothing else.
    pub open spec fn only_named(self) -> bool {
        self.bits & !31u8 == 0
    }

    /// Hold the buttons of `other`, or release them.
    pub fn set(&mut self, other: Self, value: bool)
        ensures
            *final(self) == old(self).with(other, value),
    {
        if value {
            self.bits = self.bits | other.bits;
        } else {
            self.bits = self.bits & !other.bits;
        }
    }

    /// The bit of `button`, or `None` for [`MouseButton::Other`].
    ///
    /// A code this type does not name has no bit to occupy, so it cannot be
    /// tracked as held.
    #[must_use]
    #[verifier::allow_in_spec]
    pub fn bit_of(button: MouseButton) -> Option<Self>
        returns
            (match button {
                MouseButton::Primary => Some(MouseButtons { bits: MouseButtons::PRIMARY }),
                MouseButton::Secondary => Some(MouseButtons { bits: MouseButtons::SECONDARY }),
                MouseButton::Middle => Some(MouseButtons { bits: MouseButtons::MIDDLE }),
                MouseButton::Back => Some(MouseButtons { bits: MouseButtons::BACK }),
                MouseButton::Forward => Some(MouseButtons { bits: MouseButtons::FORWARD }),
                MouseButton::Other(_) => None,
            }),
    {
        match button {
            MouseButton::Primary => Some(MouseButtons { bits: MouseButtons::PRIMARY }),
            MouseButton::Secondary => Some(MouseButtons { bits: MouseButtons::SECONDARY }),
            MouseButton::Middle => Some(MouseButtons { bits: MouseButtons::MIDDLE }),
            MouseButton::Back => Some(MouseButtons { bits: MouseButtons::BACK }),
            MouseButton::Forward => Some(MouseButtons { bits: MouseButtons::FORWARD }),
            MouseButton::Other(_) => None,
        }
    }

    /// Every button a set can track, in a stable order.
    pub open spec fn tracked_order() -> Seq<MouseButtons> {
        seq![
            MouseButtons { bits: MouseButtons::PRIMARY },
            MouseButtons { bits: MouseButtons::SECONDARY },
            MouseButtons { bits: MouseButtons::MIDDLE },
            MouseButtons { bits: MouseButtons::BACK },
            MouseButtons { bits: MouseButtons::FORWARD },
        ]
    }

    /// The buttons this set contains, in the tracked order.
    pub fn held(self) -> (held: Vec<Self>)
        ensures
            held@ == Self::tracked_order().filter(|button: MouseButtons| self.contains(button)),
    {
        let order: [u8; 5] = [
            MouseButtons::PRIMARY,
            MouseButtons::SECONDARY,
            MouseButtons::MIDDLE,
            MouseButtons::BACK,
            MouseButtons::FORWARD,
        ];
        let ghost keep = |button: MouseButtons| self.contains(button);
        let mut held: Vec<Self> = Vec::new();
        let mut i: usize = 0;
        assert(Self::tracked_order().take(0) =~= Seq::empty());
        while i < 5
            invariant
                i <= 5,
                forall|j: int|
                    0 <= j < 5 ==> Self::tracked_order()[j] == (MouseButtons { bits: order[j] }),
                keep == (|button: MouseButtons| self.contains(button)),
                held@ == Self::tracked_order().take(i as int).filter(keep),
            decreases 5 - i,
        {
            let button = MouseButtons { bits: order[i] };
            proof {
                let next = Self::tracked_order().take(i + 1);
                assert(next.drop_last() =~= Self::tracked_order().take(i as int));
                assert(next.last() == button);
                reveal_with_fuel(Seq::filter, 2);
            }
            if self.contains(button) {
                held.push(button);
            }
            i = i + 1;
        }
        assert(Self::tracked_order().take(5) =~= Self::tracked_order());
        held
    }
}

/// The state of the keyboard modifier keys at the moment an event was
/// produced.
#[derive(Clone, Copy, Debug, PartialEq, Eq, Hash, Structural)]
pub struct Modifiers {
    /// The Alt key (Option on macOS) is held.
    pub alt: bool,
    /// The Control key is held.
    pub ctrl: bool,
    /// The Shift key is held.
    pub shift: bool,
    /// The macOS Command key is held. Always false elsewhere.
    pub mac_cmd: bool,
    /// The key that acts as the platform's command key is held: Ctrl on
    /// Windows and Linux, Command on macOS.
    pub command: bool,
}

impl Modifiers {
    /// No modifier held.
    pub open spec fn none() -> Modifiers {
        Modifiers { alt: false, ctrl: false, shift: false, mac_cmd: false, command: false }
    }
}

impl Default for Modifiers {
    fn default() -> (modifiers: Self)
        ensures
            modifiers == Modifiers::none(),
    {
        Modifiers { alt: false, ctrl: false, shift: false, mac_cmd: false, command: false }
    }
}

/// Where a touch or a wheel gesture is in its lifetime.
#[derive(Clone, Copy, Debug, PartialEq, Eq, Structural)]
pub enum TouchPhase {
    /// The gesture started on this event.
    Started,
    /// The gesture continued.
    Moved,
    /// The gesture ended without being cancelled.
    Ended,
    /// The gesture was interrupted, so it should not count as completed.
    Cancelled,
}

/// The unit a wheel delta is measured in.
#[derive(Clone, Copy, Debug, PartialEq, Eq, Structural)]
pub enum WheelUnit {
    /// Lines of text, the usual unit of a mouse wheel.
    Line,
    /// Pixels, the usual unit of a trackpad.
    Pixel,
    /// Pages.
    Page,
}

/// Which input-method effect an [`ImeEvent`] carries.
#[derive(Debug, PartialEq, Eq)]
pub enum ImeKind {
    /// Work in progress. `text` is what the method currently shows and
    /// `active_range` is the byte range within it that is still undecided.
    Preedit {
        /// The text being composed so far.
        text: String,
        /// The byte range of `text` that is still undecided, if any.
        active_range: Option<core::ops::Range<usize>>,
    },
    /// Finished text, which should be inserted as it is.
    Commit(String),
    /// The method asks for up to `before` bytes before and `after` bytes after
    /// the cursor to be deleted, as part of re-composing.
    DeleteSurrounding {
        /// How many bytes before the cursor to delete.
        before: usize,
        /// How many bytes after the cursor to delete.
        after: usize,
    },
    /// The method was turned on for this input.
    Enabled,
    /// The method was turned off.
    Disabled,
}

impl Clone for ImeKind {
    fn clone(&self) -> (kind: Self)
        ensures
            kind == *self,
    {
        match self {
            ImeKind::Preedit { text, active_range } => ImeKind::Preedit {
                text: text.clone(),
                active_range: match active_range {
                    Some(range) => Some(core::ops::Range { start: range.start, end: range.end }),
                    None => None,
                },
            },
            ImeKind::Commit(text) => ImeKind::Commit(text.clone()),
            ImeKind::DeleteSurrounding { before, after } => ImeKind::DeleteSurrounding {
                before: *before,
                after: *after,
            },
            ImeKind::Enabled => ImeKind::Enabled,
            ImeKind::Disabled => ImeKind::Disabled,
        }
    }
}

/// A key was pressed, released, or auto-repeated.
#[derive(Clone, Copy, Debug, PartialEq, Eq, Structural)]
pub struct KeyEvent {
    /// Which key.
    pub key: Key,
    /// Whether the key went down (`true`) or came up (`false`).
    pub pressed: bool,
    /// Whether this is an auto-repeat of a key already held.
    pub repeat: bool,
    /// The modifier state when the event was produced.
    pub modifiers: Modifiers,
}

/// Which kind of device a [`PointerEvent`] came from.
#[derive(Clone, Copy, Debug, PartialEq, Eq, Hash, Structural)]
pub enum PointerKind {
    /// A mouse.
    Mouse,
    /// A finger on a touch screen.
    Touch,
    /// A trackpad, which a gesture is attributed to where the platform does not
    /// say which device produced it.
    Trackpad,
    /// A stylus or other pen-like pointing device.
    Pen,
    /// A pointing device this type does not name.
    Other,
}

/// A pointing device moved, went down or up, left the window, or gestured.
///
/// This is the device-agnostic half of pointing input: it says where the
/// pointer is and whether it is down, without naming a mouse button or a touch
/// id. Positions are in physical pixels with the origin at the window's
/// top-left corner.
#[derive(Clone, Copy, Debug, PartialEq, Eq)]
pub struct PointerEvent {
    /// Which device produced the event.
    pub kind: PointerKind,
    /// Which contact of that kind this is. The pair of `kind` and `id`
    /// identifies a contact.
    pub id: u64,
    /// What the device did.
    pub action: PointerAction,
    /// The pointer position in physical pixels, or `None` when the action is
    /// one that has no position.
    pub position: Option<Position>,
    /// The modifier state when the event was produced.
    pub modifiers: Modifiers,
}

/// One pointer that is currently down.
#[derive(Clone, Copy, Debug, PartialEq, Eq)]
pub struct PointerContact {
    /// Which device the contact is from.
    pub kind: PointerKind,
    /// Which contact of that kind it is, as in [`PointerEvent::id`].
    pub id: u64,
    /// Where the contact is, in physical pixels.
    pub position: Position,
}

/// What a pointer did.
#[derive(Clone, Copy, Debug, PartialEq, Eq)]
pub enum PointerAction {
    /// The pointer moved.
    Moved,
    /// The pointer went down.
    Pressed,
    /// The pointer came up.
    Released {
        /// Whether the platform cancelled the gesture instead of the device
        /// finishing it.
        cancelled: bool,
    },
    /// The pointer left the window, so its position is no longer known.
    Left,
    /// A pinch gesture changed the scale by this delta.
    Zoom(Scalar),
    /// A rotation gesture turned by this many radians.
    Rotate(Scalar),
}

/// The mouse moved, changed button, left the window, or scrolled.
#[derive(Clone, Copy, Debug, PartialEq, Eq)]
pub enum MouseEvent {
    /// The mouse moved to `position`.
    Moved {
        /// The new mouse position.
        position: Position,
    },
    /// A mouse button changed state.
    Button {
        /// The mouse position when the button changed.
        position: Position,
        /// Which button.
        button: MouseButton,
        /// Whether the button went down (`true`) or came up (`false`).
        pressed: bool,
        /// The modifier state when the event was produced.
        modifiers: Modifiers,
    },
    /// The mouse left the window, so there is no position for it any more.
    Left,
    /// The wheel or trackpad scrolled by `delta`, measured in `unit`.
    Wheel {
        /// The scroll amount, in `unit`s.
        delta: Position,
        /// What `delta` is measured in.
        unit: WheelUnit,
        /// Where the gesture is in its lifetime.
        phase: TouchPhase,
        /// The modifier state when the event was produced.
        modifiers: Modifiers,
    },
}

/// A touch point changed.
#[derive(Clone, Copy, Debug, PartialEq, Eq)]
pub struct TouchEvent {
    /// Identifies the touch across its lifetime.
    pub id: u64,
    /// Where the touch is in its lifetime.
    pub phase: TouchPhase,
    /// The touch position, in physical pixels from the window's top-left.
    pub position: Position,
    /// The pressure the device reported, if it reports any.
    pub force: Option<Scalar>,
}

/// An input method changed its composition state.
#[derive(Debug, PartialEq, Eq)]
pub struct ImeEvent {
    /// What the input method did.
    pub kind: ImeKind,
}

impl Clone for ImeEvent {
    fn clone(&self) -> (event: Self)
        ensures
            event == *self,
    {
        ImeEvent { kind: self.kind.clone() }
    }
}

/// Text a key or an input method produced, ready to be inserted.
#[derive(Debug, PartialEq, Eq)]
pub struct TextEvent(pub String);

impl Clone for TextEvent {
    fn clone(&self) -> (event: Self)
        ensures
            event == *self,
    {
        TextEvent(self.0.clone())
    }
}

impl core::ops::Deref for TextEvent {
    type Target = str;

    fn deref(&self) -> (text: &str)
        ensures
            text@ == self.0@,
    {
        self.0.as_str()
    }
}

/// Everything a frame of input can produce.
#[derive(Debug, PartialEq, Eq)]
pub enum InputEvent {
    /// A key changed state.
    Key(KeyEvent),
    /// The mouse moved, changed button, left, or scrolled.
    Mouse(MouseEvent),
    /// A pointing device moved, went down or up, left, or gestured.
    Pointer(PointerEvent),
    /// A touch point changed.
    Touch(TouchEvent),
    /// Text was produced.
    Text(TextEvent),
    /// An input method changed its composition state.
    Ime(ImeEvent),
    /// The modifier state changed without a key event reporting it.
    ModifiersChanged(Modifiers),
    /// The window gained or lost focus.
    FocusChanged(bool),
}

impl Clone for InputEvent {
    fn clone(&self) -> (event: Self)
        ensures
            event == *self,
    {
        match self {
            InputEvent::Key(event) => InputEvent::Key(*event),
            InputEvent::Mouse(event) => InputEvent::Mouse(*event),
            InputEvent::Pointer(event) => InputEvent::Pointer(*event),
            InputEvent::Touch(event) => InputEvent::Touch(*event),
            InputEvent::Text(event) => InputEvent::Text(event.clone()),
            InputEvent::Ime(event) => InputEvent::Ime(event.clone()),
            InputEvent::ModifiersChanged(modifiers) => InputEvent::ModifiersChanged(*modifiers),
            InputEvent::FocusChanged(focused) => InputEvent::FocusChanged(*focused),
        }
    }
}

} // verus!
