//! Input events, the state they leave behind, and where each is delivered.
//!
//! [`InputState`] accumulates the events of a frame together with the state
//! they leave behind: which modifiers are held, where the pointer is, which
//! buttons and contacts are down. [`dispatch_input`] lays out which behaviour
//! on which entity receives which event, and in what order.
//!
//! Nothing here depends on a windowing library but [`window`], which translates
//! one library's events into the ones here.

use vstd::prelude::*;

use crate::collections::copy_list;
use crate::scalar::{Position, Scalar};

pub mod dispatch;
pub mod event;
pub mod window;

pub use dispatch::{dispatch_input, Behaviour, Behaviours, Delivery, Dispatch};
pub use event::{
    ImeEvent, ImeKind, InputEvent, Key, KeyEvent, Modifiers, MouseButton, MouseButtons,
    MouseEvent, PointerAction, PointerContact, PointerEvent, PointerKind, TextEvent, TouchEvent,
    TouchPhase, WheelUnit,
};

verus! {

/// Whether `contact` is the one `kind` and `id` name.
pub open spec fn is_contact(contact: PointerContact, kind: PointerKind, id: u64) -> bool {
    contact.kind == kind && contact.id == id
}

/// The index of the first contact `kind` and `id` name, or the length of
/// `pointers` when there is none.
pub open spec fn contact_index(pointers: Seq<PointerContact>, kind: PointerKind, id: u64) -> nat
    decreases pointers.len(),
{
    if pointers.len() == 0 {
        0
    } else if is_contact(pointers[0], kind, id) {
        0
    } else {
        1 + contact_index(pointers.drop_first(), kind, id)
    }
}

/// The contacts after the one `kind` and `id` name went down at `position`:
/// one that is already down moves there, and a new one joins at the end. With
/// no position known there is nowhere to put it, and nothing changes.
pub open spec fn pressed(
    pointers: Seq<PointerContact>,
    kind: PointerKind,
    id: u64,
    position: Option<Position>,
) -> Seq<PointerContact> {
    let index = contact_index(pointers, kind, id);
    match position {
        Some(position) => if index < pointers.len() {
            pointers.update(index as int, PointerContact { kind, id, position })
        } else {
            pointers.push(PointerContact { kind, id, position })
        },
        None => pointers,
    }
}

/// The contacts after the one `kind` and `id` name moved to `position`. A move
/// only updates a contact that is down; anything else is a hover.
pub open spec fn moved(
    pointers: Seq<PointerContact>,
    kind: PointerKind,
    id: u64,
    position: Option<Position>,
) -> Seq<PointerContact> {
    let index = contact_index(pointers, kind, id);
    match position {
        Some(position) => if index < pointers.len() {
            pointers.update(index as int, PointerContact { kind, id, position })
        } else {
            pointers
        },
        None => pointers,
    }
}

/// The contacts after the one `kind` and `id` name came up: all the others, in
/// the order they went down.
pub open spec fn released(
    pointers: Seq<PointerContact>,
    kind: PointerKind,
    id: u64,
) -> Seq<PointerContact> {
    pointers.filter(|contact: PointerContact| !is_contact(contact, kind, id))
}

/// Whether no two contacts share both kind and id.
pub open spec fn contacts_distinct(pointers: Seq<PointerContact>) -> bool {
    forall|i: int, j: int|
        #![trigger pointers[i], pointers[j]]
        0 <= i < j < pointers.len() ==> !is_contact(pointers[i], pointers[j].kind, pointers[j].id)
}

/// Where the contact `kind` and `id` name is, or `None` while it is not down.
pub open spec fn contact_position(
    pointers: Seq<PointerContact>,
    kind: PointerKind,
    id: u64,
) -> Option<Position> {
    let index = contact_index(pointers, kind, id);
    if index < pointers.len() {
        Some(pointers[index as int].position)
    } else {
        None
    }
}

/// Whether `touch` is the one `id` names.
pub open spec fn is_touch(touch: (u64, Position), id: u64) -> bool {
    touch.0 == id
}

/// Whether no two touches share an id.
pub open spec fn touches_distinct(touches: Seq<(u64, Position)>) -> bool {
    forall|i: int, j: int|
        #![trigger touches[i], touches[j]]
        0 <= i < j < touches.len() ==> !is_touch(touches[i], touches[j].0)
}

/// Where the touch `id` names is, or `None` while it is not active.
pub open spec fn touch_position(touches: Seq<(u64, Position)>, id: u64) -> Option<Position> {
    let index = touch_index(touches, id);
    if index < touches.len() {
        Some(touches[index as int].1)
    } else {
        None
    }
}

/// The index of the first touch `id` names, or the length of `touches` when
/// there is none.
pub open spec fn touch_index(touches: Seq<(u64, Position)>, id: u64) -> nat
    decreases touches.len(),
{
    if touches.len() == 0 {
        0
    } else if touches[0].0 == id {
        0
    } else {
        1 + touch_index(touches.drop_first(), id)
    }
}

/// The active touches after `id` was seen at `position`.
pub open spec fn touched(touches: Seq<(u64, Position)>, id: u64, position: Position) -> Seq<
    (u64, Position),
> {
    let index = touch_index(touches, id);
    if index < touches.len() {
        touches.update(index as int, (id, position))
    } else {
        touches.push((id, position))
    }
}

/// The active touches after `id` finished.
pub open spec fn lifted(touches: Seq<(u64, Position)>, id: u64) -> Seq<(u64, Position)> {
    touches.filter(|touch: (u64, Position)| !is_touch(touch, id))
}

/// What an [`InputState`] knows of its window.
#[derive(Clone, Copy, Debug, PartialEq, Eq)]
pub struct WindowState {
    /// Whether the window has the focus.
    pub focused: bool,
    /// The size of the window, in physical pixels.
    pub size_px: (u32, u32),
    /// How many physical pixels a logical point takes.
    pub scale_factor: Scalar,
}

/// The events of one frame, in the order they arrived. Only an [`InputState`]
/// adds to them.
#[derive(Debug, PartialEq, Eq)]
pub struct FrameEvents {
    list: Vec<InputEvent>,
}

impl View for FrameEvents {
    type V = Seq<InputEvent>;

    closed spec fn view(&self) -> Seq<InputEvent> {
        self.list@
    }
}

impl Clone for FrameEvents {
    fn clone(&self) -> (events: Self)
        ensures
            events@ == self@,
    {
        let mut list: Vec<InputEvent> = Vec::new();
        let mut i: usize = 0;
        while i < self.list.len()
            invariant
                i <= self.list.len(),
                list@ == self.list@.take(i as int),
            decreases self.list.len() - i,
        {
            list.push(self.list[i].clone());
            i = i + 1;
            assert(list@ =~= self.list@.take(i as int));
        }
        assert(list@ =~= self.list@);
        FrameEvents { list }
    }
}

/// The frame's input: the events that arrived since they were last cleared,
/// plus the state they left behind.
///
/// The two halves have different lifetimes. Events belong to one frame and are
/// cleared once every consumer has read them. The state fields describe how
/// the input devices are now, and outlive the events that set them.
#[derive(Debug, PartialEq, Eq)]
pub struct InputState {
    /// The events since they were last cleared, read with
    /// [`InputState::events`].
    pub frame: FrameEvents,
    /// The modifier keys currently held.
    pub modifiers: Modifiers,
    /// Every pointer currently down, in the order they went down. A mouse is
    /// one pointer, down as long as one of its buttons is held.
    pub pointers: Vec<PointerContact>,
    /// Where the pointer is in physical pixels, or `None` while it is outside
    /// the window. With several fingers down it follows the most recent
    /// contact.
    pub pointer: Option<Position>,
    /// Whether any pointer is down: a mouse button is held, a finger is on the
    /// screen, or several fingers are.
    pub pointer_down: bool,
    /// The mouse position in physical pixels, or `None` while the mouse is
    /// outside the window. A finger does not move the mouse.
    pub cursor: Option<Position>,
    /// The mouse buttons currently held.
    pub buttons: MouseButtons,
    /// The touches currently active, as `(touch id, position)` pairs.
    pub touches: Vec<(u64, Position)>,
    /// Whether the window has focus. Input without focus is usually stale.
    pub focused: bool,
    /// The window's size in physical pixels.
    pub size_px: (u32, u32),
    /// The window's physical pixels per logical point.
    pub scale_factor: Scalar,
}

/// What an [`InputState`] holds: its lists as sequences, the rest as it is.
#[verifier::ext_equal]
pub struct InputModel {
    /// The events of the frame.
    pub events: Seq<InputEvent>,
    /// The modifier keys currently held.
    pub modifiers: Modifiers,
    /// The contacts that are down.
    pub pointers: Seq<PointerContact>,
    /// Where the pointer is.
    pub pointer: Option<Position>,
    /// Whether any pointer is down.
    pub pointer_down: bool,
    /// Where the mouse is.
    pub cursor: Option<Position>,
    /// The mouse buttons currently held.
    pub buttons: MouseButtons,
    /// The active touches.
    pub touches: Seq<(u64, Position)>,
    /// Whether the window has focus.
    pub focused: bool,
    /// The window's size.
    pub size_px: (u32, u32),
    /// The window's pixel density.
    pub scale_factor: Scalar,
}

impl InputModel {
    /// The state before any event: nothing held, nothing down, a focused
    /// window of no size with one physical pixel per logical point.
    pub open spec fn initial() -> InputModel {
        InputModel {
            events: Seq::empty(),
            modifiers: Modifiers::none(),
            pointers: Seq::empty(),
            pointer: None,
            pointer_down: false,
            cursor: None,
            buttons: MouseButtons::empty(),
            touches: Seq::empty(),
            focused: true,
            size_px: (0, 0),
            scale_factor: Scalar::one(),
        }
    }

    /// The state a mouse event leaves behind.
    pub open spec fn after_mouse(self, event: MouseEvent) -> InputModel {
        match event {
            MouseEvent::Moved { position } => InputModel { cursor: Some(position), ..self },
            MouseEvent::Button { position, button, pressed, .. } => InputModel {
                cursor: Some(position),
                buttons: match MouseButtons::bit_of(button) {
                    Some(bit) => self.buttons.with(bit, pressed),
                    None => self.buttons,
                },
                ..self
            },
            MouseEvent::Left => InputModel { cursor: None, ..self },
            MouseEvent::Wheel { .. } => self,
        }
    }

    /// Whether a pointer of `kind` still holds a button, so that a release does
    /// not lift it.
    pub open spec fn holds(self, kind: PointerKind) -> bool {
        kind == PointerKind::Mouse && !self.buttons.is_empty()
    }

    /// The state a pointer event leaves behind.
    ///
    /// An event that carries a position moves the pointer there; one that does
    /// not acts at the last known position. A mouse that lets one button go
    /// while it holds another stays down.
    pub open spec fn after_pointer(self, event: PointerEvent) -> InputModel {
        let at = match event.position {
            Some(position) => Some(position),
            None => self.pointer,
        };
        let pointers = match event.action {
            PointerAction::Pressed => pressed(self.pointers, event.kind, event.id, at),
            PointerAction::Released { .. } => if self.holds(event.kind) {
                moved(self.pointers, event.kind, event.id, at)
            } else {
                released(self.pointers, event.kind, event.id)
            },
            PointerAction::Moved => moved(self.pointers, event.kind, event.id, at),
            PointerAction::Left | PointerAction::Zoom(_) | PointerAction::Rotate(_) =>
                self.pointers,
        };
        InputModel {
            pointers,
            pointer: if event.action is Left {
                None
            } else {
                at
            },
            pointer_down: pointers.len() > 0,
            ..self
        }
    }

    /// The state a touch event leaves behind.
    pub open spec fn after_touch(self, event: TouchEvent) -> InputModel {
        InputModel {
            touches: match event.phase {
                TouchPhase::Started | TouchPhase::Moved => touched(
                    self.touches,
                    event.id,
                    event.position,
                ),
                TouchPhase::Ended | TouchPhase::Cancelled => lifted(self.touches, event.id),
            },
            ..self
        }
    }

    /// The state `event` leaves behind, its own place among the events aside.
    pub open spec fn after(self, event: InputEvent) -> InputModel {
        match event {
            InputEvent::Key(event) => InputModel { modifiers: event.modifiers, ..self },
            InputEvent::Mouse(event) => self.after_mouse(event),
            InputEvent::Pointer(event) => self.after_pointer(event),
            InputEvent::Touch(event) => self.after_touch(event),
            InputEvent::Text(_) | InputEvent::Ime(_) => self,
            InputEvent::ModifiersChanged(modifiers) => InputModel { modifiers, ..self },
            InputEvent::FocusChanged(focused) => InputModel { focused, ..self },
        }
    }

    /// The state once `event` is recorded: what it leaves behind, with the
    /// event at the end of the frame's list.
    pub open spec fn pushed(self, event: InputEvent) -> InputModel {
        InputModel { events: self.events.push(event), ..self.after(event) }
    }

    /// The state once `events` are recorded, first to last.
    pub open spec fn pushed_all(self, events: Seq<InputEvent>) -> InputModel
        decreases events.len(),
    {
        if events.len() == 0 {
            self
        } else {
            self.pushed_all(events.drop_last()).pushed(events.last())
        }
    }

    /// The state once the frame's events are dropped.
    pub open spec fn cleared(self) -> InputModel {
        InputModel { events: Seq::empty(), ..self }
    }

    /// The state once its caller placed the pointer.
    pub open spec fn placed(self, position: Option<Position>) -> InputModel {
        InputModel { pointer: position, ..self }
    }

    /// What every event keeps of a state: the down flag says whether a contact
    /// is down, no contact is down twice, no touch is active twice and the held
    /// buttons are named ones.
    pub open spec fn wf(self) -> bool {
        &&& self.pointer_down == (self.pointers.len() > 0)
        &&& contacts_distinct(self.pointers)
        &&& touches_distinct(self.touches)
        &&& self.buttons.only_named()
    }
}

impl View for InputState {
    type V = InputModel;

    open spec fn view(&self) -> InputModel {
        InputModel {
            events: self.frame@,
            modifiers: self.modifiers,
            pointers: self.pointers@,
            pointer: self.pointer,
            pointer_down: self.pointer_down,
            cursor: self.cursor,
            buttons: self.buttons,
            touches: self.touches@,
            focused: self.focused,
            size_px: self.size_px,
            scale_factor: self.scale_factor,
        }
    }
}

impl Clone for InputState {
    fn clone(&self) -> (state: Self)
        ensures
            state@ == self@,
    {
        InputState {
            frame: self.frame.clone(),
            modifiers: self.modifiers,
            pointers: copy_list(&self.pointers),
            pointer: self.pointer,
            pointer_down: self.pointer_down,
            cursor: self.cursor,
            buttons: self.buttons,
            touches: copy_list(&self.touches),
            focused: self.focused,
            size_px: self.size_px,
            scale_factor: self.scale_factor,
        }
    }
}

impl Default for InputState {
    fn default() -> (state: Self)
        ensures
            state@ == InputModel::initial(),
    {
        InputState {
            frame: FrameEvents { list: Vec::new() },
            modifiers: Modifiers::default(),
            pointers: Vec::new(),
            pointer: None,
            pointer_down: false,
            cursor: None,
            buttons: MouseButtons::empty(),
            touches: Vec::new(),
            focused: true,
            size_px: (0, 0),
            scale_factor: Scalar::one(),
        }
    }
}

/// The first contact at or past `start` decides [`contact_index`], once none
/// before it is the one asked for.
proof fn lemma_contact_index(
    pointers: Seq<PointerContact>,
    kind: PointerKind,
    id: u64,
    index: nat,
)
    requires
        index <= pointers.len(),
        forall|j: int| 0 <= j < index ==> !is_contact(#[trigger] pointers[j], kind, id),
        index < pointers.len() ==> is_contact(pointers[index as int], kind, id),
    ensures
        contact_index(pointers, kind, id) == index,
    decreases index,
{
    if index > 0 {
        assert(!is_contact(pointers[0], kind, id));
        let rest = pointers.drop_first();
        assert forall|j: int| 0 <= j < index - 1 implies !is_contact(
            #[trigger] rest[j],
            kind,
            id,
        ) by {
            assert(rest[j] == pointers[j + 1]);
        }
        lemma_contact_index(rest, kind, id, (index - 1) as nat);
    }
}

/// As [`lemma_contact_index`], for touches.
proof fn lemma_touch_index(touches: Seq<(u64, Position)>, id: u64, index: nat)
    requires
        index <= touches.len(),
        forall|j: int| 0 <= j < index ==> (#[trigger] touches[j]).0 != id,
        index < touches.len() ==> touches[index as int].0 == id,
    ensures
        touch_index(touches, id) == index,
    decreases index,
{
    if index > 0 {
        assert(touches[0].0 != id);
        let rest = touches.drop_first();
        assert forall|j: int| 0 <= j < index - 1 implies (#[trigger] rest[j]).0 != id by {
            assert(rest[j] == touches[j + 1]);
        }
        lemma_touch_index(rest, id, (index - 1) as nat);
    }
}

impl InputState {
    /// The events that have arrived since they were last cleared.
    #[must_use]
    pub fn events(&self) -> (events: &[InputEvent])
        ensures
            events@ == self@.events,
    {
        self.frame.list.as_slice()
    }

    /// What is known of the window the events come from.
    pub fn window_state(&self) -> (window: WindowState)
        ensures
            window == (WindowState {
                focused: self@.focused,
                size_px: self@.size_px,
                scale_factor: self@.scale_factor,
            }),
    {
        WindowState {
            focused: self.focused,
            size_px: self.size_px,
            scale_factor: self.scale_factor,
        }
    }

    /// Record `event` and update the state it leaves behind.
    pub fn push(&mut self, event: InputEvent)
        ensures
            final(self)@ == old(self)@.pushed(event),
            final(self)@.events == old(self)@.events.push(event),
            event matches InputEvent::FocusChanged(focused) ==> final(self)@.focused == focused,
            !(event is FocusChanged) ==> final(self)@.focused == old(self)@.focused,
            event matches InputEvent::Key(key) ==> final(self)@.modifiers == key.modifiers,
            event matches InputEvent::ModifiersChanged(modifiers) ==> final(self)@.modifiers
                == modifiers,
    {
        match &event {
            InputEvent::Key(event) => {
                self.modifiers = event.modifiers;
            },
            InputEvent::Mouse(event) => {
                self.apply_mouse(*event);
            },
            InputEvent::Pointer(event) => {
                self.apply_pointer(*event);
            },
            InputEvent::Touch(event) => {
                self.apply_touch(event);
            },
            InputEvent::Text(_) => {},
            InputEvent::Ime(_) => {},
            InputEvent::ModifiersChanged(modifiers) => {
                self.modifiers = *modifiers;
            },
            InputEvent::FocusChanged(focused) => {
                self.focused = *focused;
            },
        }
        self.frame.list.push(event);
    }

    /// Drop the frame's events, keeping the state they left behind.
    pub fn clear_events(&mut self)
        ensures
            final(self)@ == old(self)@.cleared(),
            final(self)@ == (InputModel { events: Seq::empty(), ..old(self)@ }),
    {
        self.frame.list.clear();
    }

    /// Seed the window size, for a caller that learns it outside an event.
    pub fn set_size_px(&mut self, width: u32, height: u32)
        ensures
            final(self)@ == (InputModel { size_px: (width, height), ..old(self)@ }),
    {
        self.size_px = (width, height);
    }

    /// Seed the pixel density, for a caller that learns it outside an event.
    pub fn set_scale_factor(&mut self, scale_factor: Scalar)
        ensures
            final(self)@ == (InputModel { scale_factor, ..old(self)@ }),
    {
        self.scale_factor = scale_factor;
    }

    /// Move the pointer without an event, for a caller that tracks it itself.
    ///
    /// Only the hover position is set: which pointers are down is a fact only
    /// the events carry.
    pub fn set_pointer(&mut self, position: Option<Position>)
        ensures
            final(self)@ == old(self)@.placed(position),
            final(self)@ == (InputModel { pointer: position, ..old(self)@ }),
    {
        self.pointer = position;
    }

    /// Update the state a mouse event leaves behind.
    fn apply_mouse(&mut self, event: MouseEvent)
        ensures
            final(self)@ == old(self)@.after_mouse(event),
    {
        match event {
            MouseEvent::Moved { position } => {
                self.cursor = Some(position);
            },
            MouseEvent::Button { position, button, pressed, .. } => {
                self.cursor = Some(position);
                if let Some(bit) = MouseButtons::bit_of(button) {
                    self.buttons.set(bit, pressed);
                }
            },
            MouseEvent::Left => {
                self.cursor = None;
            },
            MouseEvent::Wheel { .. } => {},
        }
    }

    /// Update the state a pointer event leaves behind.
    fn apply_pointer(&mut self, event: PointerEvent)
        ensures
            final(self)@ == old(self)@.after_pointer(event),
    {
        if let Some(position) = event.position {
            self.pointer = Some(position);
        }
        // An event without a position acts at the last known one.
        let position = self.pointer;
        let index = self.find_contact(event.kind, event.id);
        match event.action {
            PointerAction::Pressed => {
                if let Some(position) = position {
                    let contact = PointerContact { kind: event.kind, id: event.id, position };
                    if index < self.pointers.len() {
                        self.pointers.set(index, contact);
                    } else {
                        self.pointers.push(contact);
                    }
                }
            },
            PointerAction::Released { .. } => {
                // A mouse that lets one button go while it holds another stays
                // down, where the release was.
                if event.kind == PointerKind::Mouse && !self.buttons.is_empty() {
                    if let Some(position) = position {
                        if index < self.pointers.len() {
                            let contact = PointerContact {
                                kind: event.kind,
                                id: event.id,
                                position,
                            };
                            self.pointers.set(index, contact);
                        }
                    }
                } else {
                    self.release_contact(event.kind, event.id);
                }
            },
            PointerAction::Left => {
                self.pointer = None;
            },
            PointerAction::Moved => {
                if let Some(position) = position {
                    if index < self.pointers.len() {
                        let contact = PointerContact { kind: event.kind, id: event.id, position };
                        self.pointers.set(index, contact);
                    }
                }
            },
            PointerAction::Zoom(_) => {},
            PointerAction::Rotate(_) => {},
        }
        self.pointer_down = self.pointers.len() > 0;
    }

    /// The index of the down contact `kind` and `id` name, or the number of
    /// contacts when it is not down.
    fn find_contact(&self, kind: PointerKind, id: u64) -> (index: usize)
        ensures
            index == contact_index(self@.pointers, kind, id),
            index <= self@.pointers.len(),
    {
        let mut index: usize = 0;
        while index < self.pointers.len() && !(self.pointers[index].kind == kind
            && self.pointers[index].id == id)
            invariant
                index <= self.pointers.len(),
                forall|j: int| 0 <= j < index ==> !is_contact(#[trigger] self.pointers@[j], kind, id),
            decreases self.pointers.len() - index,
        {
            index = index + 1;
        }
        proof {
            lemma_contact_index(self.pointers@, kind, id, index as nat);
        }
        index
    }

    /// Drop the contact `kind` and `id` name.
    fn release_contact(&mut self, kind: PointerKind, id: u64)
        ensures
            final(self)@ == (InputModel {
                pointers: released(old(self)@.pointers, kind, id),
                ..old(self)@
            }),
    {
        let mut kept: Vec<PointerContact> = Vec::new();
        let mut index: usize = 0;
        let ghost keep = |contact: PointerContact| !is_contact(contact, kind, id);
        assert(self.pointers@.take(0) =~= Seq::empty());
        while index < self.pointers.len()
            invariant
                index <= self.pointers.len(),
                keep == (|contact: PointerContact| !is_contact(contact, kind, id)),
                kept@ == self.pointers@.take(index as int).filter(keep),
            decreases self.pointers.len() - index,
        {
            let contact = self.pointers[index];
            proof {
                let next = self.pointers@.take(index + 1);
                assert(next.drop_last() =~= self.pointers@.take(index as int));
                assert(next.last() == contact);
                reveal_with_fuel(Seq::filter, 2);
            }
            if !(contact.kind == kind && contact.id == id) {
                kept.push(contact);
            }
            index = index + 1;
        }
        assert(self.pointers@.take(index as int) =~= self.pointers@);
        self.pointers = kept;
    }

    /// Update the state a touch event leaves behind.
    fn apply_touch(&mut self, event: &TouchEvent)
        ensures
            final(self)@ == old(self)@.after_touch(*event),
    {
        match event.phase {
            TouchPhase::Started | TouchPhase::Moved => {
                let index = self.find_touch(event.id);
                if index < self.touches.len() {
                    self.touches.set(index, (event.id, event.position));
                } else {
                    self.touches.push((event.id, event.position));
                }
            },
            // A finished touch is no longer active, so it stops being state.
            TouchPhase::Ended | TouchPhase::Cancelled => {
                self.lift_touch(event.id);
            },
        }
    }

    /// The index of the active touch `id` names, or the number of touches when
    /// it is not active.
    fn find_touch(&self, id: u64) -> (index: usize)
        ensures
            index == touch_index(self@.touches, id),
            index <= self@.touches.len(),
    {
        let mut index: usize = 0;
        while index < self.touches.len() && self.touches[index].0 != id
            invariant
                index <= self.touches.len(),
                forall|j: int| 0 <= j < index ==> (#[trigger] self.touches@[j]).0 != id,
            decreases self.touches.len() - index,
        {
            index = index + 1;
        }
        proof {
            lemma_touch_index(self.touches@, id, index as nat);
        }
        index
    }

    /// Drop the touch `id` names.
    fn lift_touch(&mut self, id: u64)
        ensures
            final(self)@ == (InputModel {
                touches: lifted(old(self)@.touches, id),
                ..old(self)@
            }),
    {
        let mut kept: Vec<(u64, Position)> = Vec::new();
        let mut index: usize = 0;
        let ghost keep = |touch: (u64, Position)| !is_touch(touch, id);
        assert(self.touches@.take(0) =~= Seq::empty());
        while index < self.touches.len()
            invariant
                index <= self.touches.len(),
                keep == (|touch: (u64, Position)| !is_touch(touch, id)),
                kept@ == self.touches@.take(index as int).filter(keep),
            decreases self.touches.len() - index,
        {
            let touch = self.touches[index];
            proof {
                let next = self.touches@.take(index + 1);
                assert(next.drop_last() =~= self.touches@.take(index as int));
                assert(next.last() == touch);
                reveal_with_fuel(Seq::filter, 2);
            }
            if touch.0 != id {
                kept.push(touch);
            }
            index = index + 1;
        }
        assert(self.touches@.take(index as int) =~= self.touches@);
        self.touches = kept;
    }
}

/// What [`contact_index`] finds.
proof fn lemma_contact_index_finds(pointers: Seq<PointerContact>, kind: PointerKind, id: u64)
    ensures
        contact_index(pointers, kind, id) <= pointers.len(),
        forall|j: int|
            0 <= j < contact_index(pointers, kind, id) ==> !is_contact(
                #[trigger] pointers[j],
                kind,
                id,
            ),
        contact_index(pointers, kind, id) < pointers.len() ==> is_contact(
            pointers[contact_index(pointers, kind, id) as int],
            kind,
            id,
        ),
    decreases pointers.len(),
{
    if pointers.len() > 0 && !is_contact(pointers[0], kind, id) {
        let rest = pointers.drop_first();
        lemma_contact_index_finds(rest, kind, id);
        let index = contact_index(pointers, kind, id);
        assert forall|j: int| 0 <= j < index implies !is_contact(
            #[trigger] pointers[j],
            kind,
            id,
        ) by {
            if j > 0 {
                assert(rest[j - 1] == pointers[j]);
            }
        }
    }
}

/// What [`touch_index`] finds.
proof fn lemma_touch_index_finds(touches: Seq<(u64, Position)>, id: u64)
    ensures
        touch_index(touches, id) <= touches.len(),
        forall|j: int|
            0 <= j < touch_index(touches, id) ==> !is_touch(#[trigger] touches[j], id),
        touch_index(touches, id) < touches.len() ==> is_touch(
            touches[touch_index(touches, id) as int],
            id,
        ),
    decreases touches.len(),
{
    if touches.len() > 0 && touches[0].0 != id {
        let rest = touches.drop_first();
        lemma_touch_index_finds(rest, id);
        let index = touch_index(touches, id);
        assert forall|j: int| 0 <= j < index implies !is_touch(#[trigger] touches[j], id) by {
            if j > 0 {
                assert(rest[j - 1] == touches[j]);
            }
        }
    }
}

/// What [`released`] keeps: every other contact, none twice, and nothing else.
proof fn lemma_released(pointers: Seq<PointerContact>, kind: PointerKind, id: u64)
    requires
        contacts_distinct(pointers),
    ensures
        contacts_distinct(released(pointers, kind, id)),
        forall|i: int|
            0 <= i < released(pointers, kind, id).len() ==> !is_contact(
                #[trigger] released(pointers, kind, id)[i],
                kind,
                id,
            ) && pointers.contains(released(pointers, kind, id)[i]),
        forall|j: int|
            0 <= j < pointers.len() && !is_contact(#[trigger] pointers[j], kind, id)
                ==> released(pointers, kind, id).contains(pointers[j]),
    decreases pointers.len(),
{
    let keep = |contact: PointerContact| !is_contact(contact, kind, id);
    reveal_with_fuel(Seq::filter, 2);
    if pointers.len() > 0 {
        let rest = pointers.drop_last();
        let last = pointers.last();
        lemma_released(rest, kind, id);
        let kept_rest = released(rest, kind, id);
        let kept = released(pointers, kind, id);
        assert(kept == if keep(last) {
            kept_rest.push(last)
        } else {
            kept_rest
        });
        assert forall|i: int| 0 <= i < kept.len() implies !is_contact(
            #[trigger] kept[i],
            kind,
            id,
        ) && pointers.contains(kept[i]) by {
            if i < kept_rest.len() {
                assert(kept[i] == kept_rest[i]);
                let j = choose|j: int| 0 <= j < rest.len() && rest[j] == kept_rest[i];
                assert(pointers[j] == kept[i]);
            } else {
                assert(pointers[pointers.len() - 1] == kept[i]);
            }
        }
        assert forall|i: int, j: int| 0 <= i < j < kept.len() implies !is_contact(
            #[trigger] kept[i],
            (#[trigger] kept[j]).kind,
            kept[j].id,
        ) by {
            if j < kept_rest.len() {
                assert(kept[i] == kept_rest[i] && kept[j] == kept_rest[j]);
            } else {
                assert(rest.contains(kept_rest[i]));
                let a = choose|a: int| 0 <= a < rest.len() && rest[a] == kept_rest[i];
                assert(pointers[a] == kept[i] && pointers[pointers.len() - 1] == kept[j]);
            }
        }
        assert forall|j: int|
            0 <= j < pointers.len() && !is_contact(
                #[trigger] pointers[j],
                kind,
                id,
            ) implies kept.contains(pointers[j]) by {
            if j < rest.len() {
                assert(rest[j] == pointers[j]);
                let i = choose|i: int| 0 <= i < kept_rest.len() && kept_rest[i] == rest[j];
                assert(kept[i] == pointers[j]);
            } else {
                assert(kept[kept.len() - 1] == pointers[j]);
            }
        }
    }
}

/// What [`lifted`] keeps: every other touch, none twice, and nothing else.
proof fn lemma_lifted(touches: Seq<(u64, Position)>, id: u64)
    requires
        touches_distinct(touches),
    ensures
        touches_distinct(lifted(touches, id)),
        forall|i: int|
            0 <= i < lifted(touches, id).len() ==> !is_touch(
                #[trigger] lifted(touches, id)[i],
                id,
            ) && touches.contains(lifted(touches, id)[i]),
        forall|j: int|
            0 <= j < touches.len() && !is_touch(#[trigger] touches[j], id) ==> lifted(
                touches,
                id,
            ).contains(touches[j]),
    decreases touches.len(),
{
    let keep = |touch: (u64, Position)| !is_touch(touch, id);
    reveal_with_fuel(Seq::filter, 2);
    if touches.len() > 0 {
        let rest = touches.drop_last();
        let last = touches.last();
        lemma_lifted(rest, id);
        let kept_rest = lifted(rest, id);
        let kept = lifted(touches, id);
        assert(kept == if keep(last) {
            kept_rest.push(last)
        } else {
            kept_rest
        });
        assert forall|i: int| 0 <= i < kept.len() implies !is_touch(#[trigger] kept[i], id)
            && touches.contains(kept[i]) by {
            if i < kept_rest.len() {
                assert(kept[i] == kept_rest[i]);
                let j = choose|j: int| 0 <= j < rest.len() && rest[j] == kept_rest[i];
                assert(touches[j] == kept[i]);
            } else {
                assert(touches[touches.len() - 1] == kept[i]);
            }
        }
        assert forall|i: int, j: int| 0 <= i < j < kept.len() implies !is_touch(
            #[trigger] kept[i],
            (#[trigger] kept[j]).0,
        ) by {
            if j < kept_rest.len() {
                assert(kept[i] == kept_rest[i] && kept[j] == kept_rest[j]);
            } else {
                assert(rest.contains(kept_rest[i]));
                let a = choose|a: int| 0 <= a < rest.len() && rest[a] == kept_rest[i];
                assert(touches[a] == kept[i] && touches[touches.len() - 1] == kept[j]);
            }
        }
        assert forall|j: int|
            0 <= j < touches.len() && !is_touch(#[trigger] touches[j], id) implies kept.contains(
            touches[j],
        ) by {
            if j < rest.len() {
                assert(rest[j] == touches[j]);
                let i = choose|i: int| 0 <= i < kept_rest.len() && kept_rest[i] == rest[j];
                assert(kept[i] == touches[j]);
            } else {
                assert(kept[kept.len() - 1] == touches[j]);
            }
        }
    }
}

/// A contact list that holds `contact` places it where `contact` is.
proof fn lemma_contact_position(pointers: Seq<PointerContact>, index: int)
    requires
        contacts_distinct(pointers),
        0 <= index < pointers.len(),
    ensures
        contact_position(pointers, pointers[index].kind, pointers[index].id) == Some(
            pointers[index].position,
        ),
{
    let contact = pointers[index];
    lemma_contact_index_finds(pointers, contact.kind, contact.id);
    let found = contact_index(pointers, contact.kind, contact.id);
    if found < index {
        assert(!is_contact(pointers[found as int], pointers[index].kind, pointers[index].id));
    }
}

/// Holding or releasing a button leaves only named buttons held.
proof fn lemma_buttons_stay_named(buttons: MouseButtons, button: MouseButton, value: bool)
    requires
        buttons.only_named(),
        !(button is Other),
    ensures
        buttons.with(MouseButtons::bit_of(button)->0, value).only_named(),
{
    let bits = buttons.bits;
    let a = (MouseButtons::bit_of(button)->0).bits;
    assert((bits | a) & !31u8 == 0 && (bits & !a) & !31u8 == 0) by (bit_vector)
        requires
            bits & !31u8 == 0,
            a == 1 || a == 2 || a == 4 || a == 8 || a == 16,
    ;
}

/// No event breaks what holds of a state: the down flag keeps saying whether a
/// contact is down, no contact or touch is ever listed twice, and only named
/// buttons are ever held.
pub proof fn law_push_keeps_the_state_consistent(state: InputModel, event: InputEvent)
    requires
        state.wf(),
    ensures
        state.pushed(event).wf(),
{
    match event {
        InputEvent::Mouse(MouseEvent::Button { button, pressed, .. }) => {
            if !(button is Other) {
                lemma_buttons_stay_named(state.buttons, button, pressed);
            }
        },
        InputEvent::Pointer(event) => {
            lemma_contact_index_finds(state.pointers, event.kind, event.id);
            lemma_released(state.pointers, event.kind, event.id);
        },
        InputEvent::Touch(event) => {
            lemma_touch_index_finds(state.touches, event.id);
            lemma_lifted(state.touches, event.id);
        },
        _ => {},
    }
}

/// The state a window starts with is consistent, so by
/// [`law_push_keeps_the_state_consistent`] every state events lead to is.
pub proof fn law_events_lead_to_consistent_states(events: Seq<InputEvent>)
    ensures
        InputModel::initial().pushed_all(events).wf(),
    decreases events.len(),
{
    assert(0u8 & !31u8 == 0) by (bit_vector);
    if events.len() > 0 {
        law_events_lead_to_consistent_states(events.drop_last());
        law_push_keeps_the_state_consistent(
            InputModel::initial().pushed_all(events.drop_last()),
            events.last(),
        );
    }
}

/// Pushing keeps the events of the frame and adds the new ones at the end, in
/// the order they were pushed.
pub proof fn law_pushed_events_are_kept_in_order(state: InputModel, events: Seq<InputEvent>)
    ensures
        state.pushed_all(events).events == state.events + events,
    decreases events.len(),
{
    if events.len() == 0 {
        assert(state.events + events =~= state.events);
    } else {
        law_pushed_events_are_kept_in_order(state, events.drop_last());
        assert(state.events + events =~= (state.events + events.drop_last()).push(events.last()));
    }
}

/// A pointer event acts on its own contact alone: whatever it does, every
/// other contact stays down, or up, and stays where it is.
pub proof fn law_contacts_are_independent(
    state: InputModel,
    event: PointerEvent,
    kind: PointerKind,
    id: u64,
)
    requires
        state.wf(),
        kind != event.kind || id != event.id,
    ensures
        contact_position(state.after_pointer(event).pointers, kind, id) == contact_position(
            state.pointers,
            kind,
            id,
        ),
{
    let before = state.pointers;
    let after = state.after_pointer(event).pointers;
    law_push_keeps_the_state_consistent(state, InputEvent::Pointer(event));
    lemma_contact_index_finds(before, event.kind, event.id);
    lemma_contact_index_finds(before, kind, id);
    lemma_contact_index_finds(after, kind, id);
    lemma_released(before, event.kind, event.id);
    let old_index = contact_index(before, kind, id) as int;
    let new_index = contact_index(after, kind, id) as int;
    if event.action is Released && !state.holds(event.kind) {
        if old_index < before.len() {
            assert(after.contains(before[old_index]));
            let i = choose|i: int| 0 <= i < after.len() && after[i] == before[old_index];
            lemma_contact_position(after, i);
        } else if new_index < after.len() {
            assert(before.contains(after[new_index]));
            let j = choose|j: int| 0 <= j < before.len() && before[j] == after[new_index];
            assert(is_contact(before[j], kind, id));
        }
    } else {
        if old_index < before.len() {
            assert(after[old_index] == before[old_index]);
            lemma_contact_position(after, old_index);
        } else if new_index < after.len() {
            assert(is_contact(after[new_index], kind, id));
            if new_index < before.len() {
                assert(!is_contact(before[new_index], kind, id));
            }
        }
    }
}

/// A list of touches that holds a touch places it where that touch is.
proof fn lemma_touch_position(touches: Seq<(u64, Position)>, index: int)
    requires
        touches_distinct(touches),
        0 <= index < touches.len(),
    ensures
        touch_position(touches, touches[index].0) == Some(touches[index].1),
{
    let id = touches[index].0;
    lemma_touch_index_finds(touches, id);
    let found = touch_index(touches, id) as int;
    if found < index {
        assert(!is_touch(touches[found], touches[index].0));
    } else if found > index {
        assert(!is_touch(touches[index], id));
    }
}

/// Touches are tracked one by one: a touch is where it was last seen until it
/// ends or is cancelled, and no touch disturbs another.
pub proof fn law_touches_are_tracked(state: InputModel, event: TouchEvent, other: u64)
    requires
        state.wf(),
        other != event.id,
    ensures
        touch_position(state.after_touch(event).touches, event.id) == match event.phase {
            TouchPhase::Started | TouchPhase::Moved => Some(event.position),
            TouchPhase::Ended | TouchPhase::Cancelled => None,
        },
        touch_position(state.after_touch(event).touches, other) == touch_position(
            state.touches,
            other,
        ),
{
    let before = state.touches;
    let after = state.after_touch(event).touches;
    law_push_keeps_the_state_consistent(state, InputEvent::Touch(event));
    lemma_touch_index_finds(before, event.id);
    lemma_touch_index_finds(before, other);
    lemma_touch_index_finds(after, event.id);
    lemma_touch_index_finds(after, other);
    lemma_lifted(before, event.id);
    let seen = touch_index(before, event.id) as int;
    let old_index = touch_index(before, other) as int;
    let new_index = touch_index(after, other) as int;
    if event.phase is Started || event.phase is Moved {
        assert(after[seen] == (event.id, event.position));
        lemma_touch_position(after, seen);
        if old_index < before.len() {
            assert(after[old_index] == before[old_index]);
            lemma_touch_position(after, old_index);
        } else if new_index < after.len() {
            assert(is_touch(after[new_index], other));
            if new_index < before.len() {
                assert(!is_touch(before[new_index], other));
            }
        }
    } else {
        if old_index < before.len() {
            assert(after.contains(before[old_index]));
            let i = choose|i: int| 0 <= i < after.len() && after[i] == before[old_index];
            lemma_touch_position(after, i);
        } else if new_index < after.len() {
            assert(before.contains(after[new_index]));
            let j = choose|j: int| 0 <= j < before.len() && before[j] == after[new_index];
            assert(is_touch(before[j], other));
        }
    }
}

/// A contact is down after a press, where the press was, and up after its
/// release, however the release came about. A mouse that still holds a button
/// is not up yet: its contact stays down, where the release was.
pub proof fn law_press_and_release(state: InputModel, event: PointerEvent)
    requires
        state.wf(),
    ensures
        event.action is Pressed && event.position is Some ==> contact_position(
            state.after_pointer(event).pointers,
            event.kind,
            event.id,
        ) == event.position,
        event.action is Released && !state.holds(event.kind) ==> contact_position(
            state.after_pointer(event).pointers,
            event.kind,
            event.id,
        ) is None,
        event.action is Released && state.holds(event.kind) && event.position is Some
            && contact_position(state.pointers, event.kind, event.id) is Some ==> contact_position(
            state.after_pointer(event).pointers,
            event.kind,
            event.id,
        ) == event.position,
{
    let before = state.pointers;
    let after = state.after_pointer(event).pointers;
    law_push_keeps_the_state_consistent(state, InputEvent::Pointer(event));
    lemma_contact_index_finds(before, event.kind, event.id);
    lemma_contact_index_finds(after, event.kind, event.id);
    lemma_released(before, event.kind, event.id);
    let index = contact_index(before, event.kind, event.id) as int;
    if event.position is Some && index < after.len() && !(event.action is Released
        && !state.holds(event.kind)) {
        lemma_contact_position(after, index);
    }
}

/// Releasing a contact that a press put down restores the contacts that were
/// down before it, where a mouse holds no other button.
pub proof fn law_release_undoes_press(state: InputModel, press: PointerEvent, release: PointerEvent)
    requires
        contact_position(state.pointers, press.kind, press.id) is None,
        !state.holds(press.kind),
        press.action is Pressed,
        release.action is Released,
        release.kind == press.kind,
        release.id == press.id,
    ensures
        state.after_pointer(press).after_pointer(release).pointers == state.pointers,
{
    let before = state.pointers;
    let down = state.after_pointer(press).pointers;
    lemma_contact_index_finds(before, press.kind, press.id);
    assert(down == before || down.drop_last() =~= before);
    let keep = |contact: PointerContact| !is_contact(contact, press.kind, press.id);
    lemma_filter_keeps_all(before, keep);
    reveal_with_fuel(Seq::filter, 2);
}

/// Filtering keeps a sequence whose every element passes.
proof fn lemma_filter_keeps_all<A>(items: Seq<A>, keep: spec_fn(A) -> bool)
    requires
        forall|i: int| 0 <= i < items.len() ==> keep(#[trigger] items[i]),
    ensures
        items.filter(keep) == items,
    decreases items.len(),
{
    reveal_with_fuel(Seq::filter, 2);
    if items.len() > 0 {
        lemma_filter_keeps_all(items.drop_last(), keep);
        assert(items.drop_last().push(items.last()) =~= items);
    } else {
        assert(items.filter(keep) =~= items);
    }
}

/// The three levels of pointing input do not reach into each other: a pointer
/// event leaves the mouse and the touches alone, a mouse event the pointers and
/// the touches, and a touch event the pointers and the mouse. None of them
/// moves the modifiers, the focus or the window.
pub proof fn law_device_levels_are_separate(
    state: InputModel,
    pointer: PointerEvent,
    mouse: MouseEvent,
    touch: TouchEvent,
)
    ensures
        state.after_pointer(pointer) == (InputModel {
            pointers: state.after_pointer(pointer).pointers,
            pointer: state.after_pointer(pointer).pointer,
            pointer_down: state.after_pointer(pointer).pointer_down,
            ..state
        }),
        state.after_mouse(mouse) == (InputModel {
            cursor: state.after_mouse(mouse).cursor,
            buttons: state.after_mouse(mouse).buttons,
            ..state
        }),
        state.after_touch(touch) == (InputModel {
            touches: state.after_touch(touch).touches,
            ..state
        }),
{
}

/// A hover presses nothing: a move leaves the same contacts down, in the same
/// order, and the down flag with them.
pub proof fn law_a_move_presses_nothing(state: InputModel, event: PointerEvent)
    requires
        state.wf(),
        event.action is Moved,
    ensures
        state.after_pointer(event).pointers.len() == state.pointers.len(),
        state.after_pointer(event).pointer_down == state.pointer_down,
        forall|i: int|
            0 <= i < state.pointers.len() ==> is_contact(
                #[trigger] state.after_pointer(event).pointers[i],
                state.pointers[i].kind,
                state.pointers[i].id,
            ),
{
    lemma_contact_index_finds(state.pointers, event.kind, event.id);
}

/// Holding a button makes the set contain it and releasing it makes the set
/// not contain it, whichever named button it is; the other named buttons stay
/// as they were.
pub proof fn law_held_buttons(
    buttons: MouseButtons,
    button: MouseButton,
    other: MouseButton,
    value: bool,
)
    requires
        !(button is Other),
        !(other is Other),
        button != other,
    ensures
        buttons.with(MouseButtons::bit_of(button)->0, value).contains(
            MouseButtons::bit_of(button)->0,
        ) == value,
        buttons.with(MouseButtons::bit_of(button)->0, value).contains(
            MouseButtons::bit_of(other)->0,
        ) == buttons.contains(MouseButtons::bit_of(other)->0),
{
    let bits = buttons.bits;
    let a = (MouseButtons::bit_of(button)->0).bits;
    let b = (MouseButtons::bit_of(other)->0).bits;
    assert((bits | a) & a == a) by (bit_vector);
    assert((bits & !a) & a == 0) by (bit_vector);
    assert(a & b == 0) by (bit_vector)
        requires
            a == 1 || a == 2 || a == 4 || a == 8 || a == 16,
            b == 1 || b == 2 || b == 4 || b == 8 || b == 16,
            a != b,
    ;
    assert((bits | a) & b == bits & b) by (bit_vector)
        requires
            a & b == 0,
    ;
    assert((bits & !a) & b == bits & b) by (bit_vector)
        requires
            a & b == 0,
    ;
}

/// The focus is what the window last said: a focus event sets it either way, so
/// a window that loses the focus and gains it again has it, and no other event
/// moves it.
pub proof fn law_the_focus_is_what_was_last_reported(
    state: InputModel,
    event: InputEvent,
    focused: bool,
)
    ensures
        state.pushed(InputEvent::FocusChanged(focused)).focused == focused,
        state.pushed(InputEvent::FocusChanged(!focused)).pushed(
            InputEvent::FocusChanged(focused),
        ).focused == focused,
        !(event is FocusChanged) ==> state.pushed(event).focused == state.focused,
{
}

/// The modifiers are what the last key event or modifier change carried, and no
/// other event moves them.
pub proof fn law_the_modifiers_are_what_was_last_reported(
    state: InputModel,
    key: KeyEvent,
    modifiers: Modifiers,
    event: InputEvent,
)
    ensures
        state.pushed(InputEvent::Key(key)).modifiers == key.modifiers,
        state.pushed(InputEvent::ModifiersChanged(modifiers)).modifiers == modifiers,
        !(event is Key) && !(event is ModifiersChanged) ==> state.pushed(event).modifiers
            == state.modifiers,
{
}

/// The mouse is where its last event put it: a move and a button put it where
/// they happened, leaving the window makes its place unknown, and neither a
/// wheel step nor an event of another device moves it.
pub proof fn law_the_cursor_follows_the_mouse(
    state: InputModel,
    event: InputEvent,
    position: Position,
    button: MouseButton,
    pressed: bool,
    modifiers: Modifiers,
)
    ensures
        state.pushed(InputEvent::Mouse(MouseEvent::Moved { position })).cursor == Some(position),
        state.pushed(
            InputEvent::Mouse(MouseEvent::Button { position, button, pressed, modifiers }),
        ).cursor == Some(position),
        state.pushed(InputEvent::Mouse(MouseEvent::Left)).cursor is None,
        event matches InputEvent::Mouse(mouse) ==> mouse is Wheel ==> state.pushed(event).cursor
            == state.cursor,
        !(event is Mouse) ==> state.pushed(event).cursor == state.cursor,
{
}

/// Every named button has one bit, and no two the same: the primary button the
/// first, then the secondary, the middle, back and forward. A button without a
/// name has none.
pub proof fn law_each_button_has_its_own_bit(code: u16)
    ensures
        MouseButtons::bit_of(MouseButton::Primary) == Some(MouseButtons::of_bits(1)),
        MouseButtons::bit_of(MouseButton::Secondary) == Some(MouseButtons::of_bits(2)),
        MouseButtons::bit_of(MouseButton::Middle) == Some(MouseButtons::of_bits(4)),
        MouseButtons::bit_of(MouseButton::Back) == Some(MouseButtons::of_bits(8)),
        MouseButtons::bit_of(MouseButton::Forward) == Some(MouseButtons::of_bits(16)),
        MouseButtons::bit_of(MouseButton::Other(code)) is None,
        MouseButtons::empty().bits == 0,
{
}

/// Every named button can be listed as held, once, in the order of the bits.
pub proof fn law_every_named_button_is_tracked(button: MouseButton, i: int, j: int)
    requires
        !(button is Other),
        0 <= i < j < MouseButtons::tracked_order().len(),
    ensures
        MouseButtons::tracked_order().len() == 5,
        MouseButtons::tracked_order().contains(MouseButtons::bit_of(button)->0),
        MouseButtons::tracked_order()[i].bits < MouseButtons::tracked_order()[j].bits,
{
    let order = MouseButtons::tracked_order();
    assert(order[0].bits == 1 && order[1].bits == 2 && order[2].bits == 4 && order[3].bits == 8
        && order[4].bits == 16);
    let at: int = match button {
        MouseButton::Primary => 0,
        MouseButton::Secondary => 1,
        MouseButton::Middle => 2,
        MouseButton::Back => 3,
        _ => 4,
    };
    assert(order[at] == MouseButtons::bit_of(button)->0);
}

/// A button is held from its press to its release: its own event decides it,
/// and no other event of any kind changes whether it is.
pub proof fn law_a_button_is_held_until_released(
    state: InputModel,
    button: MouseButton,
    event: InputEvent,
)
    requires
        !(button is Other),
    ensures
        ({
            let bit = MouseButtons::bit_of(button)->0;
            let after = state.pushed(event).buttons;
            match event {
                InputEvent::Mouse(MouseEvent::Button { button: changed, pressed, .. }) => if changed
                    == button {
                    after.contains(bit) == pressed
                } else {
                    after.contains(bit) == state.buttons.contains(bit)
                },
                _ => after == state.buttons,
            }
        }),
{
    if let InputEvent::Mouse(MouseEvent::Button { button: changed, pressed, .. }) = event {
        if !(changed is Other) && changed != button {
            law_held_buttons(state.buttons, changed, button, pressed);
        } else if changed == button {
            let other = if button is Primary {
                MouseButton::Secondary
            } else {
                MouseButton::Primary
            };
            law_held_buttons(state.buttons, button, other, pressed);
        }
    }
}

/// Where a pointer event happens: where it says, or where the pointer last was.
pub open spec fn event_place(state: InputModel, event: PointerEvent) -> Option<Position> {
    if event.position is Some {
        event.position
    } else {
        state.pointer
    }
}

/// The pointer is where the last event placed it, unknown once it left, and
/// moved by nothing but pointer events.
pub proof fn law_the_pointer_is_where_it_was_last_seen(
    state: InputModel,
    event: PointerEvent,
    other: InputEvent,
)
    ensures
        event.action is Left ==> state.pushed(InputEvent::Pointer(event)).pointer is None,
        !(event.action is Left) && event.position is Some ==> state.pushed(
            InputEvent::Pointer(event),
        ).pointer == event.position,
        !(event.action is Left) && event.position is None ==> state.pushed(
            InputEvent::Pointer(event),
        ).pointer == state.pointer,
        !(other is Pointer) ==> state.pushed(other).pointer == state.pointer,
{
}

/// What becomes of the contact a pointer event names. A press puts it down and
/// a move takes one that is down along, each to where the event happened; a
/// release lifts it, unless it is a mouse that still holds a button, whose
/// contact stays down; leaving and gestures neither press nor lift. An event
/// whose place is unknown changes no place.
pub proof fn law_a_contact_follows_its_own_events(state: InputModel, event: PointerEvent)
    requires
        state.wf(),
    ensures
        ({
            let before = contact_position(state.pointers, event.kind, event.id);
            let after = contact_position(
                state.pushed(InputEvent::Pointer(event)).pointers,
                event.kind,
                event.id,
            );
            let place = event_place(state, event);
            let held = event.kind == PointerKind::Mouse && state.buttons.bits != 0;
            &&& event.action is Pressed && place is Some ==> after == place
            &&& event.action is Pressed && place is None ==> after == before
            &&& event.action is Released && !held ==> after is None
            &&& (event.action is Moved || (event.action is Released && held)) && before is None
                ==> after is None
            &&& (event.action is Moved || (event.action is Released && held)) && before is Some
                ==> after == if place is Some {
                place
            } else {
                before
            }
            &&& event.action is Left || event.action is Zoom || event.action is Rotate ==> after
                == before
        }),
{
    let pushed = state.pushed(InputEvent::Pointer(event));
    let before = state.pointers;
    let after = pushed.pointers;
    law_push_keeps_the_state_consistent(state, InputEvent::Pointer(event));
    lemma_contact_index_finds(before, event.kind, event.id);
    lemma_contact_index_finds(after, event.kind, event.id);
    lemma_released(before, event.kind, event.id);
    let index = contact_index(before, event.kind, event.id) as int;
    let held = event.kind == PointerKind::Mouse && state.buttons.bits != 0;
    if event.action is Released && !held {
        let found = contact_index(after, event.kind, event.id) as int;
        if found < after.len() {
            assert(is_contact(after[found], event.kind, event.id));
        }
    } else if index < after.len() {
        assert(is_contact(after[index], event.kind, event.id));
        lemma_contact_position(after, index);
        if index < before.len() {
            lemma_contact_position(before, index);
        }
    }
}

/// Dropping the one element that fails keeps the others where they were.
proof fn lemma_filter_removes_one<A>(items: Seq<A>, keep: spec_fn(A) -> bool, at: int)
    requires
        0 <= at < items.len(),
        !keep(items[at]),
        forall|i: int| 0 <= i < items.len() && i != at ==> keep(#[trigger] items[i]),
    ensures
        items.filter(keep) == items.remove(at),
    decreases items.len(),
{
    reveal_with_fuel(Seq::filter, 2);
    let rest = items.drop_last();
    if at == items.len() - 1 {
        lemma_filter_keeps_all(rest, keep);
        assert(items.remove(at) =~= rest);
    } else {
        assert(keep(items[items.len() - 1]));
        lemma_filter_removes_one(rest, keep, at);
        assert(items.remove(at) =~= rest.remove(at).push(items.last()));
    }
}

/// The contacts are listed in the order they went down: a new one joins at the
/// end, one that is lifted leaves the others as they stood, and no other pointer
/// event adds, drops or moves an entry of the list.
pub proof fn law_contacts_are_listed_as_they_went_down(
    state: InputModel,
    event: PointerEvent,
    at: int,
)
    requires
        state.wf(),
    ensures
        ({
            let before = state.pointers;
            let after = state.pushed(InputEvent::Pointer(event)).pointers;
            let place = event_place(state, event);
            let down = contact_position(before, event.kind, event.id) is Some;
            let held = event.kind == PointerKind::Mouse && state.buttons.bits != 0;
            &&& event.action is Pressed && !down && place is Some ==> after == before.push(
                PointerContact { kind: event.kind, id: event.id, position: place->0 },
            )
            &&& event.action is Released && !held && 0 <= at < before.len() && before[at].kind
                == event.kind && before[at].id == event.id ==> after == before.remove(at)
            &&& !(event.action is Pressed && !down && place is Some) && !(event.action is Released
                && !held) ==> after.len() == before.len() && forall|i: int|
                0 <= i < before.len() ==> (#[trigger] after[i]).kind == before[i].kind
                    && after[i].id == before[i].id && (is_contact(before[i], event.kind, event.id)
                    || after[i] == before[i])
        }),
{
    let before = state.pointers;
    let held = event.kind == PointerKind::Mouse && state.buttons.bits != 0;
    lemma_contact_index_finds(before, event.kind, event.id);
    if event.action is Released && !held && 0 <= at < before.len() && before[at].kind == event.kind
        && before[at].id == event.id {
        let keep = |contact: PointerContact| !is_contact(contact, event.kind, event.id);
        assert forall|i: int| 0 <= i < before.len() && i != at implies keep(
            #[trigger] before[i],
        ) by {
            if i < at {
                assert(!is_contact(before[i], before[at].kind, before[at].id));
            } else {
                assert(!is_contact(before[at], before[i].kind, before[i].id));
            }
        }
        lemma_filter_removes_one(before, keep, at);
    }
}

/// Touches are listed in the order they went down: a new one joins at the end,
/// a move stays in its place, and one that ends or is cancelled leaves the
/// others as they stood.
pub proof fn law_touches_are_listed_as_they_went_down(
    state: InputModel,
    event: TouchEvent,
    at: int,
)
    requires
        state.wf(),
    ensures
        ({
            let before = state.touches;
            let after = state.pushed(InputEvent::Touch(event)).touches;
            let down = touch_position(before, event.id) is Some;
            let seen = event.phase is Started || event.phase is Moved;
            &&& seen && !down ==> after == before.push((event.id, event.position))
            &&& seen && 0 <= at < before.len() && before[at].0 == event.id ==> after
                == before.update(at, (event.id, event.position))
            &&& !seen && !down ==> after == before
            &&& !seen && 0 <= at < before.len() && before[at].0 == event.id ==> after
                == before.remove(at)
        }),
{
    let before = state.touches;
    lemma_touch_index_finds(before, event.id);
    let keep = |touch: (u64, Position)| !is_touch(touch, event.id);
    if 0 <= at < before.len() && before[at].0 == event.id {
        assert forall|i: int| 0 <= i < before.len() && i != at implies keep(
            #[trigger] before[i],
        ) by {
            if i < at {
                assert(!is_touch(before[i], before[at].0));
            } else {
                assert(!is_touch(before[at], before[i].0));
            }
        }
        lemma_filter_removes_one(before, keep, at);
        let found = touch_index(before, event.id) as int;
        if found != at {
            assert(is_touch(before[found], event.id));
        }
    } else if touch_position(before, event.id) is None {
        assert forall|i: int| 0 <= i < before.len() implies keep(#[trigger] before[i]) by {
            assert(!is_touch(before[i], event.id));
        }
        lemma_filter_keeps_all(before, keep);
    }
}

/// An event moves the state of its own device and nothing else: text moves
/// none, and no event moves the window's size or its pixel density.
pub proof fn law_an_event_moves_only_its_own_state(state: InputModel, event: InputEvent)
    ensures
        ({
            let after = state.pushed(event);
            &&& after.events == state.events.push(event)
            &&& after.size_px == state.size_px
            &&& after.scale_factor == state.scale_factor
            &&& event is Text || event is Ime ==> after == (InputModel {
                events: after.events,
                ..state
            })
            &&& !(event is Pointer) ==> after.pointers == state.pointers && after.pointer
                == state.pointer && after.pointer_down == state.pointer_down
            &&& !(event is Mouse) ==> after.cursor == state.cursor && after.buttons
                == state.buttons
            &&& !(event is Touch) ==> after.touches == state.touches
        }),
{
}

/// A state nothing happened to yet: no event, nothing held and nothing down, in
/// a window that has the focus and one physical pixel per point.
pub proof fn law_a_new_state_is_idle(kind: PointerKind, id: u64)
    ensures
        ({
            let state = InputModel::initial();
            &&& state.events.len() == 0
            &&& state.focused
            &&& !state.pointer_down
            &&& state.buttons.bits == 0
            &&& state.pointer is None && state.cursor is None
            &&& contact_position(state.pointers, kind, id) is None
            &&& touch_position(state.touches, id) is None
            &&& !(state.modifiers.alt || state.modifiers.ctrl || state.modifiers.shift
                || state.modifiers.mac_cmd || state.modifiers.command)
            &&& state.size_px == (0u32, 0u32)
            &&& state.scale_factor.0 == 0x3f80_0000
        }),
{
}

/// What an event leaves behind does not depend on the events listed before it.
proof fn lemma_earlier_events_are_not_read(
    state: InputModel,
    events: Seq<InputEvent>,
    event: InputEvent,
)
    ensures
        (InputModel { events, ..state }).pushed(event) == (InputModel {
            events: events.push(event),
            ..state.pushed(event)
        }),
{
    let other = InputModel { events, ..state };
    match event {
        InputEvent::Pointer(pointer) => {
            assert(other.after_pointer(pointer) == (InputModel {
                events,
                ..state.after_pointer(pointer)
            }));
        },
        InputEvent::Touch(touch) => {},
        _ => {},
    }
}

/// The two halves of a state have different lifetimes: dropping the events of a
/// frame leaves everything they left behind, so that the next frame goes on from
/// there as if they had never been dropped, and lists its own events only.
pub proof fn law_the_state_outlives_its_events(state: InputModel, events: Seq<InputEvent>)
    ensures
        state.cleared().events.len() == 0,
        state.cleared().pushed_all(events) == (InputModel {
            events,
            ..state.pushed_all(events)
        }),
    decreases events.len(),
{
    if events.len() == 0 {
        assert(events =~= Seq::empty());
    } else {
        let rest = events.drop_last();
        law_the_state_outlives_its_events(state, rest);
        lemma_earlier_events_are_not_read(state.pushed_all(rest), rest, events.last());
        assert(rest.push(events.last()) =~= events);
    }
}

/// Placing the pointer moves nothing else: no contact goes down or up.
pub proof fn law_placing_the_pointer_presses_nothing(
    state: InputModel,
    position: Option<Position>,
)
    ensures
        state.placed(position).pointer == position,
        state.placed(position).pointers == state.pointers,
        state.placed(position).pointer_down == state.pointer_down,
        state.placed(position).cursor == state.cursor,
        state.placed(position).events == state.events,
        state.placed(position).placed(state.pointer) == state,
{
}

} // verus!
