//! Input events and the controller that turns them into editor actions.
//!
//! Positions, deltas and sensitivities are floating-point values; they stay
//! with the caller. What the controller decides does not depend on them: which
//! actions an event produces, how the drag state moves, and when the drag
//! anchor moves. The one decision that reads positions, whether a mouse drag
//! has left its dead zone, reaches the controller as a flag of the event.

use vstd::prelude::*;

verus! {

/// Phase of a touch, stylus or mouse input.
#[derive(Clone, Copy, PartialEq, Eq, Structural, Debug)]
pub enum TouchPhase {
    /// The input just started.
    Started,
    /// The input moved.
    Moved,
    /// The input ended normally.
    Ended,
    /// The input was cancelled (by a system gesture, say).
    Cancelled,
}

/// Mouse buttons.
#[derive(Clone, Copy, PartialEq, Eq, Structural, Debug, Hash)]
pub enum MouseButton {
    Left,
    Right,
    Middle,
}

/// The keys that the controller tells apart; every other key is `Other`.
#[derive(Clone, Copy, PartialEq, Eq, Structural, Debug, Hash)]
pub enum KeyCode {
    KeyR,
    KeyZ,
    Delete,
    Backspace,
    Escape,
    Enter,
    Tab,
    Other,
}

/// Keyboard modifiers held during a key event.
#[derive(Clone, Copy, PartialEq, Eq, Structural, Debug)]
pub struct Modifiers {
    pub shift: bool,
    pub ctrl: bool,
    pub alt: bool,
    /// Command on macOS, the Windows key on Windows.
    pub meta: bool,
}

impl Default for Modifiers {
    /// No modifier held.
    fn default() -> (m: Self)
        ensures
            m == (Modifiers { shift: false, ctrl: false, alt: false, meta: false }),
    {
        Modifiers { shift: false, ctrl: false, alt: false, meta: false }
    }
}

/// What triggers a binding.
#[derive(Clone, Copy, PartialEq, Eq, Structural, Debug, Hash)]
pub enum InputBinding {
    /// Mouse button press or release.
    MouseButton(MouseButton),
    /// Mouse drag with a given button.
    MouseDrag(MouseButton),
    /// Mouse wheel scroll.
    MouseWheel,
    /// Key press.
    Key(KeyCode),
    /// Key press with modifiers.
    KeyWithModifiers { key: KeyCode, shift: bool, ctrl: bool, alt: bool, meta: bool },
    /// Stylus input (Apple Pencil and the like).
    StylusDrag,
    /// Touch input.
    TouchDrag,
}

/// The mode that decides what drags and gestures mean.
#[derive(Clone, Copy, PartialEq, Eq, Structural, Debug, Hash)]
pub enum InputContext {
    /// Manipulating entities.
    EntityManipulation,
    /// Moving the camera.
    CameraControl,
    /// Interacting with the user interface.
    UI,
    /// Typing text.
    TextInput,
}

/// An input event, without its positions and amounts.
#[derive(Clone, Copy, PartialEq, Eq, Structural, Debug)]
pub enum InputSignal {
    /// Stylus input.
    Stylus { phase: TouchPhase },
    /// Mouse button input. `within_drag_threshold` holds when the pointer is
    /// closer to where the drag started than the drag threshold.
    Mouse { button: MouseButton, phase: TouchPhase, within_drag_threshold: bool },
    /// Cursor movement with no button pressed.
    MouseMove,
    /// Touch input.
    Touch { phase: TouchPhase },
    /// Key press or release.
    Keyboard { key: KeyCode, pressed: bool, modifiers: Modifiers },
    /// Mouse wheel scroll.
    MouseWheel,
    /// Raw mouse motion.
    MouseMotion,
    /// Pinch gesture.
    PinchGesture,
    /// Two-finger rotation gesture.
    RotationGesture,
    /// Two-finger pan gesture.
    PanGesture,
    /// Double-tap gesture.
    DoubleTapGesture,
}

/// An editor action, without its positions and amounts.
#[derive(Clone, Copy, PartialEq, Eq, Structural, Debug)]
pub enum ActionKind {
    /// Move the entity in its plane by the event's delta.
    MoveEntity,
    /// Rotate the entity; `inverted` tells whether the accessibility setting
    /// inverts the rotation axis.
    RotateEntity { inverted: bool },
    /// Move the entity in depth.
    MoveEntityDepth,
    /// Select the entity at the event's position.
    SelectEntity,
    /// Begin a drag at the event's position.
    BeginDrag,
    /// Continue the drag.
    ContinueDrag,
    /// End the drag at the event's position.
    EndDrag,
    /// Reset the entity.
    ResetEntity,
    /// Delete the selected entity.
    DeleteEntity,
    /// Move the camera.
    MoveCamera,
    /// Show or hide the user interface.
    ToggleUI,
    /// Confirm.
    Confirm,
    /// Cancel.
    Cancel,
    /// Undo.
    Undo,
}

/// What starts a drag.
#[derive(Clone, Copy, PartialEq, Eq, Structural, Debug)]
pub enum DragSource {
    MouseLeft,
    MouseRight,
    Stylus,
}

/// Whether a drag is under way, and what started it.
#[derive(Clone, Copy, PartialEq, Eq, Structural, Debug)]
pub struct DragState {
    pub active: bool,
    pub source: Option<DragSource>,
}

/// What the caller does with the drag anchor, the positions where the drag
/// started and where it was last seen.
#[derive(Clone, Copy, PartialEq, Eq, Structural, Debug)]
pub enum AnchorUpdate {
    /// Leave both positions.
    Keep,
    /// Set both positions to the event's position.
    Restart,
    /// Set the last position to the event's position.
    Follow,
}

/// The controller's answer to one event.
#[derive(Clone, PartialEq, Eq, Debug)]
pub struct InputDecision {
    /// The actions, in order.
    pub actions: Vec<ActionKind>,
    /// What happens to the drag anchor.
    pub anchor: AnchorUpdate,
}

/// The state of the controller: its context and its drag.
pub struct ControllerState {
    pub context: InputContext,
    pub drag: DragState,
}

/// No drag under way.
pub open spec fn idle_drag() -> DragState {
    DragState { active: false, source: None }
}

/// The action a pressed key asks for: `R` resets, `Delete` and `Backspace`
/// delete, `Z` undoes in one-handed mode, `Escape` cancels, `Enter` confirms
/// and `Tab` toggles the user interface.
pub open spec fn key_action(key: KeyCode, one_handed_mode: bool) -> Option<ActionKind> {
    match key {
        KeyCode::KeyR => Some(ActionKind::ResetEntity),
        KeyCode::Delete | KeyCode::Backspace => Some(ActionKind::DeleteEntity),
        KeyCode::KeyZ => if one_handed_mode {
            Some(ActionKind::Undo)
        } else {
            None
        },
        KeyCode::Escape => Some(ActionKind::Cancel),
        KeyCode::Enter => Some(ActionKind::Confirm),
        KeyCode::Tab => Some(ActionKind::ToggleUI),
        KeyCode::Other => None,
    }
}

/// What a drag means in a context once it has left its dead zone: in entity
/// manipulation the left button moves and the right button rotates the entity;
/// in camera control any drag moves the camera.
pub open spec fn mouse_drag_actions(
    context: InputContext,
    source: Option<DragSource>,
    invert_y: bool,
) -> Seq<ActionKind> {
    match context {
        InputContext::EntityManipulation => match source {
            Some(DragSource::MouseLeft) => seq![ActionKind::MoveEntity],
            Some(DragSource::MouseRight) => seq![ActionKind::RotateEntity { inverted: invert_y }],
            _ => Seq::empty(),
        },
        InputContext::CameraControl => seq![ActionKind::MoveCamera],
        _ => Seq::empty(),
    }
}

/// The end of a drag: an `EndDrag` and an idle drag state when a drag was
/// under way, nothing otherwise.
pub open spec fn end_drag(s: ControllerState) -> (ControllerState, Seq<ActionKind>, AnchorUpdate) {
    if s.drag.active {
        (
            ControllerState { context: s.context, drag: idle_drag() },
            seq![ActionKind::EndDrag],
            AnchorUpdate::Keep,
        )
    } else {
        (s, Seq::empty(), AnchorUpdate::Keep)
    }
}

/// Mouse button input. A press of the left or right button selects, begins a
/// drag from that button and restarts the anchor; the middle button is not
/// handled beyond the selection: it leaves the drag and the anchor as they
/// were. A move during a drag follows the anchor and, once out of the
/// dead zone, continues the drag with the context's meaning.
pub open spec fn mouse_step(
    s: ControllerState,
    button: MouseButton,
    phase: TouchPhase,
    within_drag_threshold: bool,
    invert_y: bool,
) -> (ControllerState, Seq<ActionKind>, AnchorUpdate) {
    match phase {
        TouchPhase::Started => match button {
            MouseButton::Middle => (s, seq![ActionKind::SelectEntity], AnchorUpdate::Keep),
            _ => (
                ControllerState {
                    context: s.context,
                    drag: DragState {
                        active: true,
                        source: Some(
                            if button == MouseButton::Left {
                                DragSource::MouseLeft
                            } else {
                                DragSource::MouseRight
                            },
                        ),
                    },
                },
                seq![ActionKind::SelectEntity, ActionKind::BeginDrag],
                AnchorUpdate::Restart,
            ),
        },
        TouchPhase::Moved => if !s.drag.active {
            (s, Seq::empty(), AnchorUpdate::Keep)
        } else if within_drag_threshold {
            (s, Seq::empty(), AnchorUpdate::Follow)
        } else {
            (
                s,
                seq![ActionKind::ContinueDrag] + mouse_drag_actions(
                    s.context,
                    s.drag.source,
                    invert_y,
                ),
                AnchorUpdate::Follow,
            )
        },
        TouchPhase::Ended | TouchPhase::Cancelled => end_drag(s),
    }
}

/// Stylus and touch input: a press selects and begins a stylus drag, a move
/// during a drag continues it and moves the entity.
pub open spec fn stylus_step(s: ControllerState, phase: TouchPhase) -> (
    ControllerState,
    Seq<ActionKind>,
    AnchorUpdate,
) {
    match phase {
        TouchPhase::Started => (
            ControllerState {
                context: s.context,
                drag: DragState { active: true, source: Some(DragSource::Stylus) },
            },
            seq![ActionKind::SelectEntity, ActionKind::BeginDrag],
            AnchorUpdate::Restart,
        ),
        TouchPhase::Moved => if s.drag.active {
            (s, seq![ActionKind::ContinueDrag, ActionKind::MoveEntity], AnchorUpdate::Follow)
        } else {
            (s, Seq::empty(), AnchorUpdate::Keep)
        },
        TouchPhase::Ended | TouchPhase::Cancelled => end_drag(s),
    }
}

/// One event: the next state, the actions in order, and what happens to the
/// drag anchor.
pub open spec fn input_step(
    s: ControllerState,
    signal: InputSignal,
    one_handed_mode: bool,
    invert_y: bool,
) -> (ControllerState, Seq<ActionKind>, AnchorUpdate) {
    match signal {
        InputSignal::Mouse { button, phase, within_drag_threshold } => mouse_step(
            s,
            button,
            phase,
            within_drag_threshold,
            invert_y,
        ),
        InputSignal::Stylus { phase } | InputSignal::Touch { phase } => stylus_step(s, phase),
        InputSignal::Keyboard { key, pressed, .. } => (
            s,
            if pressed && key_action(key, one_handed_mode) is Some {
                seq![key_action(key, one_handed_mode)->0]
            } else {
                Seq::empty()
            },
            AnchorUpdate::Keep,
        ),
        InputSignal::MouseWheel | InputSignal::PinchGesture => (
            s,
            seq![ActionKind::MoveEntityDepth],
            AnchorUpdate::Keep,
        ),
        InputSignal::RotationGesture => (
            s,
            seq![ActionKind::RotateEntity { inverted: invert_y }],
            AnchorUpdate::Keep,
        ),
        InputSignal::PanGesture => (
            s,
            match s.context {
                InputContext::CameraControl => seq![ActionKind::MoveCamera],
                InputContext::EntityManipulation => seq![ActionKind::MoveEntity],
                _ => Seq::empty(),
            },
            AnchorUpdate::Keep,
        ),
        InputSignal::DoubleTapGesture => (s, seq![ActionKind::ResetEntity], AnchorUpdate::Keep),
        InputSignal::MouseMotion => (
            s,
            if s.context == InputContext::CameraControl {
                seq![ActionKind::MoveCamera]
            } else {
                Seq::empty()
            },
            AnchorUpdate::Keep,
        ),
        InputSignal::MouseMove => (s, Seq::empty(), AnchorUpdate::Keep),
    }
}

/// No event changes the context: only `set_context` does.
pub proof fn lemma_events_keep_context(
    s: ControllerState,
    signal: InputSignal,
    one_handed_mode: bool,
    invert_y: bool,
)
    ensures
        input_step(s, signal, one_handed_mode, invert_y).0.context == s.context,
{
}

/// Releasing a mouse button, the stylus or a finger always leaves no drag
/// under way, and produces an `EndDrag` exactly when a drag was under way.
pub proof fn lemma_release_ends_drag(
    s: ControllerState,
    signal: InputSignal,
    one_handed_mode: bool,
    invert_y: bool,
)
    requires
        signal matches InputSignal::Mouse { phase, .. } ==> (phase == TouchPhase::Ended || phase
            == TouchPhase::Cancelled),
        signal matches InputSignal::Stylus { phase } ==> (phase == TouchPhase::Ended || phase
            == TouchPhase::Cancelled),
        signal matches InputSignal::Touch { phase } ==> (phase == TouchPhase::Ended || phase
            == TouchPhase::Cancelled),
        signal is Mouse || signal is Stylus || signal is Touch,
    ensures
        !input_step(s, signal, one_handed_mode, invert_y).0.drag.active,
        input_step(s, signal, one_handed_mode, invert_y).1 == (if s.drag.active {
            seq![ActionKind::EndDrag]
        } else {
            Seq::empty()
        }),
{
}

/// A press of the left or right mouse button, the stylus or a finger starts a
/// drag that the matching release ends.
pub proof fn lemma_press_then_release(
    s: ControllerState,
    press: InputSignal,
    release: InputSignal,
    one_handed_mode: bool,
    invert_y: bool,
)
    requires
        press == (InputSignal::Stylus { phase: TouchPhase::Started }) || press
            == (InputSignal::Touch { phase: TouchPhase::Started }) || (press matches InputSignal::Mouse {
            button,
            phase: TouchPhase::Started,
            ..
        } && button != MouseButton::Middle),
        release matches InputSignal::Mouse { phase: TouchPhase::Ended, .. } || release
            == (InputSignal::Stylus { phase: TouchPhase::Ended }) || release
            == (InputSignal::Touch { phase: TouchPhase::Ended }),
    ensures
        input_step(s, press, one_handed_mode, invert_y).0.drag.active,
        input_step(s, press, one_handed_mode, invert_y).1 == seq![
            ActionKind::SelectEntity,
            ActionKind::BeginDrag,
        ],
        input_step(
            input_step(s, press, one_handed_mode, invert_y).0,
            release,
            one_handed_mode,
            invert_y,
        ).1 == seq![ActionKind::EndDrag],
        input_step(
            input_step(s, press, one_handed_mode, invert_y).0,
            release,
            one_handed_mode,
            invert_y,
        ).0 == (ControllerState { context: s.context, drag: idle_drag() }),
{
}

/// Whether an input with this phase is still under way: ended and cancelled
/// inputs are not; inputs without a phase (gestures, keys, the wheel) are
/// instantaneous and count as under way.
pub fn is_active_phase(phase: Option<TouchPhase>) -> (r: bool)
    ensures
        r == !(phase == Some(TouchPhase::Ended) || phase == Some(TouchPhase::Cancelled)),
{
    match phase {
        Some(TouchPhase::Ended) | Some(TouchPhase::Cancelled) => false,
        _ => true,
    }
}

/// The action a pressed key asks for.
pub fn action_for_key(key: KeyCode, one_handed_mode: bool) -> (r: Option<ActionKind>)
    ensures
        r == key_action(key, one_handed_mode),
{
    match key {
        KeyCode::KeyR => Some(ActionKind::ResetEntity),
        KeyCode::Delete | KeyCode::Backspace => Some(ActionKind::DeleteEntity),
        KeyCode::KeyZ => if one_handed_mode {
            Some(ActionKind::Undo)
        } else {
            None
        },
        KeyCode::Escape => Some(ActionKind::Cancel),
        KeyCode::Enter => Some(ActionKind::Confirm),
        KeyCode::Tab => Some(ActionKind::ToggleUI),
        KeyCode::Other => None,
    }
}

/// Which mouse buttons are held, as the window's button events report them.
#[derive(Clone, Copy, PartialEq, Eq, Structural, Debug)]
pub struct PressedButtons {
    pub left: bool,
    pub right: bool,
    pub middle: bool,
}

impl PressedButtons {
    /// No button held.
    pub fn new() -> (b: Self)
        ensures
            b == (PressedButtons { left: false, right: false, middle: false }),
    {
        PressedButtons { left: false, right: false, middle: false }
    }

    /// Record a press or release of a button.
    pub fn set(&mut self, button: MouseButton, pressed: bool)
        ensures
            *final(self) == (match button {
                MouseButton::Left => PressedButtons { left: pressed, ..*old(self) },
                MouseButton::Right => PressedButtons { right: pressed, ..*old(self) },
                MouseButton::Middle => PressedButtons { middle: pressed, ..*old(self) },
            }),
    {
        match button {
            MouseButton::Left => self.left = pressed,
            MouseButton::Right => self.right = pressed,
            MouseButton::Middle => self.middle = pressed,
        }
    }

    /// The button a cursor movement drags with: the left button before the
    /// right one before the middle one; none when no button is held (the
    /// cursor only hovers).
    pub fn drag_button(&self) -> (r: Option<MouseButton>)
        ensures
            r == (if self.left {
                Some(MouseButton::Left)
            } else if self.right {
                Some(MouseButton::Right)
            } else if self.middle {
                Some(MouseButton::Middle)
            } else {
                None
            }),
    {
        if self.left {
            Some(MouseButton::Left)
        } else if self.right {
            Some(MouseButton::Right)
        } else if self.middle {
            Some(MouseButton::Middle)
        } else {
            None
        }
    }
}

/// Turns input events into editor actions, keeping the input context and the
/// state of the current drag.
#[derive(Debug)]
pub struct InputController {
    current_context: InputContext,
    drag: DragState,
}

impl View for InputController {
    type V = ControllerState;

    closed spec fn view(&self) -> ControllerState {
        ControllerState { context: self.current_context, drag: self.drag }
    }
}

impl InputController {
    /// A controller in entity manipulation, with no drag under way.
    pub fn new() -> (c: Self)
        ensures
            c@ == (ControllerState { context: InputContext::EntityManipulation, drag: idle_drag() }),
    {
        InputController {
            current_context: InputContext::EntityManipulation,
            drag: DragState { active: false, source: None },
        }
    }

    /// Switch to another context; the drag is left as it is.
    pub fn set_context(&mut self, context: InputContext)
        ensures
            final(self)@ == (ControllerState { context, drag: old(self)@.drag }),
    {
        self.current_context = context;
    }

    /// The current context.
    pub fn context(&self) -> (c: InputContext)
        ensures
            c == self@.context,
    {
        self.current_context
    }

    /// The state of the current drag.
    pub fn drag_state(&self) -> (d: DragState)
        ensures
            d == self@.drag,
    {
        self.drag
    }

    fn end_drag(&mut self, actions: &mut Vec<ActionKind>) -> (anchor: AnchorUpdate)
        requires
            old(actions)@.len() == 0,
        ensures
            (final(self)@, final(actions)@, anchor) == end_drag(old(self)@),
    {
        if self.drag.active {
            actions.push(ActionKind::EndDrag);
            self.drag = DragState { active: false, source: None };
        }
        AnchorUpdate::Keep
    }

    fn process_mouse(
        &mut self,
        button: MouseButton,
        phase: TouchPhase,
        within_drag_threshold: bool,
        invert_y: bool,
        actions: &mut Vec<ActionKind>,
    ) -> (anchor: AnchorUpdate)
        requires
            old(actions)@.len() == 0,
        ensures
            (final(self)@, final(actions)@, anchor) == mouse_step(
                old(self)@,
                button,
                phase,
                within_drag_threshold,
                invert_y,
            ),
    {
        match phase {
            TouchPhase::Started => {
                actions.push(ActionKind::SelectEntity);
                let source = match button {
                    MouseButton::Left => DragSource::MouseLeft,
                    MouseButton::Right => DragSource::MouseRight,
                    MouseButton::Middle => return AnchorUpdate::Keep,
                };
                self.drag.active = true;
                self.drag.source = Some(source);
                actions.push(ActionKind::BeginDrag);
                AnchorUpdate::Restart
            },
            TouchPhase::Moved => {
                if !self.drag.active {
                    return AnchorUpdate::Keep;
                }
                if within_drag_threshold {
                    return AnchorUpdate::Follow;
                }
                actions.push(ActionKind::ContinueDrag);
                match self.current_context {
                    InputContext::EntityManipulation => match self.drag.source {
                        Some(DragSource::MouseLeft) => actions.push(ActionKind::MoveEntity),
                        Some(DragSource::MouseRight) => actions.push(
                            ActionKind::RotateEntity { inverted: invert_y },
                        ),
                        _ => {},
                    },
                    InputContext::CameraControl => actions.push(ActionKind::MoveCamera),
                    _ => {},
                }
                AnchorUpdate::Follow
            },
            TouchPhase::Ended | TouchPhase::Cancelled => self.end_drag(actions),
        }
    }

    fn process_stylus(&mut self, phase: TouchPhase, actions: &mut Vec<ActionKind>) -> (anchor:
        AnchorUpdate)
        requires
            old(actions)@.len() == 0,
        ensures
            (final(self)@, final(actions)@, anchor) == stylus_step(old(self)@, phase),
    {
        match phase {
            TouchPhase::Started => {
                actions.push(ActionKind::SelectEntity);
                actions.push(ActionKind::BeginDrag);
                self.drag = DragState { active: true, source: Some(DragSource::Stylus) };
                AnchorUpdate::Restart
            },
            TouchPhase::Moved => {
                if self.drag.active {
                    actions.push(ActionKind::ContinueDrag);
                    actions.push(ActionKind::MoveEntity);
                    AnchorUpdate::Follow
                } else {
                    AnchorUpdate::Keep
                }
            },
            TouchPhase::Ended | TouchPhase::Cancelled => self.end_drag(actions),
        }
    }

    /// Process one event: the actions it produces, in order, and what happens
    /// to the drag anchor. `one_handed_mode` lets `Z` undo; `invert_y` marks
    /// rotations as inverted.
    pub fn process_event(&mut self, signal: &InputSignal, one_handed_mode: bool, invert_y: bool) -> (d:
        InputDecision)
        ensures
            (final(self)@, d.actions@, d.anchor) == input_step(
                old(self)@,
                *signal,
                one_handed_mode,
                invert_y,
            ),
    {
        let mut actions: Vec<ActionKind> = Vec::new();
        let anchor = match *signal {
            InputSignal::Mouse { button, phase, within_drag_threshold } => self.process_mouse(
                button,
                phase,
                within_drag_threshold,
                invert_y,
                &mut actions,
            ),
            InputSignal::Stylus { phase } | InputSignal::Touch { phase } => self.process_stylus(
                phase,
                &mut actions,
            ),
            InputSignal::Keyboard { key, pressed, .. } => {
                if pressed {
                    if let Some(action) = action_for_key(key, one_handed_mode) {
                        actions.push(action);
                    }
                }
                AnchorUpdate::Keep
            },
            InputSignal::MouseWheel | InputSignal::PinchGesture => {
                actions.push(ActionKind::MoveEntityDepth);
                AnchorUpdate::Keep
            },
            InputSignal::RotationGesture => {
                actions.push(ActionKind::RotateEntity { inverted: invert_y });
                AnchorUpdate::Keep
            },
            InputSignal::PanGesture => {
                match self.current_context {
                    InputContext::CameraControl => actions.push(ActionKind::MoveCamera),
                    InputContext::EntityManipulation => actions.push(ActionKind::MoveEntity),
                    _ => {},
                }
                AnchorUpdate::Keep
            },
            InputSignal::DoubleTapGesture => {
                actions.push(ActionKind::ResetEntity);
                AnchorUpdate::Keep
            },
            InputSignal::MouseMotion => {
                if self.current_context == InputContext::CameraControl {
                    actions.push(ActionKind::MoveCamera);
                }
                AnchorUpdate::Keep
            },
            InputSignal::MouseMove => AnchorUpdate::Keep,
        };
        InputDecision { actions, anchor }
    }
}

impl Default for InputController {
    /// Same as `new`.
    fn default() -> (c: Self)
        ensures
            c@ == (ControllerState { context: InputContext::EntityManipulation, drag: idle_drag() }),
    {
        Self::new()
    }
}

} // verus!
