use libmarathon::platform::input::{
    is_active_phase,
    ActionKind,
    AnchorUpdate,
    DragSource,
    DragState,
    InputContext,
    InputController,
    InputSignal,
    KeyCode,
    Modifiers,
    MouseButton,
    PressedButtons,
    TouchPhase,
};

fn mouse(button: MouseButton, phase: TouchPhase, within_drag_threshold: bool) -> InputSignal {
    InputSignal::Mouse { button, phase, within_drag_threshold }
}

fn key(key: KeyCode) -> InputSignal {
    InputSignal::Keyboard { key, pressed: true, modifiers: Modifiers::default() }
}

fn stylus(phase: TouchPhase) -> InputSignal {
    InputSignal::Stylus { phase }
}

#[test]
fn test_mouse_right_drag_produces_rotate_entity() {
    let mut controller = InputController::new();
    controller.process_event(&mouse(MouseButton::Right, TouchPhase::Started, true), false, false);
    // (100, 100) to (120, 130): farther than the default threshold of 2
    let d = controller.process_event(&mouse(MouseButton::Right, TouchPhase::Moved, false), false, false);
    assert!(d.actions.iter().any(|a| matches!(a, ActionKind::RotateEntity { .. })));
}

#[test]
fn test_keyboard_r_resets_entity() {
    let mut controller = InputController::new();
    let d = controller.process_event(&key(KeyCode::KeyR), false, false);
    assert!(d.actions.contains(&ActionKind::ResetEntity));
}

#[test]
fn test_keyboard_delete_removes_entity() {
    let mut controller = InputController::new();
    let d = controller.process_event(&key(KeyCode::Delete), false, false);
    assert!(d.actions.contains(&ActionKind::DeleteEntity));
}

#[test]
fn test_drag_threshold_prevents_tiny_movements() {
    let mut controller = InputController::new();
    controller.process_event(&mouse(MouseButton::Left, TouchPhase::Started, true), false, false);
    // 2 pixels from the start, threshold 10
    let d = controller.process_event(&mouse(MouseButton::Left, TouchPhase::Moved, true), false, false);
    assert!(!d.actions.iter().any(|a| matches!(a, ActionKind::MoveEntity)));
    // 15 pixels from the start
    let d = controller.process_event(&mouse(MouseButton::Left, TouchPhase::Moved, false), false, false);
    assert!(d.actions.iter().any(|a| matches!(a, ActionKind::MoveEntity)));
}

#[test]
fn test_drag_sequence_produces_begin_continue_end() {
    let mut controller = InputController::new();
    let d = controller.process_event(&mouse(MouseButton::Left, TouchPhase::Started, true), false, false);
    assert!(d.actions.iter().any(|a| matches!(a, ActionKind::BeginDrag)));
    let d = controller.process_event(&mouse(MouseButton::Left, TouchPhase::Moved, false), false, false);
    assert!(d.actions.iter().any(|a| matches!(a, ActionKind::ContinueDrag)));
    let d = controller.process_event(&mouse(MouseButton::Left, TouchPhase::Ended, false), false, false);
    assert!(d.actions.iter().any(|a| matches!(a, ActionKind::EndDrag)));
}

#[test]
fn test_stylus_produces_move_entity() {
    let mut controller = InputController::new();
    controller.process_event(&stylus(TouchPhase::Started), false, false);
    let d = controller.process_event(&stylus(TouchPhase::Moved), false, false);
    assert!(d.actions.iter().any(|a| matches!(a, ActionKind::MoveEntity)));
}

#[test]
fn test_context_switching() {
    let mut controller = InputController::new();
    assert_eq!(controller.context(), InputContext::EntityManipulation);
    controller.set_context(InputContext::CameraControl);
    assert_eq!(controller.context(), InputContext::CameraControl);
    controller.process_event(&mouse(MouseButton::Left, TouchPhase::Started, true), false, false);
    let d = controller.process_event(&mouse(MouseButton::Left, TouchPhase::Moved, false), false, false);
    assert!(d.actions.iter().any(|a| matches!(a, ActionKind::MoveCamera)));
    assert!(!d.actions.iter().any(|a| matches!(a, ActionKind::MoveEntity)));
}

#[test]
fn mouse_left_drag_sequence_is_exact() {
    let mut controller = InputController::new();
    let d = controller.process_event(&mouse(MouseButton::Left, TouchPhase::Started, true), false, false);
    assert_eq!(d.actions, vec![ActionKind::SelectEntity, ActionKind::BeginDrag]);
    assert_eq!(d.anchor, AnchorUpdate::Restart);
    assert_eq!(
        controller.drag_state(),
        DragState { active: true, source: Some(DragSource::MouseLeft) }
    );
    let d = controller.process_event(&mouse(MouseButton::Left, TouchPhase::Moved, false), false, false);
    assert_eq!(d.actions, vec![ActionKind::ContinueDrag, ActionKind::MoveEntity]);
    assert_eq!(d.anchor, AnchorUpdate::Follow);
    let d = controller.process_event(&mouse(MouseButton::Left, TouchPhase::Cancelled, false), false, false);
    assert_eq!(d.actions, vec![ActionKind::EndDrag]);
    assert_eq!(controller.drag_state(), DragState { active: false, source: None });
}

#[test]
fn move_within_threshold_follows_anchor_without_actions() {
    let mut controller = InputController::new();
    controller.process_event(&mouse(MouseButton::Left, TouchPhase::Started, true), false, false);
    let d = controller.process_event(&mouse(MouseButton::Left, TouchPhase::Moved, true), false, false);
    assert!(d.actions.is_empty());
    assert_eq!(d.anchor, AnchorUpdate::Follow);
}

#[test]
fn move_without_drag_does_nothing() {
    let mut controller = InputController::new();
    let d = controller.process_event(&mouse(MouseButton::Left, TouchPhase::Moved, false), false, false);
    assert!(d.actions.is_empty());
    assert_eq!(d.anchor, AnchorUpdate::Keep);
    let d = controller.process_event(&mouse(MouseButton::Left, TouchPhase::Ended, false), false, false);
    assert!(d.actions.is_empty());
}

#[test]
fn middle_button_selects_and_starts_no_drag() {
    let mut controller = InputController::new();
    let d = controller.process_event(&mouse(MouseButton::Middle, TouchPhase::Started, true), false, false);
    assert_eq!(d.actions, vec![ActionKind::SelectEntity]);
    assert_eq!(d.anchor, AnchorUpdate::Keep);
    assert_eq!(controller.drag_state(), DragState { active: false, source: None });
    let d = controller.process_event(&mouse(MouseButton::Middle, TouchPhase::Moved, false), false, false);
    assert!(d.actions.is_empty());
}

#[test]
fn right_drag_and_rotation_gesture_carry_inversion() {
    let mut controller = InputController::new();
    controller.process_event(&mouse(MouseButton::Right, TouchPhase::Started, true), false, true);
    let d = controller.process_event(&mouse(MouseButton::Right, TouchPhase::Moved, false), false, true);
    assert_eq!(d.actions, vec![ActionKind::ContinueDrag, ActionKind::RotateEntity { inverted: true }]);
    let d = controller.process_event(&InputSignal::RotationGesture, false, false);
    assert_eq!(d.actions, vec![ActionKind::RotateEntity { inverted: false }]);
}

#[test]
fn wheel_and_pinch_move_in_depth() {
    let mut controller = InputController::new();
    let d = controller.process_event(&InputSignal::MouseWheel, false, false);
    assert_eq!(d.actions, vec![ActionKind::MoveEntityDepth]);
    let d = controller.process_event(&InputSignal::PinchGesture, false, false);
    assert_eq!(d.actions, vec![ActionKind::MoveEntityDepth]);
}

#[test]
fn gestures_follow_context() {
    let mut controller = InputController::new();
    let d = controller.process_event(&InputSignal::PanGesture, false, false);
    assert_eq!(d.actions, vec![ActionKind::MoveEntity]);
    let d = controller.process_event(&InputSignal::MouseMotion, false, false);
    assert!(d.actions.is_empty());
    controller.set_context(InputContext::CameraControl);
    let d = controller.process_event(&InputSignal::PanGesture, false, false);
    assert_eq!(d.actions, vec![ActionKind::MoveCamera]);
    let d = controller.process_event(&InputSignal::MouseMotion, false, false);
    assert_eq!(d.actions, vec![ActionKind::MoveCamera]);
    controller.set_context(InputContext::UI);
    let d = controller.process_event(&InputSignal::PanGesture, false, false);
    assert!(d.actions.is_empty());
    let d = controller.process_event(&InputSignal::DoubleTapGesture, false, false);
    assert_eq!(d.actions, vec![ActionKind::ResetEntity]);
    let d = controller.process_event(&InputSignal::MouseMove, false, false);
    assert!(d.actions.is_empty());
}

#[test]
fn keys_map_to_actions() {
    let mut controller = InputController::new();
    let cases = [
        (KeyCode::Backspace, vec![ActionKind::DeleteEntity]),
        (KeyCode::Escape, vec![ActionKind::Cancel]),
        (KeyCode::Enter, vec![ActionKind::Confirm]),
        (KeyCode::Tab, vec![ActionKind::ToggleUI]),
        (KeyCode::KeyZ, vec![]),
        (KeyCode::Other, vec![]),
    ];
    for (k, expected) in cases {
        assert_eq!(controller.process_event(&key(k), false, false).actions, expected);
    }
    assert_eq!(controller.process_event(&key(KeyCode::KeyZ), true, false).actions, vec![ActionKind::Undo]);
    let released = InputSignal::Keyboard { key: KeyCode::KeyR, pressed: false, modifiers: Modifiers::default() };
    assert!(controller.process_event(&released, false, false).actions.is_empty());
}

#[test]
fn touch_drags_like_stylus() {
    let mut controller = InputController::new();
    let d = controller.process_event(&InputSignal::Touch { phase: TouchPhase::Started }, false, false);
    assert_eq!(d.actions, vec![ActionKind::SelectEntity, ActionKind::BeginDrag]);
    assert_eq!(controller.drag_state(), DragState { active: true, source: Some(DragSource::Stylus) });
    let d = controller.process_event(&InputSignal::Touch { phase: TouchPhase::Ended }, false, false);
    assert_eq!(d.actions, vec![ActionKind::EndDrag]);
}

#[test]
fn phases_under_way() {
    assert!(is_active_phase(Some(TouchPhase::Started)));
    assert!(is_active_phase(Some(TouchPhase::Moved)));
    assert!(!is_active_phase(Some(TouchPhase::Ended)));
    assert!(!is_active_phase(Some(TouchPhase::Cancelled)));
    assert!(is_active_phase(None));
}

#[test]
fn default_modifiers_are_released() {
    let m = Modifiers::default();
    assert!(!m.shift && !m.ctrl && !m.alt && !m.meta);
}

#[test]
fn cursor_drags_with_highest_priority_button() {
    let mut b = PressedButtons::new();
    assert_eq!(b.drag_button(), None);
    b.set(MouseButton::Middle, true);
    assert_eq!(b.drag_button(), Some(MouseButton::Middle));
    b.set(MouseButton::Right, true);
    assert_eq!(b.drag_button(), Some(MouseButton::Right));
    b.set(MouseButton::Left, true);
    assert_eq!(b.drag_button(), Some(MouseButton::Left));
    b.set(MouseButton::Left, false);
    assert_eq!(b.drag_button(), Some(MouseButton::Right));
    assert_eq!(b, PressedButtons { left: false, right: true, middle: true });
}
