use mirror_windows::game_input_dispatcher::{
    FocusStep, GameInputDispatcher, GameInputError, GestureAction, MouseInput, MOUSEEVENTF_LEFTDOWN,
    MOUSEEVENTF_LEFTUP, MOUSEEVENTF_RIGHTDOWN,
};
use mirror_windows::platform::windows::sync_runtime::{
    WM_LBUTTONDOWN, WM_LBUTTONUP, WM_MOUSEHWHEEL, WM_MOUSEMOVE, WM_MOUSEWHEEL, WM_RBUTTONDOWN,
};

#[test]
fn screen_points_map_onto_the_absolute_virtual_screen() {
    assert_eq!(GameInputDispatcher::screen_to_absolute(960, 540, 0, 0, 1920, 1080), Ok((32768, 32768)));
    assert_eq!(GameInputDispatcher::screen_to_absolute(0, 0, 0, 0, 1920, 1080), Ok((0, 0)));
    // a second monitor left of the first: rounding goes toward zero
    assert_eq!(GameInputDispatcher::screen_to_absolute(-10, 7, 0, 0, 1920, 1080), Ok((-341, 424)));
    assert_eq!(GameInputDispatcher::screen_to_absolute(100, 100, -1920, 0, 3840, 1080), Ok((34474, 6068)));
}

#[test]
fn an_empty_virtual_screen_is_an_error() {
    let e = GameInputDispatcher::screen_to_absolute(1, 1, 0, 0, 0, 1080).unwrap_err();
    assert_eq!(e, GameInputError::InvalidVirtualScreen);
    assert_eq!(e.message(), "Invalid virtual screen dimensions");
    assert_eq!(GameInputDispatcher::screen_to_absolute(1, 1, 0, 0, 1920, 0), Err(GameInputError::InvalidVirtualScreen));
}

#[test]
fn a_press_is_a_move_then_a_button_input() {
    let inputs = GameInputDispatcher::mouse_inputs(WM_LBUTTONDOWN, 0, 100, 200);
    assert_eq!(
        inputs,
        vec![
            MouseInput { dx: 100, dy: 200, mouse_data: 0, flags: 0xC001 },
            MouseInput { dx: 100, dy: 200, mouse_data: 0, flags: 0xC002 },
        ]
    );
    assert_eq!(GameInputDispatcher::mouse_inputs(WM_MOUSEMOVE, 0, 1, 2), vec![MouseInput { dx: 1, dy: 2, mouse_data: 0, flags: 0xC001 }]);
}

#[test]
fn wheel_inputs_carry_the_signed_delta() {
    // a turn toward the user: delta -120 in the high word
    let inputs = GameInputDispatcher::mouse_inputs(WM_MOUSEWHEEL, 0xFF88_0000, 5, 6);
    assert_eq!(inputs[1], MouseInput { dx: 5, dy: 6, mouse_data: 0xFFFF_FF88, flags: 0xC800 });
    let inputs = GameInputDispatcher::mouse_inputs(WM_MOUSEHWHEEL, 0x0078_0000, 5, 6);
    assert_eq!(inputs[1], MouseInput { dx: 5, dy: 6, mouse_data: 120, flags: 0xD000 });
}

#[test]
fn presses_are_held_and_other_messages_do_not_wait() {
    assert_eq!(GameInputDispatcher::pause_after_message(WM_LBUTTONDOWN, true), 52);
    assert_eq!(GameInputDispatcher::pause_after_message(WM_RBUTTONDOWN, false), 28);
    assert_eq!(GameInputDispatcher::pause_after_message(WM_LBUTTONUP, true), 0);
    assert_eq!(GameInputDispatcher::click_hold_ms(false), 28);
    assert_eq!(GameInputDispatcher::focus_settle_ms(true), 120);
    assert_eq!(GameInputDispatcher::focus_settle_ms(false), 65);
}

#[test]
fn focusing_is_tried_twice() {
    assert_eq!(GameInputDispatcher::after_focus_attempt(0, true), FocusStep::Focused);
    assert_eq!(GameInputDispatcher::after_focus_attempt(0, false), FocusStep::Retry(24));
    assert_eq!(GameInputDispatcher::after_focus_attempt(1, false), FocusStep::Failed);
    assert_eq!(GameInputError::FocusFailed.message(), "Failed to focus target window before SendInput replay");
}

#[test]
fn button_messages_map_to_input_flags() {
    assert_eq!(GameInputDispatcher::button_flag(WM_LBUTTONDOWN), Ok(MOUSEEVENTF_LEFTDOWN));
    assert_eq!(GameInputDispatcher::button_flag(WM_LBUTTONUP), Ok(MOUSEEVENTF_LEFTUP));
    assert_eq!(GameInputDispatcher::button_flag(WM_RBUTTONDOWN), Ok(MOUSEEVENTF_RIGHTDOWN));
    let e = GameInputDispatcher::button_flag(WM_MOUSEMOVE).unwrap_err();
    assert_eq!(e, GameInputError::UnsupportedButton(512));
    assert_eq!(e.message(), "Unsupported button message for gesture replay: 512");
}

#[test]
fn a_partial_send_is_an_error() {
    assert_eq!(GameInputDispatcher::check_sent(2, 2), Ok(()));
    let e = GameInputDispatcher::check_sent(1, 2).unwrap_err();
    assert_eq!(e.message(), "Failed to send all input events: sent 1/2");
    assert_eq!(GameInputError::ClientToScreen.message(), "Failed to convert client to screen coordinates");
}

#[test]
fn a_gesture_is_replayed_with_timed_moves() {
    let actions = GameInputDispatcher::gesture_actions(3, WM_LBUTTONDOWN, WM_LBUTTONUP, true);
    assert_eq!(
        actions,
        vec![
            GestureAction::Focus,
            GestureAction::MoveTo(0),
            GestureAction::Pause(22),
            GestureAction::Button(MOUSEEVENTF_LEFTDOWN, 0),
            GestureAction::Pause(52),
            GestureAction::MoveTo(1),
            GestureAction::Pause(22),
            GestureAction::MoveTo(2),
            GestureAction::Pause(22),
            GestureAction::Button(MOUSEEVENTF_LEFTUP, 2),
            GestureAction::Pause(36),
        ]
    );
    let one = GameInputDispatcher::gesture_actions(1, WM_LBUTTONDOWN, WM_LBUTTONUP, false);
    assert_eq!(one.len(), 9);
    assert_eq!(one[4], GestureAction::Pause(28));
    assert_eq!(one[5], GestureAction::MoveTo(0));
    assert_eq!(one[7], GestureAction::Button(MOUSEEVENTF_LEFTUP, 0));
}

#[test]
fn a_gesture_fails_without_points_or_with_a_non_button_message() {
    assert_eq!(
        GameInputDispatcher::gesture_actions(0, WM_LBUTTONDOWN, WM_LBUTTONUP, true),
        vec![GestureAction::Fail(GameInputError::NoGesturePoints)]
    );
    assert_eq!(GameInputError::NoGesturePoints.message(), "Buffered gesture had no points");
    assert_eq!(
        GameInputDispatcher::gesture_actions(2, WM_MOUSEMOVE, WM_LBUTTONUP, true),
        vec![
            GestureAction::Focus,
            GestureAction::MoveTo(0),
            GestureAction::Pause(22),
            GestureAction::Fail(GameInputError::UnsupportedButton(WM_MOUSEMOVE)),
        ]
    );
    let late = GameInputDispatcher::gesture_actions(2, WM_LBUTTONDOWN, WM_MOUSEMOVE, true);
    assert_eq!(late.last(), Some(&GestureAction::Fail(GameInputError::UnsupportedButton(WM_MOUSEMOVE))));
    assert_eq!(late[late.len() - 2], GestureAction::Pause(22));
}
