use std::collections::HashSet;
use mirror_windows::models::{DispatchMode, LayoutMode, LogLevel};
use mirror_windows::platform::windows::log_throttle::LogThrottle;
use mirror_windows::platform::windows::runtime_report::{
    apply_dispatch_outcome, dispatch_mode_message, emergency_stop_reason, log_click_trace, log_primary_invalid,
    log_replay, log_summary_if_needed, log_target_removed, mouse_message_name, session_targets_message,
    sync_loop_error_message, trip_circuit_breaker, watchdog_reason, finish_replay, DispatchOutcome, DispatchSummary,
};
use mirror_windows::platform::windows::sync_runtime::{
    button_up_message_for, current_mouse_modifier_state, downsample_indices, emergency_stop_requested,
    focus_settle_ms, gesture_replay_steps, handle_mouse, hiword, pack_point, plan_window_message,
    should_mirror_wheel, should_process_mouse_message, should_treat_as_click_hold, stop_input_sync,
    watchdog_tripped, DeliveryFailure, MouseHookAction, MouseHookContext, MouseHookEvent, Point, PointerState,
    ReplayStep, RunningSync, WM_KEYDOWN, WM_LBUTTONDOWN, WM_LBUTTONUP, WM_MOUSEHWHEEL, WM_MOUSEMOVE,
    WM_MOUSEWHEEL, WM_RBUTTONDOWN, WM_RBUTTONUP, VK_F12,
};
use mirror_windows::platform::windows::sync_targets::{
    detect_dispatch_mode, dispatch_mode_for_names, file_name_of_path, mark_target_unavailable,
    note_dispatch_target, remove_target, resolve_sync_targets, SyncStartError,
};
use mirror_windows::platform::windows::{IntErrorKind, Rect};
use mirror_windows::models::{CoordinateMode, SessionConfig};

fn ctx() -> MouseHookContext {
    MouseHookContext {
        has_targets: true,
        circuit_breaker_open: false,
        primary_valid: true,
        sync_mouse_move: true,
        game_mode: false,
        layout_mode: LayoutMode::Tile,
    }
}

fn event(message: u32, inside: bool, x: i32, y: i32, point: u32) -> MouseHookEvent<u32> {
    MouseHookEvent {
        message,
        injected: false,
        inside_primary: inside,
        client: Some((Point { x, y }, Rect { left: 0, top: 0, right: 800, bottom: 600 })),
        normalized: Some(point),
        point_is_new: true,
    }
}

#[test]
fn a_click_in_the_primary_window_is_buffered_then_replayed() {
    let mut state: PointerState<u32> = PointerState::new();
    let mut replay = false;
    let d = handle_mouse(&mut state, &mut replay, &ctx(), event(WM_LBUTTONDOWN, true, 10, 20, 1));
    assert!(!d.swallow);
    assert!(matches!(d.action, MouseHookAction::Ignore));
    assert_eq!(state.buttons_down, 1);
    assert!(state.drag_from_primary);
    assert_eq!(state.drag_origin, Some(Point { x: 10, y: 20 }));
    let g = state.buffered_gesture.as_ref().unwrap();
    assert_eq!((g.button_mask, g.down_message, g.up_message), (1, WM_LBUTTONDOWN, WM_LBUTTONUP));
    assert_eq!(g.points, vec![1]);

    let d = handle_mouse(&mut state, &mut replay, &ctx(), event(WM_LBUTTONUP, true, 300, 200, 2));
    assert!(replay);
    match d.action {
        MouseHookAction::ReplayGesture { gesture, bring_primary_to_front } => {
            assert_eq!(gesture.points, vec![1, 2]);
            assert_eq!(gesture.up_message, WM_LBUTTONUP);
            assert!(!bring_primary_to_front);
        }
        _ => panic!("expected a replay"),
    }
    assert_eq!(state.buttons_down, 0);
    assert!(!state.drag_from_primary);
    assert!(state.buffered_gesture.is_none());
}

#[test]
fn during_a_replay_physical_mouse_input_is_withheld() {
    let mut state: PointerState<u32> = PointerState::new();
    let mut replay = true;
    let d = handle_mouse(&mut state, &mut replay, &ctx(), event(WM_MOUSEMOVE, true, 1, 1, 0));
    assert!(d.swallow);
    let mut injected = event(WM_LBUTTONDOWN, true, 1, 1, 0);
    injected.injected = true;
    let d = handle_mouse(&mut state, &mut replay, &ctx(), injected);
    assert!(!d.swallow);
    assert!(state.buffered_gesture.is_none());
}

#[test]
fn an_open_circuit_breaker_and_a_lost_primary_stop_mirroring() {
    let mut state: PointerState<u32> = PointerState::new();
    let mut replay = false;
    let mut c = ctx();
    c.circuit_breaker_open = true;
    let d = handle_mouse(&mut state, &mut replay, &c, event(WM_LBUTTONDOWN, true, 5, 5, 0));
    assert!(matches!(d.action, MouseHookAction::Ignore));
    assert!(state.buffered_gesture.is_none());
    let mut c = ctx();
    c.primary_valid = false;
    let d = handle_mouse(&mut state, &mut replay, &c, event(WM_LBUTTONDOWN, true, 5, 5, 0));
    assert!(matches!(d.action, MouseHookAction::LogPrimaryInvalid));
    let d = handle_mouse(&mut state, &mut replay, &ctx(), event(WM_MOUSEWHEEL, true, 5, 5, 0));
    assert!(matches!(d.action, MouseHookAction::HandleWheel));
}

#[test]
fn presses_outside_the_primary_window_are_ignored() {
    let mut state: PointerState<u32> = PointerState::new();
    let mut replay = false;
    handle_mouse(&mut state, &mut replay, &ctx(), event(WM_LBUTTONDOWN, false, 5, 5, 0));
    assert!(state.buffered_gesture.is_none());
    handle_mouse(&mut state, &mut replay, &ctx(), event(WM_LBUTTONDOWN, true, 900, 5, 0));
    assert!(state.buffered_gesture.is_none());
}

#[test]
fn a_stack_layout_raises_the_primary_after_a_click() {
    let mut state: PointerState<u32> = PointerState::new();
    let mut replay = false;
    let mut c = ctx();
    c.layout_mode = LayoutMode::Stack;
    handle_mouse(&mut state, &mut replay, &c, event(WM_RBUTTONDOWN, true, 5, 5, 7));
    let d = handle_mouse(&mut state, &mut replay, &c, event(WM_RBUTTONUP, true, 5, 5, 7));
    match d.action {
        MouseHookAction::ReplayGesture { bring_primary_to_front, .. } => assert!(bring_primary_to_front),
        _ => panic!("expected a replay"),
    }
    // a release without a buffered press only raises the primary window
    replay = false;
    let d = handle_mouse(&mut state, &mut replay, &c, event(WM_LBUTTONUP, true, 5, 5, 7));
    assert!(matches!(d.action, MouseHookAction::BringPrimaryToFront));
}

#[test]
fn message_filters_follow_the_session_options() {
    assert!(should_process_mouse_message(WM_MOUSEMOVE, true, false, true, false));
    assert!(!should_process_mouse_message(WM_MOUSEMOVE, true, false, false, false));
    assert!(!should_process_mouse_message(WM_MOUSEMOVE, true, false, true, true));
    assert!(should_process_mouse_message(WM_MOUSEMOVE, false, true, true, true));
    assert!(should_process_mouse_message(WM_LBUTTONUP, false, true, false, false));
    assert!(!should_process_mouse_message(WM_LBUTTONDOWN, false, true, true, false));
    assert!(!should_process_mouse_message(WM_KEYDOWN, true, true, true, false));
    assert_eq!(button_up_message_for(WM_RBUTTONDOWN), WM_RBUTTONUP);
    assert_eq!(button_up_message_for(WM_MOUSEMOVE), WM_MOUSEMOVE);
}

#[test]
fn a_small_movement_of_a_held_button_is_still_a_click() {
    let mut state: PointerState<u32> = PointerState::new();
    state.buttons_down = 1;
    state.drag_origin = Some(Point { x: 100, y: 100 });
    assert!(should_treat_as_click_hold(&state, Point { x: 106, y: 94 }));
    assert!(!should_treat_as_click_hold(&state, Point { x: 107, y: 100 }));
    state.buttons_down = 0;
    assert!(!should_treat_as_click_hold(&state, Point { x: 100, y: 100 }));
}

#[test]
fn points_and_words_pack_into_message_parameters() {
    assert_eq!(pack_point(Point { x: 10, y: 20 }), 0x0014_000A);
    assert_eq!(pack_point(Point { x: -1, y: 2 }), 0x0002_FFFF);
    assert_eq!(hiword(0xFF88_0000), 0xFF88);
    assert_eq!(current_mouse_modifier_state(1 | 4, true, false), 0x0001 | 0x0010 | 0x0004);
    assert_eq!(current_mouse_modifier_state(2, false, true), 0x0002 | 0x0008);
}

#[test]
fn long_gestures_are_thinned_evenly() {
    assert_eq!(downsample_indices(5, 48), vec![0, 1, 2, 3, 4]);
    assert_eq!(downsample_indices(10, 4), vec![0, 3, 6, 9]);
    assert_eq!(downsample_indices(100, 3), vec![0, 49, 99]);
    assert_eq!(downsample_indices(3, 1), vec![0, 1, 2]);
}

#[test]
fn a_gesture_replays_press_moves_and_release() {
    let steps = gesture_replay_steps(WM_LBUTTONDOWN, WM_LBUTTONUP, 4);
    assert_eq!(
        steps,
        vec![
            ReplayStep { message: WM_LBUTTONDOWN, point_index: 0 },
            ReplayStep { message: WM_MOUSEMOVE, point_index: 1 },
            ReplayStep { message: WM_MOUSEMOVE, point_index: 2 },
            ReplayStep { message: WM_LBUTTONUP, point_index: 3 },
        ]
    );
    assert_eq!(
        gesture_replay_steps(WM_LBUTTONDOWN, WM_LBUTTONUP, 1),
        vec![
            ReplayStep { message: WM_LBUTTONDOWN, point_index: 0 },
            ReplayStep { message: WM_LBUTTONUP, point_index: 0 },
        ]
    );
    assert!(gesture_replay_steps(WM_LBUTTONDOWN, WM_LBUTTONUP, 0).is_empty());
}

#[test]
fn window_messages_are_planned_per_message_kind() {
    let click = plan_window_message(WM_LBUTTONDOWN, 0x0001, 0);
    assert_eq!(click.pre_move_wparam, Some(1));
    assert!(!click.screen_position && click.synchronous);
    assert_eq!((click.wparam, click.settle_ms), (1, 4));
    assert_eq!(click.failure.reason(), "mouse message dispatch returned failure");
    let wheel = plan_window_message(WM_MOUSEWHEEL, 0x0008, 0xFF88_0000);
    assert!(wheel.screen_position && wheel.synchronous);
    assert_eq!(wheel.wparam, 0xFF88_0008);
    assert_eq!(wheel.failure.reason(), "wheel message dispatch returned failure");
    let mv = plan_window_message(WM_MOUSEMOVE, 0, 0);
    assert_eq!(mv.pre_move_wparam, None);
    assert!(!mv.synchronous);
    assert_eq!(mv.settle_ms, 0);
    assert_eq!(DeliveryFailure::PreClickMove.reason(), "pre-click mouse move dispatch returned failure");
    assert_eq!(DeliveryFailure::TargetGone.reason(), "target window is no longer valid");
}

#[test]
fn only_ctrl_shift_f12_is_the_emergency_stop() {
    assert!(emergency_stop_requested(WM_KEYDOWN, false, VK_F12, true, true));
    assert!(!emergency_stop_requested(WM_KEYDOWN, true, VK_F12, true, true));
    assert!(!emergency_stop_requested(WM_KEYDOWN, false, VK_F12, true, false));
    assert!(!emergency_stop_requested(WM_KEYDOWN, false, 0x7A, true, true));
    assert!(!emergency_stop_requested(WM_MOUSEMOVE, false, VK_F12, true, true));
}

#[test]
fn the_circuit_breaker_reports_only_when_it_opens() {
    let mut open = false;
    let line = trip_circuit_breaker(&mut open, "session-3", emergency_stop_reason()).unwrap();
    assert!(open);
    assert_eq!(line.level, LogLevel::Error);
    assert_eq!(line.key, "circuit_breaker:session-3");
    assert_eq!(line.message, "Emergency stop activated by Ctrl+Shift+F12. Mirroring has been cut off immediately.");
    assert_eq!(line.cooldown_ms, 1000);
    assert!(trip_circuit_breaker(&mut open, "session-3", watchdog_reason()).is_none());
    assert_eq!(watchdog_reason(), "Game mode watchdog stopped mirroring because one replay took more than 1500 ms.");
    assert!(watchdog_tripped(true, 1501));
    assert!(!watchdog_tripped(true, 1500));
    assert!(!watchdog_tripped(false, 9000));
    assert_eq!(focus_settle_ms(true), 130);
    assert_eq!(focus_settle_ms(false), 70);
}

#[test]
fn a_wheel_turn_is_mirrored_only_inside_the_primary_client_area() {
    let inside = Some((Point { x: 5, y: 5 }, Rect { left: 0, top: 0, right: 10, bottom: 10 }));
    let outside = Some((Point { x: 10, y: 5 }, Rect { left: 0, top: 0, right: 10, bottom: 10 }));
    assert!(should_mirror_wheel(false, true, inside, true));
    assert!(!should_mirror_wheel(true, true, inside, true));
    assert!(!should_mirror_wheel(false, false, inside, true));
    assert!(!should_mirror_wheel(false, true, outside, true));
    assert!(!should_mirror_wheel(false, true, None, true));
    assert!(!should_mirror_wheel(false, true, inside, false));
}

#[test]
fn stopping_input_sync_takes_only_the_named_session() {
    let mut running = Some(RunningSync { session_id: "session-1".to_string(), thread_id: 9 });
    assert!(stop_input_sync(&mut running, Some("session-2")).is_none());
    assert!(running.is_some());
    let stopped = stop_input_sync(&mut running, Some("session-1")).unwrap();
    assert_eq!(stopped.thread_id, 9);
    assert!(running.is_none());
    assert!(stop_input_sync(&mut running, None).is_none());
    let mut running = Some(RunningSync { session_id: "s".to_string(), thread_id: 1 });
    assert!(stop_input_sync(&mut running, None).is_some());
}

#[test]
fn the_throttle_holds_back_repeats_within_the_cooldown() {
    let mut t = LogThrottle::new();
    assert!(t.should_log("k".to_string(), 1_000, 3_000));
    assert!(!t.should_log("k".to_string(), 3_999, 3_000));
    assert!(t.should_log("other".to_string(), 3_999, 3_000));
    assert!(t.should_log("k".to_string(), 4_000, 3_000));
    assert!(!t.should_log("k".to_string(), 6_999, 3_000));
    // a clock that went back counts as no time passed
    assert!(!t.should_log("k".to_string(), 10, 3_000));
    assert!(t.should_log("k".to_string(), 10, 0));
}

#[test]
fn dispatch_outcomes_are_counted_and_failures_reported() {
    let mut s = DispatchSummary::default();
    s.begin_attempt();
    assert!(apply_dispatch_outcome(&mut s, "session-1", 0x1A, WM_LBUTTONUP, DispatchOutcome::Success(DispatchMode::SendInput)).is_none());
    s.begin_attempt();
    let issue = apply_dispatch_outcome(
        &mut s,
        "session-1",
        0x1A,
        WM_LBUTTONUP,
        DispatchOutcome::Failed(DispatchMode::WindowMessage, "boom".to_string()),
    )
    .unwrap();
    assert_eq!(issue.level, LogLevel::Warn);
    assert_eq!(issue.key, "dispatch_issue:session-1:26:514:boom");
    assert_eq!(issue.message, "Session session-1 failed to mirror left_up to target 0x1A via window_message: boom.");
    assert_eq!(issue.cooldown_ms, 5000);
    s.begin_attempt();
    let skip = apply_dispatch_outcome(
        &mut s,
        "session-1",
        0x2B,
        WM_MOUSEMOVE,
        DispatchOutcome::Skipped("target window is no longer valid".to_string()),
    )
    .unwrap();
    assert_eq!(skip.level, LogLevel::Info);
    assert_eq!(skip.key, "dispatch_skip:session-1:43:512:target window is no longer valid");
    assert_eq!(skip.message, "Session session-1 skipped mouse_move for target 0x2B: target window is no longer valid.");
    assert_eq!(s, DispatchSummary { attempted: 3, succeeded: 1, failed: 2, window_message: 1, send_input: 1 });
    let line = log_summary_if_needed("session-1", WM_LBUTTONUP, s).unwrap();
    assert_eq!(line.key, "summary:session-1:514");
    assert_eq!(
        line.message,
        "Session session-1 mirrored left_up to 1/3 targets. window_message=1, send_input=1, failed=2."
    );
    assert_eq!(line.cooldown_ms, 3000);
    let clean = DispatchSummary { attempted: 2, succeeded: 2, failed: 0, window_message: 2, send_input: 0 };
    assert!(log_summary_if_needed("session-1", WM_LBUTTONUP, clean).is_none());
}

#[test]
fn runtime_log_lines_name_sessions_targets_and_messages() {
    assert_eq!(mouse_message_name(WM_MOUSEHWHEEL), "hwheel");
    assert_eq!(mouse_message_name(0x1234), "unknown_mouse");
    let l = log_target_removed("s", 255, "failed to read target client rect");
    assert_eq!(l.key, "target_removed:s:255:failed to read target client rect");
    assert_eq!(l.message, "Session s removed target 0xFF from live mirroring: failed to read target client rect.");
    assert_eq!(l.cooldown_ms, 15000);
    assert!(log_click_trace("s", 1, "mouse_move", DispatchMode::SendInput).is_none());
    let t = log_click_trace("s", 1, "pre_click_move", DispatchMode::WindowMessage).unwrap();
    assert_eq!(t.key, "click_trace:s:1:pre_click_move:window_message");
    assert_eq!(t.message, "Session s target 0x1 pre_click_move via window_message.");
    let r = log_replay("s", WM_LBUTTONDOWN, 12, 3);
    assert_eq!(r.key, "replay:s:513:12");
    assert_eq!(r.message, "Session s replaying buffered left_down gesture with 12 points to 3 targets.");
    let p = log_primary_invalid("s");
    assert_eq!(p.key, "primary_window_invalid");
    assert_eq!(p.message, "Session s paused mirroring because the primary window is no longer valid.");
    assert_eq!(dispatch_mode_message("s", 16, DispatchMode::SendInput), "Session s target 0x10 using send_input dispatch mode.");
    assert_eq!(
        session_targets_message("s", 1, &vec![2, 0xAB]),
        "Session s active targets resolved. primary=0x1, targets=[0x2, 0xAB], count=2."
    );
    assert_eq!(session_targets_message("s", 1, &vec![]), "Session s active targets resolved. primary=0x1, targets=[], count=0.");
    assert_eq!(sync_loop_error_message("s"), "Session s sync loop stopped because GetMessageW returned an error.");
}

fn sync_config(primary: &str, targets: &[&str]) -> SessionConfig {
    SessionConfig {
        primary_window_id: primary.to_string(),
        target_window_ids: targets.iter().map(|t| t.to_string()).collect(),
        monitor_id: None,
        layout_mode: LayoutMode::Tile,
        coordinate_mode: CoordinateMode::NormalizedClient,
        dispatch_mode: DispatchMode::Auto,
        sync_mouse_move: true,
        sync_wheel: true,
        sync_keyboard: false,
        game_mode: false,
    }
}

#[test]
fn sync_targets_keep_live_windows_once() {
    let c = sync_config("0x10", &["0x20", "0x30", "20", "0x40"]);
    let t = resolve_sync_targets("session-1", c, true, &vec![true, false, true, true]).unwrap();
    assert_eq!(t.primary_root, 0x10);
    assert_eq!(t.target_roots, vec![0x20, 0x40]);
    assert_eq!(t.config.target_window_ids, vec!["0x20", "20", "0x40"]);
}

#[test]
fn sync_cannot_start_without_live_windows() {
    let e = resolve_sync_targets("session-4", sync_config("0x10", &["0x20"]), false, &vec![true]).unwrap_err();
    assert_eq!(e, SyncStartError::PrimaryInvalid("session-4".to_string()));
    assert_eq!(e.message(), "Primary window for session 'session-4' is no longer valid.");
    let e = resolve_sync_targets("s", sync_config("0x10", &["0x20", "0x30"]), true, &vec![false, false]).unwrap_err();
    assert_eq!(e, SyncStartError::NoLiveTargets);
    assert_eq!(e.message(), "No live target windows were available when starting sync.");
    let e = resolve_sync_targets("s", sync_config("0x10", &["0x20", "bad", "zzz", "worse"]), true, &vec![true, true, true, true]).unwrap_err();
    match &e {
        SyncStartError::InvalidHandle(p) => {
            assert_eq!(p.window_id, "zzz");
            assert_eq!(p.kind, IntErrorKind::InvalidDigit);
        }
        _ => panic!("expected an invalid handle"),
    }
    assert_eq!(e.message(), "Invalid native window handle 'zzz': invalid digit found in string");
    let e = resolve_sync_targets("s", sync_config("", &["0x20"]), false, &vec![true]).unwrap_err();
    assert!(matches!(e, SyncStartError::InvalidHandle(_)));
}

#[test]
fn targets_are_removed_and_forgotten() {
    let mut targets = vec![1, 2, 3, 2];
    assert!(remove_target(&mut targets, 2));
    assert_eq!(targets, vec![1, 3]);
    assert!(!remove_target(&mut targets, 9));
    assert_eq!(targets, vec![1, 3]);
    let mut logged = HashSet::new();
    assert!(note_dispatch_target(&mut logged, 3));
    assert!(!note_dispatch_target(&mut logged, 3));
    let line = mark_target_unavailable(&mut targets, &mut logged, "s", 3, "target window is no longer valid");
    assert_eq!(targets, vec![1]);
    assert!(logged.is_empty());
    assert_eq!(line.level, LogLevel::Warn);
    assert_eq!(line.message, "Session s removed target 0x3 from live mirroring: target window is no longer valid.");
}

#[test]
fn browsers_take_window_messages_and_games_take_injected_input() {
    assert_eq!(detect_dispatch_mode("Chrome_WidgetWin_1", "C:\\Program Files\\Google\\Chrome\\chrome.exe"), DispatchMode::WindowMessage);
    assert_eq!(detect_dispatch_mode("UnityWndClass", "D:\\Games\\Hero\\UnityPlayer.exe"), DispatchMode::SendInput);
    assert_eq!(detect_dispatch_mode("D3DWindow", ""), DispatchMode::SendInput);
    assert_eq!(detect_dispatch_mode("Notepad", "C:\\Windows\\notepad.exe"), DispatchMode::WindowMessage);
    assert_eq!(detect_dispatch_mode("MyAppClass", "C:\\Tools\\tool.exe"), DispatchMode::WindowMessage);
    // a browser indicator wins over a game indicator
    assert_eq!(dispatch_mode_for_names("d3d_host", "steam_chrome.exe"), DispatchMode::WindowMessage);
    assert_eq!(dispatch_mode_for_names("", "steamwebhelper.exe"), DispatchMode::SendInput);
    // only the executable's file name is compared, not its folders
    assert_eq!(detect_dispatch_mode("", "C:\\Steam\\app.exe"), DispatchMode::WindowMessage);
    assert_eq!(file_name_of_path("C:\\a\\b.exe"), "b.exe");
    assert_eq!(file_name_of_path("b.exe"), "b.exe");
    assert_eq!(file_name_of_path("C:\\a\\"), "");
}

#[test]
fn finishing_a_replay_lets_the_mouse_through_again() {
    let clean = DispatchSummary { attempted: 2, succeeded: 2, failed: 0, window_message: 2, send_input: 0 };
    let failed = DispatchSummary { attempted: 3, succeeded: 1, failed: 2, window_message: 1, send_input: 1 };
    // a quick replay outside game mode: nothing but the flag changes
    let mut replaying = true;
    let mut open = false;
    let end = finish_replay(&mut replaying, &mut open, "s", false, 9000, WM_LBUTTONUP, clean);
    assert!(!replaying);
    assert!(!open);
    assert!(end.breaker_log.is_none() && end.summary_log.is_none());
    // in game mode, a replay of exactly the watchdog time does not trip it
    let mut replaying = true;
    let end = finish_replay(&mut replaying, &mut open, "s", true, 1500, WM_LBUTTONUP, failed);
    assert!(!replaying);
    assert!(!open);
    assert!(end.breaker_log.is_none());
    let summary = end.summary_log.unwrap();
    assert_eq!(summary.key, "summary:s:514");
    assert_eq!(summary.message, "Session s mirrored left_up to 1/3 targets. window_message=1, send_input=1, failed=2.");
    // one millisecond more opens the breaker, with its line
    let mut replaying = true;
    let end = finish_replay(&mut replaying, &mut open, "s", true, 1501, WM_LBUTTONUP, clean);
    assert!(!replaying);
    assert!(open);
    let line = end.breaker_log.unwrap();
    assert_eq!(line.level, LogLevel::Error);
    assert_eq!(line.key, "circuit_breaker:s");
    assert_eq!(line.message, "Game mode watchdog stopped mirroring because one replay took more than 1500 ms.");
    assert!(end.summary_log.is_none());
    // an already open breaker stays open and is not reported again
    let mut replaying = true;
    let end = finish_replay(&mut replaying, &mut open, "s", true, 4000, WM_LBUTTONUP, clean);
    assert!(!replaying && open);
    assert!(end.breaker_log.is_none());
}
