use mirror_windows::models::{Bounds, DispatchMode, MonitorInfo, WindowInfo};
use mirror_windows::platform::windows::desktop::{
    bring_to_front_plan, describe_monitor, describe_window, icon_size, is_candidate_window, move_resize_plan,
    sort_monitors, sort_windows, utf16_buffer_to_string, window_title, WindowPosCall, ZOrder,
};
use mirror_windows::platform::windows::runtime_report::{DispatchOutcome, TargetRound};
use mirror_windows::platform::windows::sync_runtime::{
    deeper_child, plan_gesture_replay, plan_mouse_delivery, root_window, DeliveryFailure, GestureReplay,
    MouseDelivery, ReplayStep, WM_LBUTTONDOWN, WM_LBUTTONUP, WM_MOUSEMOVE,
};
use mirror_windows::platform::windows::Rect;

fn window(id: &str, title: &str) -> WindowInfo {
    WindowInfo {
        id: id.to_string(),
        native_handle: 1,
        title: title.to_string(),
        process_name: None,
        icon_data_url: None,
        pid: 3,
        monitor_id: None,
        rect: Bounds { x: 0, y: 0, width: 10, height: 10 },
        is_visible: true,
        is_minimized: false,
    }
}

fn monitor(id: &str, name: &str, primary: bool) -> MonitorInfo {
    let area = Bounds { x: 0, y: 0, width: 10, height: 10 };
    MonitorInfo { id: id.to_string(), name: name.to_string(), rect: area, work_area: area, is_primary: primary, dpi: 96 }
}

#[test]
fn moving_a_window_positions_it_three_times() {
    let plan = move_resize_plan(&Bounds { x: 10, y: 20, width: 0, height: 300 }, true, false);
    assert!(plan.restore_first);
    let flags = 0x0040 | 0x0010 | 0x0200;
    assert_eq!(
        plan.calls,
        vec![
            WindowPosCall { insert_after: ZOrder::TopMost, x: 10, y: 20, width: 1, height: 300, flags },
            WindowPosCall { insert_after: ZOrder::NotTopMost, x: 10, y: 20, width: 1, height: 300, flags },
            WindowPosCall { insert_after: ZOrder::Top, x: 10, y: 20, width: 1, height: 300, flags },
        ]
    );
    assert!(!move_resize_plan(&Bounds { x: 0, y: 0, width: 5, height: 5 }, false, false).restore_first);
}

#[test]
fn raising_a_window_keeps_its_place_and_size() {
    let plan = bring_to_front_plan(false, true);
    assert!(plan.restore_first);
    let order: Vec<ZOrder> = plan.calls.iter().map(|c| c.insert_after).collect();
    assert_eq!(order, vec![ZOrder::TopMost, ZOrder::Top, ZOrder::NotTopMost]);
    assert!(plan.calls.iter().all(|c| c.flags == 0x0040 | 0x0002 | 0x0001 | 0x0010 | 0x0200));
}

#[test]
fn only_plain_visible_windows_of_other_processes_are_candidates() {
    assert!(is_candidate_window(true, true, 5, 10, 11, 0, false));
    assert!(!is_candidate_window(false, true, 5, 10, 11, 0, false));
    assert!(!is_candidate_window(true, false, 5, 10, 11, 0, false));
    assert!(!is_candidate_window(true, true, 0, 10, 11, 0, false));
    assert!(!is_candidate_window(true, true, 5, 11, 11, 0, false));
    assert!(!is_candidate_window(true, true, 5, 10, 11, 0x80, false));
    assert!(!is_candidate_window(true, true, 5, 10, 11, 0, true));
    assert_eq!(window_title("  Editor  "), Some("Editor".to_string()));
    assert_eq!(window_title(" \t "), None);
}

#[test]
fn windows_are_described_with_handle_ids() {
    let w = describe_window(0x1A2B, "Game".to_string(), 7, Bounds { x: 1, y: 2, width: 3, height: 4 }, 0x10, Some("game.exe".to_string()), Some("data:image/png;base64,AAAA".to_string()), true, false).unwrap();
    assert_eq!(w.id, "0x1A2B");
    assert_eq!(w.native_handle, 0x1A2B);
    assert_eq!(w.monitor_id, Some("0x10".to_string()));
    assert_eq!(w.process_name, Some("game.exe".to_string()));
    assert_eq!(w.icon_data_url, Some("data:image/png;base64,AAAA".to_string()));
    assert!(w.is_visible && !w.is_minimized);
    let w = describe_window(5, "x".to_string(), 7, Bounds { x: 1, y: 2, width: 3, height: 4 }, 0, None, None, true, true).unwrap();
    assert_eq!(w.monitor_id, None);
    assert_eq!(w.icon_data_url, None);
    assert!(describe_window(5, "Mirror Windows".to_string(), 7, Bounds { x: 0, y: 0, width: 1, height: 1 }, 0, None, None, true, false).is_none());
    assert!(describe_window(5, "PS".to_string(), 7, Bounds { x: 0, y: 0, width: 1, height: 1 }, 0, Some("pwsh.exe".to_string()), None, true, false).is_none());
}

#[test]
fn icons_are_drawn_at_least_one_pixel_and_masks_at_half_height() {
    assert_eq!(icon_size(16, 16, true), (16, 16));
    assert_eq!(icon_size(16, 32, false), (16, 16));
    assert_eq!(icon_size(0, 1, false), (1, 1));
    assert_eq!(icon_size(-5, -5, true), (1, 1));
}

#[test]
fn monitors_are_described_from_their_device_names() {
    let mut device = [0u16; 8];
    for (i, c) in " \\\\.\\D1".encode_utf16().enumerate() {
        device[i] = c;
    }
    assert_eq!(utf16_buffer_to_string(&device), "\\\\.\\D1");
    assert_eq!(utf16_buffer_to_string(&[0x41, 0, 0x42]), "A");
    let m = describe_monitor(
        0x99,
        &device,
        Rect { left: 0, top: 0, right: 1920, bottom: 1080 },
        Rect { left: 0, top: 0, right: 1920, bottom: 1040 },
        1,
        None,
    );
    assert_eq!(m.id, "0x99");
    assert!(m.is_primary);
    assert_eq!(m.dpi, 96);
    assert_eq!(m.work_area, Bounds { x: 0, y: 0, width: 1920, height: 1040 });
    let m = describe_monitor(1, &[], Rect { left: 1920, top: 0, right: 3200, bottom: 1024 }, Rect { left: 1920, top: 0, right: 3200, bottom: 984 }, 0, Some(144));
    assert!(!m.is_primary);
    assert_eq!(m.dpi, 144);
    assert_eq!(m.name, "");
}

#[test]
fn windows_are_listed_by_title_ignoring_case() {
    let sorted = sort_windows(vec![window("a", "beta"), window("b", "Alpha"), window("c", "BETA"), window("d", "alpha2")]);
    let ids: Vec<&str> = sorted.iter().map(|w| w.id.as_str()).collect();
    assert_eq!(ids, vec!["b", "d", "a", "c"]);
}

#[test]
fn monitors_are_listed_primary_first_then_by_name() {
    let sorted = sort_monitors(vec![monitor("1", "Zeta", false), monitor("2", "Beta", true), monitor("3", "Alpha", false)]);
    let ids: Vec<&str> = sorted.iter().map(|m| m.id.as_str()).collect();
    assert_eq!(ids, vec!["2", "3", "1"]);
}

#[test]
fn a_round_hands_out_each_target_once() {
    let mut round = TargetRound::new(vec![7, 8]);
    assert_eq!(round.next_target(false), Some(7));
    assert!(round.record("s", WM_LBUTTONUP, DispatchOutcome::Success(DispatchMode::WindowMessage)).is_none());
    assert_eq!(round.next_target(false), Some(8));
    let line = round.record("s", WM_LBUTTONUP, DispatchOutcome::Skipped("gone".to_string())).unwrap();
    assert_eq!(line.message, "Session s skipped left_up for target 0x8: gone.");
    assert_eq!(round.next_target(false), None);
    let s = round.summary();
    assert_eq!((s.attempted, s.succeeded, s.failed, s.window_message, s.send_input), (2, 1, 1, 1, 0));
    let mut stopped = TargetRound::new(vec![1, 2, 3]);
    assert_eq!(stopped.next_target(true), None);
    assert_eq!(stopped.summary().attempted, 0);
}

#[test]
fn each_target_gets_its_delivery_route() {
    assert_eq!(plan_mouse_delivery(false, true, DispatchMode::SendInput, None, WM_LBUTTONDOWN, 0, 0), MouseDelivery::Skip(DeliveryFailure::TargetGone));
    assert_eq!(plan_mouse_delivery(true, false, DispatchMode::SendInput, None, WM_LBUTTONDOWN, 0, 0), MouseDelivery::Skip(DeliveryFailure::ClientRectUnreadable));
    assert_eq!(plan_mouse_delivery(false, false, DispatchMode::Auto, None, WM_LBUTTONDOWN, 0, 0), MouseDelivery::Skip(DeliveryFailure::TargetGone));
    assert_eq!(plan_mouse_delivery(true, false, DispatchMode::Auto, None, WM_LBUTTONDOWN, 0, 0), MouseDelivery::Skip(DeliveryFailure::ClientRectUnreadable));
    assert_eq!(plan_mouse_delivery(true, true, DispatchMode::Auto, Some(DispatchMode::SendInput), WM_LBUTTONDOWN, 0, 0), MouseDelivery::Inject);
    match plan_mouse_delivery(true, true, DispatchMode::Auto, Some(DispatchMode::WindowMessage), WM_MOUSEMOVE, 0, 0) {
        MouseDelivery::Messages(mode, plan) => {
            assert_eq!(mode, DispatchMode::WindowMessage);
            assert_eq!(plan.pre_move_wparam, None);
        }
        other => panic!("unexpected {other:?}"),
    }
}

#[test]
fn gestures_replay_whole_in_game_mode_and_step_by_step_otherwise() {
    assert!(matches!(plan_gesture_replay(WM_LBUTTONDOWN, WM_LBUTTONUP, 0, true, false), GestureReplay::Skip(DeliveryFailure::NoGesturePoints)));
    assert!(matches!(plan_gesture_replay(WM_LBUTTONDOWN, WM_LBUTTONUP, 2, false, false), GestureReplay::Skip(DeliveryFailure::TargetGone)));
    assert!(matches!(plan_gesture_replay(WM_LBUTTONDOWN, WM_LBUTTONUP, 2, true, true), GestureReplay::Whole));
    match plan_gesture_replay(WM_LBUTTONDOWN, WM_LBUTTONUP, 2, true, false) {
        GestureReplay::Steps(steps) => assert_eq!(
            steps,
            vec![
                ReplayStep { message: WM_LBUTTONDOWN, point_index: 0 },
                ReplayStep { message: WM_LBUTTONUP, point_index: 1 },
            ]
        ),
        other => panic!("unexpected {other:?}"),
    }
}

#[test]
fn the_window_under_the_pointer_resolves_to_its_root_and_deepest_child() {
    assert_eq!(root_window(0, 5), 0);
    assert_eq!(root_window(3, 0), 3);
    assert_eq!(root_window(3, 9), 9);
    assert_eq!(deeper_child(4, 0), None);
    assert_eq!(deeper_child(4, 4), None);
    assert_eq!(deeper_child(4, 6), Some(6));
}

#[test]
fn utf16_buffers_decode_pairs_and_replace_lone_surrogates() {
    let buffer = [0xD83D, 0xDE00, 0x41, 0xDC00, 0x42, 0xD800, 0, 0x43];
    assert_eq!(utf16_buffer_to_string(&buffer), "\u{1F600}A\u{FFFD}B\u{FFFD}");
    assert_eq!(utf16_buffer_to_string(&[0xD800, 0xD83D, 0xDE00]), "\u{FFFD}\u{1F600}");
}
