use mirror_windows::input_capture::CaptureState;
use mirror_windows::input_dispatcher::DispatchPlan;
use mirror_windows::models::{default_coordinate_mode, default_dispatch_mode, default_true, CoordinateMode, DispatchMode};
use mirror_windows::permissions::{current_permission_status, initialize_platform};
use mirror_windows::platform::{self, PlatformError};
use mirror_windows::text::{str_contains, str_starts_with, to_ascii_lowercase, trim};
use mirror_windows::window_registry;

#[test]
fn this_platform_reports_that_it_supports_nothing() {
    assert_eq!(initialize_platform(), Ok(()));
    let p = current_permission_status("linux").unwrap();
    assert_eq!(p.platform, "linux");
    assert!(!p.window_management_supported && !p.input_capture_supported && !p.input_dispatch_supported);
    assert!(!p.is_process_elevated);
    assert_eq!(p.warnings, vec!["Mirror Windows MVP is currently Windows-only."]);
}

#[test]
fn window_operations_are_unavailable_here() {
    assert_eq!(window_registry::scan_windows().unwrap_err(), PlatformError::WindowsOnly);
    assert_eq!(window_registry::list_monitors().unwrap_err(), PlatformError::WindowsOnly);
    assert!(!window_registry::window_exists("0x10"));
    assert_eq!(platform::bring_window_to_front("0x10"), Err(PlatformError::WindowsOnly));
    let e = platform::start_input_sync("session-1", sample_config()).unwrap_err();
    assert_eq!(e, PlatformError::InputSyncWindowsOnly);
    assert_eq!(e.message(), "Live input sync is only implemented on Windows.");
    assert_eq!(platform::stop_input_sync(Some("session-1")), Ok(false));
    assert_eq!(platform::stop_input_sync(None), Ok(false));
}

fn sample_config() -> mirror_windows::models::SessionConfig {
    mirror_windows::models::SessionConfig {
        primary_window_id: "0x1".to_string(),
        target_window_ids: vec!["0x2".to_string()],
        monitor_id: None,
        layout_mode: mirror_windows::models::LayoutMode::Tile,
        coordinate_mode: CoordinateMode::NormalizedClient,
        dispatch_mode: DispatchMode::Auto,
        sync_mouse_move: true,
        sync_wheel: true,
        sync_keyboard: false,
        game_mode: false,
    }
}

#[test]
fn configuration_defaults() {
    assert!(default_true());
    assert_eq!(default_coordinate_mode(), CoordinateMode::NormalizedClient);
    assert_eq!(default_dispatch_mode(), DispatchMode::Auto);
    let c = CaptureState::default();
    assert!(!c.is_running && c.active_button.is_none());
    assert!(DispatchPlan::default().targets.is_empty());
}

#[test]
fn text_helpers() {
    assert_eq!(trim("\u{2003} a b \n"), "a b");
    assert_eq!(to_ascii_lowercase("MiXeD Ä"), "mixed Ä");
    assert!(str_starts_with("mirror windows x", "mirror windows "));
    assert!(str_contains("steamwebhelper", "steam"));
    assert!(!str_contains("ste", "steam"));
    assert!(str_contains("abc", ""));
}
