use mirror_windows::models::Bounds;
use mirror_windows::platform::windows::icon::{icon_data_url, png_data_url};
use mirror_windows::platform::windows::{
    bounds_from_rect, format_handle, parse_hwnd, permission_status, should_exclude_window, IntErrorKind, Rect,
};

#[test]
fn window_ids_read_as_hexadecimal_handles() {
    assert_eq!(parse_hwnd("0x1A2B").unwrap(), 0x1A2B);
    assert_eq!(parse_hwnd("0X1a2b").unwrap(), 0x1A2B);
    assert_eq!(parse_hwnd("  ff  ").unwrap(), 0xFF);
    assert_eq!(parse_hwnd("+10").unwrap(), 0x10);
    assert_eq!(parse_hwnd("0x0").unwrap(), 0);
}

#[test]
fn malformed_window_ids_are_refused_with_the_integer_error() {
    let e = parse_hwnd("").unwrap_err();
    assert_eq!(e.kind, IntErrorKind::Empty);
    assert_eq!(e.message(), "Invalid native window handle '': cannot parse integer from empty string");
    let e = parse_hwnd("0x").unwrap_err();
    assert_eq!(e.kind, IntErrorKind::Empty);
    let e = parse_hwnd("0xZZ").unwrap_err();
    assert_eq!(e.kind, IntErrorKind::InvalidDigit);
    assert_eq!(e.window_id, "0xZZ");
    assert_eq!(e.message(), "Invalid native window handle '0xZZ': invalid digit found in string");
    assert_eq!(parse_hwnd("+").unwrap_err().kind, IntErrorKind::InvalidDigit);
    assert_eq!(parse_hwnd("-1").unwrap_err().kind, IntErrorKind::InvalidDigit);
    let e = parse_hwnd("0x1FFFFFFFFFFFFFFFF").unwrap_err();
    assert_eq!(e.kind, IntErrorKind::PosOverflow);
    assert_eq!(e.message(), "Invalid native window handle '0x1FFFFFFFFFFFFFFFF': number too large to fit in target type");
}

#[test]
fn handles_format_as_upper_case_ids_that_read_back() {
    assert_eq!(format_handle(0), "0x0");
    assert_eq!(format_handle(0xBEEF), "0xBEEF");
    for h in [1usize, 15, 16, 0x10203, usize::MAX] {
        assert_eq!(parse_hwnd(&format_handle(h)).unwrap(), h);
    }
}

#[test]
fn the_control_panel_and_terminals_are_left_out() {
    assert!(should_exclude_window("Mirror Windows", None));
    assert!(should_exclude_window("  mirror windows - debug", Some("app.exe")));
    assert!(!should_exclude_window("Mirror Windowsill", None));
    assert!(should_exclude_window("Build", Some(" PowerShell.exe ")));
    assert!(should_exclude_window("x", Some("WindowsTerminal.exe")));
    assert!(should_exclude_window("x", Some("cmd.exe")));
    assert!(!should_exclude_window("Notepad", Some("notepad.exe")));
    assert!(!should_exclude_window("Notepad", None));
}

#[test]
fn rectangles_become_bounds() {
    let b = bounds_from_rect(&Rect { left: -8, top: 10, right: 1912, bottom: 1050 });
    assert_eq!(b, Bounds { x: -8, y: 10, width: 1920, height: 1040 });
}

#[test]
fn the_windows_report_warns_when_elevated() {
    let p = permission_status(false);
    assert_eq!(p.platform, "windows");
    assert!(p.window_management_supported && p.input_capture_supported && p.input_dispatch_supported);
    assert!(!p.is_process_elevated);
    assert_eq!(p.warnings.len(), 3);
    assert_eq!(p.warnings[0], "Window arrangement and best-effort background input mirroring are enabled on Windows.");
    let p = permission_status(true);
    assert_eq!(p.warnings.len(), 4);
    assert!(p.warnings[3].starts_with("This control panel is currently elevated."));
}

#[test]
fn png_bytes_become_a_base64_data_url() {
    assert_eq!(png_data_url(&[]), "data:image/png;base64,");
    assert_eq!(png_data_url(b"Man"), "data:image/png;base64,TWFu");
    assert_eq!(png_data_url(&[0xff, 0x00]), "data:image/png;base64,/wA=");
}

#[test]
fn an_icon_becomes_a_png_data_url() {
    // one opaque red pixel, stored blue-green-red-alpha
    let url = icon_data_url(1, 1, &[0, 0, 255, 255]).unwrap();
    assert!(url.starts_with("data:image/png;base64,iVBORw0KGgo"));
    assert!(url.len() > "data:image/png;base64,".len() + 40);
    // the pixel order matters: a blue pixel encodes differently
    let blue = icon_data_url(1, 1, &[255, 0, 0, 255]).unwrap();
    assert_ne!(url, blue);
}

#[test]
fn an_empty_icon_is_refused_by_the_encoder() {
    assert_eq!(icon_data_url(0, 0, &[]), None);
}
