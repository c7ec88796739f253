use mirror_windows::layout_engine::{
    apply_layout, compute_layout_slots, finish_layout, layout_in_range, layout_window_ids, managed_window_ids, preview_layout,
    resolve_monitor, stack_profile, LayoutError, StackScale,
};
use mirror_windows::models::{
    Bounds, CoordinateMode, DispatchMode, LayoutMode, LayoutPreview, MonitorInfo, SessionConfig, WindowInfo,
};
use mirror_windows::platform::PlatformError;

fn config(primary: &str, targets: &[&str], mode: LayoutMode) -> SessionConfig {
    SessionConfig {
        primary_window_id: primary.to_string(),
        target_window_ids: targets.iter().map(|t| t.to_string()).collect(),
        monitor_id: None,
        layout_mode: mode,
        coordinate_mode: CoordinateMode::NormalizedClient,
        dispatch_mode: DispatchMode::Auto,
        sync_mouse_move: true,
        sync_wheel: true,
        sync_keyboard: false,
        game_mode: false,
    }
}

fn bounds(x: i32, y: i32, width: i32, height: i32) -> Bounds {
    Bounds { x, y, width, height }
}

fn monitor(id: &str, primary: bool, work_area: Bounds) -> MonitorInfo {
    MonitorInfo {
        id: id.to_string(),
        name: format!("Display {id}"),
        rect: work_area,
        work_area,
        is_primary: primary,
        dpi: 96,
    }
}

fn window(id: &str, monitor_id: Option<&str>) -> WindowInfo {
    WindowInfo {
        id: id.to_string(),
        native_handle: 1,
        title: format!("Window {id}"),
        process_name: Some("app.exe".to_string()),
        icon_data_url: None,
        pid: 42,
        monitor_id: monitor_id.map(|m| m.to_string()),
        rect: bounds(0, 0, 800, 600),
        is_visible: true,
        is_minimized: false,
    }
}

const NO_SCALE: StackScale = StackScale { max_offset_x: 0, max_offset_y: 0, min_width: 0, min_height: 0 };

#[test]
fn managed_ids_put_primary_first_and_drop_repeats() {
    let c = config("0xA", &["0xB", "0xA", "0xC", "0xB"], LayoutMode::Tile);
    assert_eq!(managed_window_ids(&c), vec!["0xA", "0xB", "0xC"]);
}

#[test]
fn stack_layout_order_places_primary_last() {
    let c = config("0xA", &["0xB", "0xC"], LayoutMode::Stack);
    assert_eq!(layout_window_ids(&c), vec!["0xB", "0xC", "0xA"]);
    let tile = config("0xA", &["0xB", "0xC"], LayoutMode::Tile);
    assert_eq!(layout_window_ids(&tile), vec!["0xA", "0xB", "0xC"]);
    let alone = config("0xA", &[], LayoutMode::Stack);
    assert_eq!(layout_window_ids(&alone), vec!["0xA"]);
}

#[test]
fn tile_slots_of_three_windows_form_a_two_by_two_grid() {
    let slots = compute_layout_slots(LayoutMode::Tile, &bounds(0, 0, 1920, 1080), 3, &NO_SCALE);
    assert_eq!(
        slots,
        vec![bounds(0, 0, 960, 540), bounds(960, 0, 960, 540), bounds(0, 540, 960, 540)]
    );
}

#[test]
fn tile_slots_round_toward_the_origin() {
    let slots = compute_layout_slots(LayoutMode::Tile, &bounds(100, 50, 1000, 700), 5, &NO_SCALE);
    assert_eq!(slots.len(), 5);
    assert_eq!(slots[0], bounds(100, 50, 333, 350));
    assert_eq!(slots[1], bounds(433, 50, 333, 350));
    assert_eq!(slots[2], bounds(766, 50, 334, 350));
    assert_eq!(slots[4], bounds(433, 400, 333, 350));
}

#[test]
fn tile_of_nothing_is_empty_and_of_one_is_the_area() {
    assert!(compute_layout_slots(LayoutMode::Tile, &bounds(0, 0, 800, 600), 0, &NO_SCALE).is_empty());
    assert_eq!(
        compute_layout_slots(LayoutMode::Tile, &bounds(5, 6, 800, 600), 1, &NO_SCALE),
        vec![bounds(5, 6, 800, 600)]
    );
}

#[test]
fn stack_profile_depends_on_the_window_count() {
    let p = stack_profile(3);
    assert_eq!((p.offset_x_percent, p.offset_y_percent, p.min_width_percent, p.min_height_percent), (28, 24, 72, 74));
    assert_eq!((p.min_step_x, p.min_step_y), (34, 28));
    let p = stack_profile(6);
    assert_eq!((p.min_step_x, p.min_step_y), (24, 20));
    let p = stack_profile(10);
    assert_eq!((p.min_step_x, p.min_step_y), (18, 15));
    let p = stack_profile(20);
    assert_eq!((p.offset_x_percent, p.min_step_x, p.min_step_y), (18, 12, 10));
}

#[test]
fn stack_slots_cascade_by_equal_steps() {
    // 1920 x 1040 with three windows: offsets 538 and 250, least size 1382 by 770.
    let scale = StackScale { max_offset_x: 538, max_offset_y: 250, min_width: 1382, min_height: 770 };
    let slots = compute_layout_slots(LayoutMode::Stack, &bounds(0, 0, 1920, 1040), 3, &scale);
    assert_eq!(
        slots,
        vec![bounds(0, 0, 1382, 790), bounds(269, 125, 1382, 790), bounds(538, 250, 1382, 790)]
    );
}

#[test]
fn stack_steps_never_fall_below_the_least_step() {
    let scale = StackScale { max_offset_x: 20, max_offset_y: 10, min_width: 100, min_height: 100 };
    let slots = compute_layout_slots(LayoutMode::Stack, &bounds(0, 0, 1000, 800), 2, &scale);
    assert_eq!(slots[1].x, 34);
    assert_eq!(slots[1].y, 28);
    assert_eq!(slots[0].width, 966);
    assert_eq!(slots[0].height, 772);
}

#[test]
fn preview_pairs_each_window_with_its_slot() {
    let c = config("0xA", &["0xB"], LayoutMode::Tile);
    let preview = preview_layout(&c, &bounds(0, 0, 1000, 500), &NO_SCALE);
    assert_eq!(preview.len(), 2);
    assert_eq!(preview[0].window_id, "0xA");
    assert_eq!(preview[0].bounds, bounds(0, 0, 500, 500));
    assert_eq!(preview[1].window_id, "0xB");
    assert_eq!(preview[1].bounds, bounds(500, 0, 500, 500));
}

#[test]
fn applying_a_layout_fails_without_window_management() {
    let c = config("0xA", &["0xB"], LayoutMode::Tile);
    let r = apply_layout(&c, &bounds(0, 0, 1000, 500), &NO_SCALE);
    assert_eq!(r, Err(PlatformError::WindowsOnly));
    assert_eq!(PlatformError::WindowsOnly.message(), "This preview build only supports Windows.");
}

#[test]
fn resolve_monitor_prefers_the_selected_monitor() {
    let mut c = config("0xA", &["0xB"], LayoutMode::Tile);
    c.monitor_id = Some("m2".to_string());
    let monitors = vec![monitor("m1", true, bounds(0, 0, 1920, 1040)), monitor("m2", false, bounds(1920, 0, 1280, 984))];
    let windows = vec![window("0xA", Some("m1"))];
    assert_eq!(resolve_monitor(&c, &monitors, &windows).unwrap().id, "m2");
}

#[test]
fn resolve_monitor_falls_back_to_the_primary_windows_monitor() {
    let mut c = config("0xA", &["0xB"], LayoutMode::Tile);
    c.monitor_id = Some("gone".to_string());
    let monitors = vec![monitor("m1", true, bounds(0, 0, 1920, 1040)), monitor("m2", false, bounds(1920, 0, 1280, 984))];
    let windows = vec![window("0xB", Some("m1")), window("0xA", Some("m2"))];
    assert_eq!(resolve_monitor(&c, &monitors, &windows).unwrap().id, "m2");
}

#[test]
fn resolve_monitor_falls_back_to_the_primary_then_the_first_monitor() {
    let c = config("0xA", &[], LayoutMode::Tile);
    let monitors = vec![monitor("m1", false, bounds(0, 0, 800, 600)), monitor("m2", true, bounds(800, 0, 800, 600))];
    assert_eq!(resolve_monitor(&c, &monitors, &vec![]).unwrap().id, "m2");
    let monitors = vec![monitor("m1", false, bounds(0, 0, 800, 600)), monitor("m2", false, bounds(800, 0, 800, 600))];
    assert_eq!(resolve_monitor(&c, &monitors, &vec![window("0xA", None)]).unwrap().id, "m1");
}

#[test]
fn resolve_monitor_without_monitors_is_an_error() {
    let c = config("0xA", &[], LayoutMode::Tile);
    let r = resolve_monitor(&c, &vec![], &vec![]);
    assert_eq!(r, Err(LayoutError::NoMonitors));
    assert_eq!(LayoutError::NoMonitors.message(), "No monitors were detected on this system.");
}

#[test]
fn tiles_fill_the_work_area_without_overlapping() {
    let area = bounds(-1920, 40, 1917, 1003);
    for count in 1..=20usize {
        let slots = compute_layout_slots(LayoutMode::Tile, &area, count, &NO_SCALE);
        assert_eq!(slots.len(), count);
        for (i, a) in slots.iter().enumerate() {
            assert!(a.width >= 1 && a.height >= 1);
            assert!(a.x >= area.x && a.x + a.width <= area.x + area.width);
            assert!(a.y >= area.y && a.y + a.height <= area.y + area.height);
            for b in slots.iter().skip(i + 1) {
                let apart = a.x + a.width <= b.x || b.x + b.width <= a.x || a.y + a.height <= b.y || b.y + b.height <= a.y;
                assert!(apart, "{a:?} overlaps {b:?} with {count} tiles");
            }
        }
    }
}

#[test]
fn layouts_are_computed_only_within_i32() {
    let area = Bounds { x: 0, y: 0, width: 1920, height: 1040 };
    let scale = StackScale { max_offset_x: 538, max_offset_y: 250, min_width: 1382, min_height: 770 };
    assert!(layout_in_range(LayoutMode::Tile, &area, 4, &scale));
    assert!(layout_in_range(LayoutMode::Stack, &area, 4, &scale));
    // two columns of the widest area overflow
    let wide = Bounds { x: 0, y: 0, width: i32::MAX, height: 1040 };
    assert!(layout_in_range(LayoutMode::Tile, &wide, 1, &scale));
    assert!(!layout_in_range(LayoutMode::Tile, &wide, 2, &scale));
    // the last stacked window would lie beyond the largest coordinate
    let far = Bounds { x: i32::MAX - 100, y: 0, width: 1920, height: 1040 };
    assert!(layout_in_range(LayoutMode::Stack, &far, 1, &scale));
    assert!(!layout_in_range(LayoutMode::Stack, &far, 4, &scale));
    let slots = compute_layout_slots(LayoutMode::Tile, &area, 4, &scale);
    assert_eq!(slots.len(), 4);
}

#[test]
fn a_layout_ends_at_the_first_window_that_cannot_be_moved() {
    let slot = Bounds { x: 0, y: 0, width: 10, height: 10 };
    let preview: Vec<LayoutPreview> = ["0xA", "0xB", "0xC"]
        .iter()
        .map(|id| LayoutPreview { window_id: id.to_string(), bounds: slot })
        .collect();
    assert_eq!(finish_layout(preview.clone(), &vec![Ok(()), Ok(()), Ok(())]), Ok(preview.clone()));
    assert_eq!(
        finish_layout(preview.clone(), &vec![Ok(()), Err(PlatformError::WindowsOnly)]),
        Err(PlatformError::WindowsOnly)
    );
    assert_eq!(finish_layout(preview, &vec![Err(PlatformError::WindowsOnly)]), Err(PlatformError::WindowsOnly));
}
