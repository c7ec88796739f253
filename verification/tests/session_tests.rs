use mirror_windows::models::{
    Bounds, CoordinateMode, DispatchMode, LayoutMode, LogLevel, MonitorInfo, SessionConfig, SessionInfo,
    WindowInfo,
};
use mirror_windows::state::{list_all_logs, push_runtime_log, AppState, RuntimeLogs, FIRST_RUNTIME_LOG_ID};
use mirror_windows::sync_session::{
    apply_layout, create_session, session_ready_to_start, sessions_to_stop, start_sync, stop_other_sessions, stop_sync,
    update_session, validate_config, SessionError,
};

fn config(primary: &str, targets: &[&str]) -> SessionConfig {
    SessionConfig {
        primary_window_id: primary.to_string(),
        target_window_ids: targets.iter().map(|t| t.to_string()).collect(),
        monitor_id: None,
        layout_mode: LayoutMode::Tile,
        coordinate_mode: CoordinateMode::NormalizedClient,
        dispatch_mode: DispatchMode::Auto,
        sync_mouse_move: true,
        sync_wheel: true,
        sync_keyboard: false,
        game_mode: false,
    }
}

fn window(id: &str) -> WindowInfo {
    WindowInfo {
        id: id.to_string(),
        native_handle: 7,
        title: format!("Window {id}"),
        process_name: None,
        icon_data_url: None,
        pid: 1,
        monitor_id: Some("m1".to_string()),
        rect: Bounds { x: 0, y: 0, width: 640, height: 480 },
        is_visible: true,
        is_minimized: false,
    }
}

fn monitors() -> Vec<MonitorInfo> {
    let area = Bounds { x: 0, y: 0, width: 1920, height: 1040 };
    vec![MonitorInfo { id: "m1".to_string(), name: "Main".to_string(), rect: area, work_area: area, is_primary: true, dpi: 96 }]
}

fn windows(ids: &[&str]) -> Vec<WindowInfo> {
    ids.iter().map(|id| window(id)).collect()
}

fn session(id: &str, updated_at_ms: u128) -> SessionInfo {
    SessionInfo {
        id: id.to_string(),
        config: config("0xA", &["0xB"]),
        is_running: false,
        layout_applied: false,
        created_at_ms: 1,
        updated_at_ms,
    }
}

#[test]
fn created_sessions_get_numbered_ids_and_a_log_line() {
    let mut state = AppState::new();
    let known = windows(&["0xA", "0xB", "0xC"]);
    let first = create_session(&mut state, config("0xA", &["0xB"]), &known, &monitors()).unwrap();
    let second = create_session(&mut state, config("0xC", &["0xB"]), &known, &monitors()).unwrap();
    assert_eq!(first.id, "session-1");
    assert_eq!(second.id, "session-2");
    assert!(!first.is_running && !first.layout_applied);
    assert_eq!(state.read_session("session-1").unwrap().config.primary_window_id, "0xA");
    let logs = state.list_logs();
    assert_eq!(logs.len(), 2);
    assert_eq!(logs[0].message, "Created session session-1.");
    assert_eq!(logs[0].level, LogLevel::Info);
    assert_eq!(logs[0].id, 1);
    assert_eq!(logs[1].message, "Created session session-2.");
}

#[test]
fn a_blank_primary_is_refused_first() {
    let mut state = AppState::new();
    let r = create_session(&mut state, config("  ", &["0xB"]), &vec![], &monitors());
    assert_eq!(r, Err(SessionError::PrimaryRequired));
    assert_eq!(SessionError::PrimaryRequired.message(), "A primary window is required.");
    assert!(state.list_sessions().is_empty());
    assert!(state.list_logs().is_empty());
}

#[test]
fn unknown_windows_and_monitors_are_refused() {
    let known = windows(&["0xA", "0xB"]);
    let r = validate_config(&config("0xZ", &["0xB"]), &known, &monitors());
    assert_eq!(r, Err(SessionError::PrimaryUnavailable));
    assert_eq!(SessionError::PrimaryUnavailable.message(), "The selected primary window is no longer available.");
    let r = validate_config(&config("0xA", &["0xB", "0xA"]), &known, &monitors());
    assert_eq!(r, Err(SessionError::PrimaryIsTarget));
    assert_eq!(SessionError::PrimaryIsTarget.message(), "Primary window cannot also be a target.");
    let r = validate_config(&config("0xA", &["0xQ", "0xA"]), &known, &monitors());
    assert_eq!(r, Err(SessionError::TargetUnavailable));
    assert_eq!(SessionError::TargetUnavailable.message(), "One or more target windows are no longer available.");
    let mut c = config("0xA", &["0xB"]);
    c.monitor_id = Some("m9".to_string());
    assert_eq!(validate_config(&c, &known, &monitors()), Err(SessionError::MonitorUnavailable));
    assert_eq!(SessionError::MonitorUnavailable.message(), "The selected monitor is no longer available.");
    c.monitor_id = Some("m1".to_string());
    assert_eq!(validate_config(&c, &known, &monitors()), Ok(()));
}

#[test]
fn at_most_twenty_windows_are_managed() {
    let ids: Vec<String> = (0..21).map(|i| format!("0x{:X}", i + 1)).collect();
    let refs: Vec<&str> = ids.iter().map(|s| s.as_str()).collect();
    let known = windows(&refs);
    let r = validate_config(&config(refs[0], &refs[1..21]), &known, &monitors());
    assert_eq!(r, Err(SessionError::TooManyWindows));
    assert_eq!(
        SessionError::TooManyWindows.message(),
        "Mirror Windows currently supports at most 20 managed windows per session."
    );
    assert_eq!(validate_config(&config(refs[0], &refs[1..20]), &known, &monitors()), Ok(()));
    // repeated targets count once
    let mut repeated: Vec<&str> = refs[1..20].to_vec();
    repeated.push(refs[1]);
    assert_eq!(validate_config(&config(refs[0], &repeated), &known, &monitors()), Ok(()));
}

#[test]
fn updating_replaces_the_configuration() {
    let mut state = AppState::new();
    let known = windows(&["0xA", "0xB", "0xC"]);
    create_session(&mut state, config("0xA", &["0xB"]), &known, &monitors()).unwrap();
    let missing = update_session(&mut state, "nope", config("0xA", &["0xC"]), &known, &monitors());
    assert_eq!(missing, Err(SessionError::SessionNotFound("nope".to_string())));
    assert_eq!(SessionError::SessionNotFound("nope".to_string()).message(), "Session 'nope' was not found.");
    let updated = update_session(&mut state, "session-1", config("0xA", &["0xC"]), &known, &monitors()).unwrap();
    assert_eq!(updated.config.target_window_ids, vec!["0xC"]);
    assert_eq!(state.read_session("session-1").unwrap().config.target_window_ids, vec!["0xC"]);
    assert_eq!(state.list_logs().last().unwrap().message, "Updated session session-1.");
    let invalid = update_session(&mut state, "session-1", config("0xA", &["0xA"]), &known, &monitors());
    assert_eq!(invalid, Err(SessionError::PrimaryIsTarget));
}

#[test]
fn applying_the_layout_marks_the_session_and_logs_the_count() {
    let mut state = AppState::new();
    let known = windows(&["0xA", "0xB"]);
    create_session(&mut state, config("0xA", &["0xB"]), &known, &monitors()).unwrap();
    let s = apply_layout(&mut state, "session-1", 2).unwrap();
    assert!(s.layout_applied);
    assert_eq!(
        state.list_logs().last().unwrap().message,
        "Applied Tile layout for 2 managed windows on session session-1."
    );
    assert_eq!(apply_layout(&mut state, "session-9", 2), Err(SessionError::SessionNotFound("session-9".to_string())));
}

#[test]
fn a_session_needs_a_target_to_start() {
    let mut state = AppState::new();
    let known = windows(&["0xA", "0xB"]);
    create_session(&mut state, config("0xA", &[]), &known, &monitors()).unwrap();
    assert_eq!(session_ready_to_start(&state, "session-1"), Err(SessionError::NoTargets));
    assert_eq!(SessionError::NoTargets.message(), "Select at least one target window before starting sync.");
    assert_eq!(
        session_ready_to_start(&state, "x"),
        Err(SessionError::SessionNotFound("x".to_string()))
    );
}

#[test]
fn starting_a_session_stops_the_others() {
    let mut state = AppState::new();
    let known = windows(&["0xA", "0xB", "0xC"]);
    create_session(&mut state, config("0xA", &["0xB"]), &known, &monitors()).unwrap();
    create_session(&mut state, config("0xC", &["0xB"]), &known, &monitors()).unwrap();
    assert!(session_ready_to_start(&state, "session-1").is_ok());
    assert_eq!(sessions_to_stop(&state, "session-1"), Vec::<String>::new());
    let first = start_sync(&mut state, "session-1", Ok(2)).unwrap();
    assert!(first.is_running && first.layout_applied);
    assert_eq!(sessions_to_stop(&state, "session-2"), vec!["session-1"]);
    assert_eq!(sessions_to_stop(&state, "session-1"), Vec::<String>::new());
    start_sync(&mut state, "session-2", Ok(2)).unwrap();
    let running: Vec<String> = state.list_sessions().into_iter().filter(|s| s.is_running).map(|s| s.id).collect();
    assert_eq!(running, vec!["session-2"]);
    let logs = state.list_logs();
    let n = logs.len();
    assert_eq!(logs[n - 2].message, "Applied Tile layout for 2 managed windows on session session-2 before starting sync.");
    assert_eq!(
        logs[n - 1].message,
        "Started live sync for session session-2. Click mirroring now runs in simplified Windows mode."
    );
}

#[test]
fn stopping_the_other_sessions_reports_them_in_order() {
    let mut state = AppState::new();
    let known = windows(&["0xA", "0xB", "0xC"]);
    create_session(&mut state, config("0xA", &["0xB"]), &known, &monitors()).unwrap();
    create_session(&mut state, config("0xC", &["0xB"]), &known, &monitors()).unwrap();
    create_session(&mut state, config("0xB", &["0xC"]), &known, &monitors()).unwrap();
    start_sync(&mut state, "session-1", Ok(2)).unwrap();
    let logs_before = state.list_logs().len();
    assert_eq!(stop_other_sessions(&mut state, "session-3"), vec!["session-1"]);
    assert!(!state.read_session("session-1").unwrap().is_running);
    assert_eq!(state.list_logs().len(), logs_before);
    assert_eq!(stop_other_sessions(&mut state, "session-3"), Vec::<String>::new());
}

#[test]
fn starting_without_targets_is_refused_and_changes_nothing() {
    let mut state = AppState::new();
    let known = windows(&["0xA", "0xB", "0xC"]);
    create_session(&mut state, config("0xA", &["0xB"]), &known, &monitors()).unwrap();
    create_session(&mut state, config("0xC", &[]), &known, &monitors()).unwrap();
    start_sync(&mut state, "session-1", Ok(2)).unwrap();
    let logs_before = state.list_logs().len();
    let e = start_sync(&mut state, "session-2", Ok(2)).unwrap_err();
    assert_eq!(e, SessionError::NoTargets);
    assert_eq!(e.message(), "Select at least one target window before starting sync.");
    // the running session keeps running and nothing is logged
    assert!(state.read_session("session-1").unwrap().is_running);
    assert!(!state.read_session("session-2").unwrap().is_running);
    assert_eq!(state.list_logs().len(), logs_before);
    let e = start_sync(&mut state, "session-7", Ok(2)).unwrap_err();
    assert_eq!(e.message(), "Session 'session-7' was not found.");
    assert!(state.read_session("session-1").unwrap().is_running);
}

#[test]
fn a_failed_launch_stops_the_others_but_leaves_the_session() {
    let mut state = AppState::new();
    let known = windows(&["0xA", "0xB", "0xC"]);
    create_session(&mut state, config("0xA", &["0xB"]), &known, &monitors()).unwrap();
    create_session(&mut state, config("0xC", &["0xB"]), &known, &monitors()).unwrap();
    start_sync(&mut state, "session-1", Ok(2)).unwrap();
    let logs_before = state.list_logs().len();
    let e = start_sync(&mut state, "session-2", Err("Live input sync is only available on Windows.".to_string()))
        .unwrap_err();
    assert_eq!(e, SessionError::StartFailed("Live input sync is only available on Windows.".to_string()));
    assert_eq!(e.message(), "Live input sync is only available on Windows.");
    assert!(!state.read_session("session-1").unwrap().is_running);
    let second = state.read_session("session-2").unwrap();
    assert!(!second.is_running && !second.layout_applied);
    assert_eq!(state.list_logs().len(), logs_before);
}

#[test]
fn stopping_a_session_clears_its_running_flag() {
    let mut state = AppState::new();
    let known = windows(&["0xA", "0xB"]);
    create_session(&mut state, config("0xA", &["0xB"]), &known, &monitors()).unwrap();
    start_sync(&mut state, "session-1", Ok(2)).unwrap();
    let s = stop_sync(&mut state, "session-1").unwrap();
    assert!(!s.is_running);
    assert!(!state.read_session("session-1").unwrap().is_running);
    assert_eq!(state.list_logs().last().unwrap().message, "Stopped session session-1.");
    assert_eq!(stop_sync(&mut state, "zzz"), Err(SessionError::SessionNotFound("zzz".to_string())));
}

#[test]
fn sessions_are_listed_most_recent_first() {
    let mut state = AppState::new();
    state.upsert_session(session("a", 5));
    state.upsert_session(session("b", 9));
    state.upsert_session(session("c", 5));
    let ids: Vec<String> = state.list_sessions().into_iter().map(|s| s.id).collect();
    assert_eq!(ids, vec!["b", "a", "c"]);
    // storing under an existing id replaces the session in place
    state.upsert_session(session("a", 12));
    let ids: Vec<String> = state.list_sessions().into_iter().map(|s| s.id).collect();
    assert_eq!(ids, vec!["a", "b", "c"]);
    assert_eq!(state.list_sessions().len(), 3);
}

#[test]
fn mutate_session_applies_the_change_to_the_stored_session() {
    let mut state = AppState::new();
    state.upsert_session(session("a", 5));
    let changed = state.mutate_session("a", |mut s: SessionInfo| {
        s.layout_applied = true;
        s
    });
    assert!(changed.unwrap().layout_applied);
    assert!(state.read_session("a").unwrap().layout_applied);
    assert!(state.mutate_session("missing", |s: SessionInfo| s).is_none());
}

#[test]
fn session_ids_keep_counting() {
    let mut state = AppState::new();
    assert_eq!(state.allocate_session_id(), "session-1");
    assert_eq!(state.allocate_session_id(), "session-2");
    assert_eq!(state.allocate_session_id(), "session-3");
}

#[test]
fn the_log_keeps_the_newest_three_hundred_entries() {
    let mut state = AppState::new();
    for i in 0..305 {
        state.push_log_entry(LogLevel::Warn, format!("entry {i}"));
    }
    let logs = state.list_logs();
    assert_eq!(logs.len(), 300);
    assert_eq!(logs[0].message, "entry 5");
    assert_eq!(logs[0].id, 6);
    assert_eq!(logs[299].message, "entry 304");
    assert_eq!(logs[299].id, 305);
    assert!(logs.windows(2).all(|w| w[0].id < w[1].id));
}

#[test]
fn all_logs_merge_session_and_runtime_lines_by_time() {
    let mut state = AppState::new();
    let mut runtime = RuntimeLogs::new();
    state.push_log_entry(LogLevel::Info, "first".to_string());
    let r = push_runtime_log(&mut runtime, LogLevel::Error, "runtime".to_string());
    assert_eq!(r.id, FIRST_RUNTIME_LOG_ID);
    state.push_log_entry(LogLevel::Info, "second".to_string());
    let all = list_all_logs(&state, &runtime);
    assert_eq!(all.len(), 3);
    for pair in all.windows(2) {
        assert!((pair[0].timestamp_ms, pair[0].id) <= (pair[1].timestamp_ms, pair[1].id));
    }
    assert!(all.iter().any(|e| e.message == "runtime" && e.level == LogLevel::Error));
}

#[test]
fn runtime_logs_are_capped_too() {
    let mut runtime = RuntimeLogs::new();
    for i in 0..310u64 {
        let e = push_runtime_log(&mut runtime, LogLevel::Info, format!("r{i}"));
        assert_eq!(e.id, FIRST_RUNTIME_LOG_ID + i);
    }
    let all = list_all_logs(&AppState::new(), &runtime);
    assert_eq!(all.len(), 300);
    assert_eq!(all[299].message, "r309");
}

