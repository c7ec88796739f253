//! Session validation and the session life cycle: create, update, lay out, start and stop.
use vstd::prelude::*;
use crate::layout_engine::{managed_ids, managed_window_ids};
use crate::models::{LayoutMode, LogLevel, MonitorInfo, MonitorInfoView, SessionConfig,
    SessionConfigView, SessionInfo, SessionInfoView, WindowInfo, WindowInfoView};
use crate::state::{appended_log, key_index_from, lookup, unix_time_ms, upserted, AppState,
    AppStateView};
use crate::text::{decimal_digits, is_blank, is_blank_str, push_decimal};
use crate::models::LogEntryView;

verus! {

broadcast use vstd::seq_lib::group_seq_properties;

/// The most windows (primary and targets) a session may manage.
pub const MAX_MANAGED_WINDOWS: usize = 20;

/// Why a session operation was refused.
#[derive(Debug, PartialEq, Eq)]
pub enum SessionError {
    PrimaryRequired,
    PrimaryUnavailable,
    PrimaryIsTarget,
    TargetUnavailable,
    TooManyWindows,
    MonitorUnavailable,
    SessionNotFound(String),
    NoTargets,
    /// Laying out the windows or starting the input sync failed with this text.
    StartFailed(String),
}

/// Abstract value of a `SessionError`.
pub enum SessionErrorView {
    PrimaryRequired,
    PrimaryUnavailable,
    PrimaryIsTarget,
    TargetUnavailable,
    TooManyWindows,
    MonitorUnavailable,
    SessionNotFound(Seq<char>),
    NoTargets,
    StartFailed(Seq<char>),
}

impl View for SessionError {
    type V = SessionErrorView;

    open spec fn view(&self) -> SessionErrorView {
        match self {
            SessionError::PrimaryRequired => SessionErrorView::PrimaryRequired,
            SessionError::PrimaryUnavailable => SessionErrorView::PrimaryUnavailable,
            SessionError::PrimaryIsTarget => SessionErrorView::PrimaryIsTarget,
            SessionError::TargetUnavailable => SessionErrorView::TargetUnavailable,
            SessionError::TooManyWindows => SessionErrorView::TooManyWindows,
            SessionError::MonitorUnavailable => SessionErrorView::MonitorUnavailable,
            SessionError::SessionNotFound(id) => SessionErrorView::SessionNotFound(id@),
            SessionError::NoTargets => SessionErrorView::NoTargets,
            SessionError::StartFailed(e) => SessionErrorView::StartFailed(e@),
        }
    }
}

/// The text shown for each error.
pub open spec fn session_error_text(e: SessionErrorView) -> Seq<char> {
    match e {
        SessionErrorView::PrimaryRequired => "A primary window is required."@,
        SessionErrorView::PrimaryUnavailable => "The selected primary window is no longer available."@,
        SessionErrorView::PrimaryIsTarget => "Primary window cannot also be a target."@,
        SessionErrorView::TargetUnavailable => "One or more target windows are no longer available."@,
        SessionErrorView::TooManyWindows =>
            "Mirror Windows currently supports at most 20 managed windows per session."@,
        SessionErrorView::MonitorUnavailable => "The selected monitor is no longer available."@,
        SessionErrorView::SessionNotFound(id) => "Session '"@ + id + "' was not found."@,
        SessionErrorView::NoTargets => "Select at least one target window before starting sync."@,
        SessionErrorView::StartFailed(e) => e,
    }
}

impl SessionError {
    /// The text shown for this error.
    pub fn message(&self) -> (m: String)
        ensures
            m@ == session_error_text(self@),
    {
        match self {
            SessionError::PrimaryRequired => "A primary window is required.".to_owned(),
            SessionError::PrimaryUnavailable => "The selected primary window is no longer available.".to_owned(),
            SessionError::PrimaryIsTarget => "Primary window cannot also be a target.".to_owned(),
            SessionError::TargetUnavailable => "One or more target windows are no longer available.".to_owned(),
            SessionError::TooManyWindows =>
                "Mirror Windows currently supports at most 20 managed windows per session.".to_owned(),
            SessionError::MonitorUnavailable => "The selected monitor is no longer available.".to_owned(),
            SessionError::SessionNotFound(id) => {
                let mut m = "Session '".to_owned();
                m.append(id.as_str());
                m.append("' was not found.");
                m
            },
            SessionError::NoTargets => "Select at least one target window before starting sync.".to_owned(),
            SessionError::StartFailed(e) => e.clone(),
        }
    }
}

/// The ids of the listed windows.
pub open spec fn window_ids(windows: Seq<WindowInfoView>) -> Seq<Seq<char>> {
    windows.map_values(|w: WindowInfoView| w.id)
}

/// The ids of the listed monitors.
pub open spec fn monitor_ids(monitors: Seq<MonitorInfoView>) -> Seq<Seq<char>> {
    monitors.map_values(|m: MonitorInfoView| m.id)
}

/// The first target, from position `k`, that is the primary window or is not listed.
pub open spec fn target_error_from(config: SessionConfigView, known: Seq<Seq<char>>, k: int) -> Option<
    SessionErrorView,
>
    decreases config.target_window_ids.len() - k,
{
    if k < 0 || k >= config.target_window_ids.len() {
        None
    } else if config.target_window_ids[k] == config.primary_window_id {
        Some(SessionErrorView::PrimaryIsTarget)
    } else if !known.contains(config.target_window_ids[k]) {
        Some(SessionErrorView::TargetUnavailable)
    } else {
        target_error_from(config, known, k + 1)
    }
}

/// The checks of a configuration against the listed windows, in order: a primary window is
/// named, it is listed, no target is the primary or unlisted, and at most
/// `MAX_MANAGED_WINDOWS` windows are managed.
pub open spec fn windows_check(config: SessionConfigView, windows: Seq<WindowInfoView>) -> Option<
    SessionErrorView,
> {
    if is_blank(config.primary_window_id) {
        Some(SessionErrorView::PrimaryRequired)
    } else if !window_ids(windows).contains(config.primary_window_id) {
        Some(SessionErrorView::PrimaryUnavailable)
    } else if target_error_from(config, window_ids(windows), 0) is Some {
        target_error_from(config, window_ids(windows), 0)
    } else if managed_ids(config).len() > MAX_MANAGED_WINDOWS {
        Some(SessionErrorView::TooManyWindows)
    } else {
        None
    }
}

/// The check of a configuration's selected monitor against the listed monitors.
pub open spec fn monitor_check(config: SessionConfigView, monitors: Seq<MonitorInfoView>) -> Option<
    SessionErrorView,
> {
    match config.monitor_id {
        Some(m) => if monitor_ids(monitors).contains(m) {
            None
        } else {
            Some(SessionErrorView::MonitorUnavailable)
        },
        None => None,
    }
}

/// The first failed check of a configuration, or `None` when it is valid.
pub open spec fn config_check(config: SessionConfigView, windows: Seq<WindowInfoView>,
    monitors: Seq<MonitorInfoView>) -> Option<SessionErrorView> {
    if windows_check(config, windows) is Some {
        windows_check(config, windows)
    } else {
        monitor_check(config, monitors)
    }
}

/// A configuration that passes the checks names a listed primary window, lists only listed
/// targets other than the primary, manages at most `MAX_MANAGED_WINDOWS` windows, and selects
/// no monitor or a listed one.
pub proof fn lemma_valid_config(config: SessionConfigView, windows: Seq<WindowInfoView>,
    monitors: Seq<MonitorInfoView>)
    requires
        config_check(config, windows, monitors) is None,
    ensures
        !is_blank(config.primary_window_id),
        window_ids(windows).contains(config.primary_window_id),
        forall|i: int| 0 <= i < config.target_window_ids.len() ==> #[trigger] config.target_window_ids[i]
            != config.primary_window_id && window_ids(windows).contains(config.target_window_ids[i]),
        managed_ids(config).len() <= MAX_MANAGED_WINDOWS,
        config.monitor_id matches Some(m) ==> monitor_ids(monitors).contains(m),
{
    assert forall|i: int| 0 <= i < config.target_window_ids.len() implies #[trigger] config.target_window_ids[i]
        != config.primary_window_id && window_ids(windows).contains(config.target_window_ids[i]) by {
        lemma_no_target_error(config, window_ids(windows), 0, i);
    }
}

proof fn lemma_no_target_error(config: SessionConfigView, known: Seq<Seq<char>>, k: int, i: int)
    requires
        0 <= k <= i < config.target_window_ids.len(),
        target_error_from(config, known, k) is None,
    ensures
        config.target_window_ids[i] != config.primary_window_id && known.contains(config.target_window_ids[i]),
    decreases i - k,
{
    if k < i {
        lemma_no_target_error(config, known, k + 1, i);
    }
}

/// `r` is `Ok` exactly when `check` found nothing, else the error found.
pub open spec fn check_result(r: Result<(), SessionError>, check: Option<SessionErrorView>) -> bool {
    match check {
        None => r is Ok,
        Some(e) => r matches Err(x) && x@ == e,
    }
}

fn id_listed(windows: &Vec<WindowInfo>, id: &String) -> (b: bool)
    ensures
        b == window_ids(windows.deep_view()).contains(id@),
{
    let ghost ids = window_ids(windows.deep_view());
    let mut i: usize = 0;
    while i < windows.len()
        invariant
            ids == window_ids(windows.deep_view()),
            i <= windows@.len(),
            forall|j: int| 0 <= j < i ==> ids[j] != id@,
        decreases windows@.len() - i,
    {
        assert(ids[i as int] == windows@[i as int]@.id);
        if windows[i].id == *id {
            return true;
        }
        i = i + 1;
    }
    false
}

fn monitor_listed(monitors: &Vec<MonitorInfo>, id: &String) -> (b: bool)
    ensures
        b == monitor_ids(monitors.deep_view()).contains(id@),
{
    let ghost ids = monitor_ids(monitors.deep_view());
    let mut i: usize = 0;
    while i < monitors.len()
        invariant
            ids == monitor_ids(monitors.deep_view()),
            i <= monitors@.len(),
            forall|j: int| 0 <= j < i ==> ids[j] != id@,
        decreases monitors@.len() - i,
    {
        assert(ids[i as int] == monitors@[i as int]@.id);
        if monitors[i].id == *id {
            return true;
        }
        i = i + 1;
    }
    false
}

/// Checks that a primary window is named.
pub fn check_primary_present(config: &SessionConfig) -> (r: Result<(), SessionError>)
    ensures
        r is Ok <==> !is_blank(config@.primary_window_id),
        r matches Err(e) ==> e == SessionError::PrimaryRequired,
{
    if is_blank_str(config.primary_window_id.as_str()) {
        Err(SessionError::PrimaryRequired)
    } else {
        Ok(())
    }
}

/// Checks a configuration against the listed windows.
pub fn validate_windows(config: &SessionConfig, windows: &Vec<WindowInfo>) -> (r: Result<(), SessionError>)
    ensures
        check_result(r, windows_check(config@, windows.deep_view())),
{
    if is_blank_str(config.primary_window_id.as_str()) {
        return Err(SessionError::PrimaryRequired);
    }
    if !id_listed(windows, &config.primary_window_id) {
        return Err(SessionError::PrimaryUnavailable);
    }
    let ghost known = window_ids(windows.deep_view());
    let mut i: usize = 0;
    while i < config.target_window_ids.len()
        invariant
            known == window_ids(windows.deep_view()),
            !is_blank(config@.primary_window_id),
            known.contains(config@.primary_window_id),
            i <= config.target_window_ids@.len(),
            target_error_from(config@, known, 0) == target_error_from(config@, known, i as int),
        decreases config.target_window_ids@.len() - i,
    {
        let target = &config.target_window_ids[i];
        assert(config@.target_window_ids[i as int] == target@);
        if *target == config.primary_window_id {
            return Err(SessionError::PrimaryIsTarget);
        }
        if !id_listed(windows, target) {
            return Err(SessionError::TargetUnavailable);
        }
        i = i + 1;
    }
    let managed = managed_window_ids(config);
    if managed.len() > MAX_MANAGED_WINDOWS {
        return Err(SessionError::TooManyWindows);
    }
    Ok(())
}

/// Checks a configuration's selected monitor against the listed monitors.
pub fn validate_monitor(config: &SessionConfig, monitors: &Vec<MonitorInfo>) -> (r: Result<(), SessionError>)
    ensures
        check_result(r, monitor_check(config@, monitors.deep_view())),
{
    match &config.monitor_id {
        Some(id) => if monitor_listed(monitors, id) {
            Ok(())
        } else {
            Err(SessionError::MonitorUnavailable)
        },
        None => Ok(()),
    }
}

/// Checks a configuration against the listed windows and monitors; the first failed check
/// decides the error.
pub fn validate_config(config: &SessionConfig, windows: &Vec<WindowInfo>, monitors: &Vec<MonitorInfo>)
    -> (r: Result<(), SessionError>)
    ensures
        check_result(r, config_check(config@, windows.deep_view(), monitors.deep_view())),
{
    validate_windows(config, windows)?;
    validate_monitor(config, monitors)
}


/// `after` differs from `before` in its log by one appended entry with the next log id,
/// `level` and `message` (at some time).
pub open spec fn logged(before: AppStateView, after: AppStateView, level: LogLevel, message: Seq<char>) -> bool {
    &&& after.next_log_id == before.next_log_id.wrapping_add(1)
    &&& exists|ts: u128| after.logs == appended_log(before.logs, LogEntryView {
        id: before.next_log_id,
        level,
        message,
        timestamp_ms: ts,
    })
}

/// `after` differs from `before` by two appended log entries, both `Info`.
pub open spec fn logged_twice(before: AppStateView, after: AppStateView, first: Seq<char>, second: Seq<char>) -> bool {
    exists|mid: AppStateView| #[trigger] logged(before, mid, LogLevel::Info, first) && logged(mid, after, LogLevel::Info, second)
}

/// The id given to the next created session.
pub open spec fn next_session_id_text(state: AppStateView) -> Seq<char> {
    "session-"@ + decimal_digits(state.next_session_id as nat)
}

/// Log text of a created session.
pub open spec fn created_text(id: Seq<char>) -> Seq<char> {
    "Created session "@ + id + "."@
}

/// Log text of an updated session.
pub open spec fn updated_text(id: Seq<char>) -> Seq<char> {
    "Updated session "@ + id + "."@
}

/// Name of a layout mode in log text.
pub open spec fn layout_mode_text(mode: LayoutMode) -> Seq<char> {
    match mode {
        LayoutMode::Tile => "Tile"@,
        LayoutMode::Stack => "Stack"@,
    }
}

/// Log text of an applied layout.
pub open spec fn layout_text(mode: LayoutMode, count: nat, id: Seq<char>) -> Seq<char> {
    "Applied "@ + layout_mode_text(mode) + " layout for "@ + decimal_digits(count) + " managed windows on session "@ + id + "."@
}

/// Log text of a layout applied when sync starts.
pub open spec fn sync_layout_text(mode: LayoutMode, count: nat, id: Seq<char>) -> Seq<char> {
    "Applied "@ + layout_mode_text(mode) + " layout for "@ + decimal_digits(count) + " managed windows on session "@ + id + " before starting sync."@
}

/// Log text of a started sync.
pub open spec fn started_text(id: Seq<char>) -> Seq<char> {
    "Started live sync for session "@ + id + ". Click mirroring now runs in simplified Windows mode."@
}

/// Log text of a stopped session.
pub open spec fn stopped_text(id: Seq<char>) -> Seq<char> {
    "Stopped session "@ + id + "."@
}

/// A new session: the configuration, not running and not laid out.
pub open spec fn new_session(id: Seq<char>, config: SessionConfigView, created: u128, updated: u128) -> SessionInfoView {
    SessionInfoView { id, config, is_running: false, layout_applied: false, created_at_ms: created, updated_at_ms: updated }
}

/// `s` with a new configuration, updated at `now`.
pub open spec fn with_config(s: SessionInfoView, config: SessionConfigView, now: u128) -> SessionInfoView {
    SessionInfoView { config, updated_at_ms: now, ..s }
}

/// `s` laid out, updated at `now`.
pub open spec fn with_layout_applied(s: SessionInfoView, now: u128) -> SessionInfoView {
    SessionInfoView { layout_applied: true, updated_at_ms: now, ..s }
}

/// `s` laid out and running, updated at `now`.
pub open spec fn with_sync_started(s: SessionInfoView, now: u128) -> SessionInfoView {
    SessionInfoView { layout_applied: true, is_running: true, updated_at_ms: now, ..s }
}

/// `s` not running, updated at `now`.
pub open spec fn with_sync_stopped(s: SessionInfoView, now: u128) -> SessionInfoView {
    SessionInfoView { is_running: false, updated_at_ms: now, ..s }
}

/// Appends the log entry `message` at `level` to the state log.
fn log_line(state: &mut AppState, level: LogLevel, message: String)
    ensures
        logged(old(state)@, final(state)@, level, message@),
        final(state)@.sessions == old(state)@.sessions,
        final(state)@.next_session_id == old(state)@.next_session_id,
{
    let entry = state.push_log_entry(level, message);
    assert(final(state)@.logs == appended_log(old(state)@.logs, LogEntryView {
        id: old(state)@.next_log_id,
        level,
        message: message@,
        timestamp_ms: entry.timestamp_ms,
    }));
}

/// The first line logged when the control panel starts.
pub open spec fn shell_ready_text() -> Seq<char> {
    "Mirror Windows shell ready. Window enumeration, layout control, and live Windows input sync are enabled."@
}

/// The warning logged when the control panel starts.
pub open spec fn best_effort_text() -> Seq<char> {
    "Background mouse and keyboard mirroring now run best-effort through Windows hooks plus message dispatch. Browser, Electron, IME, and custom-rendered targets can still behave differently."@
}

/// The warning logged at start when the control panel runs elevated.
pub open spec fn elevated_start_text() -> Seq<char> {
    "The control panel is running elevated. Future input replay will only be compatible with elevated target apps at the same integrity level."@
}

/// Logs the start of the control panel: that it is ready, that mirroring is best-effort,
/// and, when the process runs elevated, what that means for replay.
pub fn record_startup(state: &mut AppState, elevated: bool)
    ensures
        final(state)@.sessions == old(state)@.sessions,
        final(state)@.next_session_id == old(state)@.next_session_id,
        exists|mid: AppStateView, mid2: AppStateView| {
            &&& #[trigger] logged(old(state)@, mid, LogLevel::Info, shell_ready_text())
            &&& #[trigger] logged(mid, mid2, LogLevel::Warn, best_effort_text())
            &&& if elevated {
                logged(mid2, final(state)@, LogLevel::Warn, elevated_start_text())
            } else {
                final(state)@ == mid2
            }
        },
{
    let ghost before = state@;
    log_line(state, LogLevel::Info,
        "Mirror Windows shell ready. Window enumeration, layout control, and live Windows input sync are enabled.".to_owned());
    let ghost mid = state@;
    log_line(state, LogLevel::Warn,
        "Background mouse and keyboard mirroring now run best-effort through Windows hooks plus message dispatch. Browser, Electron, IME, and custom-rendered targets can still behave differently.".to_owned());
    let ghost mid2 = state@;
    if elevated {
        log_line(state, LogLevel::Warn,
            "The control panel is running elevated. Future input replay will only be compatible with elevated target apps at the same integrity level.".to_owned());
    }
    assert(logged(before, mid, LogLevel::Info, shell_ready_text()) && logged(mid, mid2, LogLevel::Warn, best_effort_text()));
}

/// Validates `config` and stores it as a new session with the next session id.
pub fn create_session(state: &mut AppState, config: SessionConfig, windows: &Vec<WindowInfo>,
    monitors: &Vec<MonitorInfo>) -> (r: Result<SessionInfo, SessionError>)
    ensures
        match config_check(config@, windows.deep_view(), monitors.deep_view()) {
            Some(e) => r matches Err(x) && x@ == e && final(state)@ == old(state)@,
            None => r matches Ok(s) && {
                let id = next_session_id_text(old(state)@);
                &&& s@ == new_session(id, config@, s@.created_at_ms, s@.updated_at_ms)
                &&& final(state)@.next_session_id == old(state)@.next_session_id.wrapping_add(1)
                &&& final(state)@.sessions == upserted(old(state)@.sessions, id, s@)
                &&& logged(old(state)@, final(state)@, LogLevel::Info, created_text(id))
            },
        },
{
    match validate_config(&config, windows, monitors) {
        Err(e) => return Err(e),
        Ok(()) => {},
    }
    let id = state.allocate_session_id();
    let session = SessionInfo {
        id,
        config,
        is_running: false,
        layout_applied: false,
        created_at_ms: unix_time_ms(),
        updated_at_ms: unix_time_ms(),
    };
    state.upsert_session(session.clone());
    let mut message = "Created session ".to_owned();
    message.append(session.id.as_str());
    message.append(".");
    log_line(state, LogLevel::Info, message);
    Ok(session)
}

/// Validates `config` and makes it the configuration of the session stored under `session_id`.
pub fn update_session(state: &mut AppState, session_id: &str, config: SessionConfig,
    windows: &Vec<WindowInfo>, monitors: &Vec<MonitorInfo>) -> (r: Result<SessionInfo, SessionError>)
    ensures
        match config_check(config@, windows.deep_view(), monitors.deep_view()) {
            Some(e) => r matches Err(x) && x@ == e && final(state)@ == old(state)@,
            None => match key_index_from(old(state)@.sessions, session_id@, 0) {
                None => r matches Err(x) && x@ == SessionErrorView::SessionNotFound(session_id@)
                    && final(state)@ == old(state)@,
                Some(i) => r matches Ok(s) && {
                    &&& s@ == with_config(old(state)@.sessions[i].1, config@, s@.updated_at_ms)
                    &&& final(state)@.sessions == old(state)@.sessions.update(i, (session_id@, s@))
                    &&& final(state)@.next_session_id == old(state)@.next_session_id
                    &&& logged(old(state)@, final(state)@, LogLevel::Info, updated_text(s@.id))
                },
            },
        },
{
    match validate_config(&config, windows, monitors) {
        Err(e) => return Err(e),
        Ok(()) => {},
    }
    let now = unix_time_ms();
    let ghost c = config@;
    let updated = state.mutate_session(session_id, move |s: SessionInfo| -> (r: SessionInfo)
        ensures
            r@ == with_config(s@, c, now),
        { SessionInfo { config, updated_at_ms: now, ..s } });
    match updated {
        None => Err(SessionError::SessionNotFound(session_id.to_owned())),
        Some(s) => {
            let mut message = "Updated session ".to_owned();
            message.append(s.id.as_str());
            message.append(".");
            log_line(state, LogLevel::Info, message);
            Ok(s)
        },
    }
}


/// Records that the layout of `window_count` managed windows was applied to the session
/// stored under `session_id`.
pub fn apply_layout(state: &mut AppState, session_id: &str, window_count: usize) -> (r: Result<
    SessionInfo,
    SessionError,
>)
    ensures
        match key_index_from(old(state)@.sessions, session_id@, 0) {
            None => r matches Err(x) && x@ == SessionErrorView::SessionNotFound(session_id@)
                && final(state)@ == old(state)@,
            Some(i) => r matches Ok(s) && {
                &&& s@ == with_layout_applied(old(state)@.sessions[i].1, s@.updated_at_ms)
                &&& final(state)@.sessions == old(state)@.sessions.update(i, (session_id@, s@))
                &&& final(state)@.next_session_id == old(state)@.next_session_id
                &&& logged(old(state)@, final(state)@, LogLevel::Info, layout_text(s@.config.layout_mode,
                    window_count as nat, s@.id))
            },
        },
{
    let now = unix_time_ms();
    let updated = state.mutate_session(session_id, move |s: SessionInfo| -> (r: SessionInfo)
        ensures
            r@ == with_layout_applied(s@, now),
        { SessionInfo { layout_applied: true, updated_at_ms: now, ..s } });
    match updated {
        None => Err(SessionError::SessionNotFound(session_id.to_owned())),
        Some(s) => {
            let message = layout_message(s.config.layout_mode, window_count, &s.id, false);
            log_line(state, LogLevel::Info, message);
            Ok(s)
        },
    }
}

/// `Applied <mode> layout for <count> managed windows on session <id>` followed by `suffix`
/// and a full stop.
fn layout_message(mode: LayoutMode, count: usize, id: &String, before_sync: bool) -> (m: String)
    ensures
        before_sync ==> m@ == sync_layout_text(mode, count as nat, id@),
        !before_sync ==> m@ == layout_text(mode, count as nat, id@),
{
    let mut m = "Applied ".to_owned();
    match mode {
        LayoutMode::Tile => m.append("Tile"),
        LayoutMode::Stack => m.append("Stack"),
    }
    m.append(" layout for ");
    push_decimal(&mut m, count as u128);
    m.append(" managed windows on session ");
    m.append(id.as_str());
    if before_sync {
        m.append(" before starting sync.");
    } else {
        m.append(".");
    }
    m
}

/// The session stored under `session_id` when it can start syncing: it exists and has at
/// least one target window.
pub fn session_ready_to_start(state: &AppState, session_id: &str) -> (r: Result<SessionInfo, SessionError>)
    ensures
        match lookup(state@.sessions, session_id@) {
            None => r matches Err(x) && x@ == SessionErrorView::SessionNotFound(session_id@),
            Some(s) => if s.config.target_window_ids.len() == 0 {
                r matches Err(x) && x@ == SessionErrorView::NoTargets
            } else {
                r matches Ok(v) && v@ == s
            },
        },
        crate::state::distinct_keys(state@.sessions),
        crate::state::keys_match(state@.sessions),
{
    match state.read_session(session_id) {
        None => Err(SessionError::SessionNotFound(session_id.to_owned())),
        Some(s) => {
            if s.config.target_window_ids.len() == 0 {
                Err(SessionError::NoTargets)
            } else {
                Ok(s)
            }
        },
    }
}

/// Whether the sync of `s` is stopped when the session `session_id` starts.
pub open spec fn stopped_by_start(s: SessionInfoView, session_id: Seq<char>) -> bool {
    s.is_running && s.id != session_id
}

/// `after` is `before` with every running session other than `session_id` stopped (each at
/// some time).
pub open spec fn others_stopped(before: Seq<(Seq<char>, SessionInfoView)>, after: Seq<(Seq<char>, SessionInfoView)>,
    session_id: Seq<char>) -> bool {
    &&& after.len() == before.len()
    &&& forall|j: int| 0 <= j < before.len() ==> after[j].0 == before[j].0 && (if stopped_by_start(
        before[j].1,
        session_id,
    ) {
        after[j].1 == with_sync_stopped(before[j].1, after[j].1.updated_at_ms)
    } else {
        after[j].1 == before[j].1
    })
}

/// The ids of the first `n` sessions that starting `session_id` stops, in storage order.
pub open spec fn stopped_ids(entries: Seq<(Seq<char>, SessionInfoView)>, session_id: Seq<char>, n: nat) -> Seq<
    Seq<char>,
>
    decreases n,
{
    if n == 0 {
        Seq::empty()
    } else {
        let rest = stopped_ids(entries, session_id, (n - 1) as nat);
        if stopped_by_start(entries[n - 1].1, session_id) {
            rest.push(entries[n - 1].1.id)
        } else {
            rest
        }
    }
}

/// The ids of the running sessions other than `session_id`, in storage order: the sessions
/// whose input sync stops when `session_id` starts.
pub fn sessions_to_stop(state: &AppState, session_id: &str) -> (ids: Vec<String>)
    ensures
        ids.deep_view() == stopped_ids(state@.sessions, session_id@, state@.sessions.len()),
{
    let keys = state.session_keys();
    let own_id = session_id.to_owned();
    assert(keys.deep_view().len() == keys@.len());
    let mut ids: Vec<String> = Vec::new();
    let mut k: usize = 0;
    while k < keys.len()
        invariant
            keys.deep_view() == state@.sessions.map_values(|e: (Seq<char>, SessionInfoView)| e.0),
            crate::state::distinct_keys(state@.sessions),
            keys@.len() == state@.sessions.len(),
            own_id@ == session_id@,
            k <= keys@.len(),
            ids.deep_view() == stopped_ids(state@.sessions, session_id@, k as nat),
        decreases keys@.len() - k,
    {
        let key = &keys[k];
        assert(keys.deep_view()[k as int] == keys@[k as int]@);
        assert(key@ == state@.sessions[k as int].0);
        proof {
            crate::state::lemma_key_index_of(state@.sessions, k as int);
        }
        match state.read_session(key.as_str()) {
            Some(s) => {
                assert(s@ == state@.sessions[k as int].1);
                if s.is_running && !(s.id == own_id) {
                    ids.push(s.id);
                    assert(ids.deep_view() =~= stopped_ids(state@.sessions, session_id@, k as nat).push(
                        state@.sessions[k as int].1.id));
                }
            },
            None => {},
        }
        k = k + 1;
    }
    ids
}

/// Marks every running session other than `session_id` as stopped and returns their ids, so
/// that their input sync can be stopped.
pub fn stop_other_sessions(state: &mut AppState, session_id: &str) -> (stopped: Vec<String>)
    ensures
        others_stopped(old(state)@.sessions, final(state)@.sessions, session_id@),
        stopped.deep_view() == stopped_ids(old(state)@.sessions, session_id@, old(state)@.sessions.len()),
        final(state)@.logs == old(state)@.logs,
        final(state)@.next_log_id == old(state)@.next_log_id,
        final(state)@.next_session_id == old(state)@.next_session_id,
{
    let keys = state.session_keys();
    let own_id = session_id.to_owned();
    let ghost before = state@;
    assert(keys.deep_view().len() == keys@.len());
    let mut stopped: Vec<String> = Vec::new();
    let mut k: usize = 0;
    while k < keys.len()
        invariant
            keys.deep_view() == before.sessions.map_values(|e: (Seq<char>, SessionInfoView)| e.0),
            crate::state::distinct_keys(before.sessions),
            crate::state::distinct_keys(state@.sessions),
            keys@.len() == before.sessions.len(),
            own_id@ == session_id@,
            k <= keys@.len(),
            state@.sessions.len() == before.sessions.len(),
            state@.logs == before.logs,
            state@.next_log_id == before.next_log_id,
            state@.next_session_id == before.next_session_id,
            forall|j: int| 0 <= j < before.sessions.len() ==> state@.sessions[j].0 == before.sessions[j].0,
            stopped.deep_view() == stopped_ids(before.sessions, session_id@, k as nat),
            forall|j: int| k <= j < before.sessions.len() ==> state@.sessions[j] == before.sessions[j],
            forall|j: int| 0 <= j < k ==> (if stopped_by_start(before.sessions[j].1, session_id@) {
                state@.sessions[j].1 == with_sync_stopped(before.sessions[j].1, state@.sessions[j].1.updated_at_ms)
            } else {
                state@.sessions[j].1 == before.sessions[j].1
            }),
        decreases keys@.len() - k,
    {
        let key = &keys[k];
        assert(keys.deep_view()[k as int] == keys@[k as int]@);
        assert(key@ == before.sessions[k as int].0);
        proof {
            crate::state::lemma_key_index_of(state@.sessions, k as int);
        }
        let ghost mid = state@;
        match state.read_session(key.as_str()) {
            Some(s) => {
                assert(s@ == before.sessions[k as int].1);
                if s.is_running && !(s.id == own_id) {
                    let now = unix_time_ms();
                    let _ = state.mutate_session(key.as_str(), move |v: SessionInfo| -> (r: SessionInfo)
                        ensures
                            r@ == with_sync_stopped(v@, now),
                        { SessionInfo { is_running: false, updated_at_ms: now, ..v } });
                    assert(state@.sessions == mid.sessions.update(k as int, (key@, state@.sessions[k as int].1)));
                    assert(state@.sessions[k as int].1 == with_sync_stopped(before.sessions[k as int].1, now));
                    stopped.push(s.id);
                    assert(stopped.deep_view() =~= stopped_ids(before.sessions, session_id@, k as nat).push(
                        before.sessions[k as int].1.id));
                } else {
                    assert(own_id@ == session_id@);
                    assert(!s.is_running || s.id@ == own_id@);
                    assert(!stopped_by_start(before.sessions[k as int].1, session_id@));
                }
            },
            None => {},
        }
        k = k + 1;
    }
    stopped
}


/// The sessions of `before` with the same keys in the same places as in `after`.
pub open spec fn same_keys(before: Seq<(Seq<char>, SessionInfoView)>, after: Seq<(Seq<char>, SessionInfoView)>) -> bool {
    &&& after.len() == before.len()
    &&& forall|j: int| 0 <= j < before.len() ==> #[trigger] after[j].0 == before[j].0
}

proof fn lemma_same_keys_index(before: Seq<(Seq<char>, SessionInfoView)>, after: Seq<(Seq<char>, SessionInfoView)>,
    key: Seq<char>, k: int)
    requires
        same_keys(before, after),
    ensures
        key_index_from(after, key, k) == key_index_from(before, key, k),
    decreases before.len() - k,
{
    if 0 <= k < before.len() {
        assert(after[k].0 == before[k].0);
        lemma_same_keys_index(before, after, key, k + 1);
    }
}

/// Starts input sync of the session stored under `session_id`. A session that is not stored,
/// or has no target window, is refused and nothing changes. Otherwise every other running
/// session is stopped first; then `launch` tells how laying out the managed windows and
/// starting the input sync went: the number of windows laid out, or the error text. On an
/// error the session itself stays as it was and nothing is logged; on success it is marked
/// laid out and running, it is then the only running session, and the layout and the start
/// are logged.
pub fn start_sync(state: &mut AppState, session_id: &str, launch: Result<usize, String>) -> (r: Result<
    SessionInfo,
    SessionError,
>)
    ensures
        match key_index_from(old(state)@.sessions, session_id@, 0) {
            None => r matches Err(x) && x@ == SessionErrorView::SessionNotFound(session_id@)
                && final(state)@ == old(state)@,
            Some(i) => if old(state)@.sessions[i].1.config.target_window_ids.len() == 0 {
                r matches Err(x) && x@ == SessionErrorView::NoTargets && final(state)@ == old(state)@
            } else {
                exists|mid: Seq<(Seq<char>, SessionInfoView)>| {
                    &&& #[trigger] others_stopped(old(state)@.sessions, mid, session_id@)
                    &&& final(state)@.next_session_id == old(state)@.next_session_id
                    &&& match launch {
                        Err(e) => {
                            &&& r matches Err(x) && x@ == SessionErrorView::StartFailed(e@)
                            &&& final(state)@.sessions == mid
                            &&& final(state)@.logs == old(state)@.logs
                            &&& final(state)@.next_log_id == old(state)@.next_log_id
                        },
                        Ok(window_count) => r matches Ok(s) && {
                            &&& s@ == with_sync_started(mid[i].1, s@.updated_at_ms)
                            &&& final(state)@.sessions == mid.update(i, (session_id@, s@))
                            &&& logged_twice(old(state)@, final(state)@, sync_layout_text(s@.config.layout_mode,
                                window_count as nat, s@.id), started_text(s@.id))
                            &&& forall|j: int| 0 <= j < final(state)@.sessions.len() ==> (
                                #[trigger] final(state)@.sessions[j].1.is_running <==> final(state)@.sessions[j].1.id
                                    == session_id@)
                        },
                    }
                }
            },
        },
{
    proof {
        crate::state::lemma_key_index_from(state@.sessions, session_id@, 0);
    }
    match session_ready_to_start(state, session_id) {
        Err(e) => return Err(e),
        Ok(_) => {},
    }
    let ghost before = state@;
    let _ = stop_other_sessions(state, session_id);
    let ghost mid = state@;
    proof {
        assert(same_keys(before.sessions, mid.sessions)) by {
            assert forall|j: int| 0 <= j < before.sessions.len() implies #[trigger] mid.sessions[j].0
                == before.sessions[j].0 by {}
        }
        lemma_same_keys_index(before.sessions, mid.sessions, session_id@, 0);
    }
    let window_count = match launch {
        Err(e) => {
            assert(others_stopped(before.sessions, state@.sessions, session_id@));
            return Err(SessionError::StartFailed(e));
        },
        Ok(n) => n,
    };
    let now = unix_time_ms();
    let updated = state.mutate_session(session_id, move |s: SessionInfo| -> (r: SessionInfo)
        ensures
            r@ == with_sync_started(s@, now),
        { SessionInfo { layout_applied: true, is_running: true, updated_at_ms: now, ..s } });
    match updated {
        None => Err(SessionError::SessionNotFound(session_id.to_owned())),
        Some(s) => {
            log_line(state, LogLevel::Info, layout_message(s.config.layout_mode, window_count, &s.id, true));
            let ghost after_first = state@;
            let mut message = "Started live sync for session ".to_owned();
            message.append(s.id.as_str());
            message.append(". Click mirroring now runs in simplified Windows mode.");
            log_line(state, LogLevel::Info, message);
            assert(logged(before, after_first, LogLevel::Info, sync_layout_text(s@.config.layout_mode,
                window_count as nat, s@.id)));
            assert(logged(after_first, state@, LogLevel::Info, started_text(s@.id)));
            assert(others_stopped(before.sessions, mid.sessions, session_id@));
            proof {
                let i = key_index_from(before.sessions, session_id@, 0)->0;
                lemma_start_leaves_one_running(before.sessions, mid.sessions, state@.sessions, session_id@, i,
                    s@.updated_at_ms);
            }
            Ok(s)
        },
    }
}

/// Records that input sync of the session stored under `session_id` stopped.
pub fn stop_sync(state: &mut AppState, session_id: &str) -> (r: Result<SessionInfo, SessionError>)
    ensures
        match key_index_from(old(state)@.sessions, session_id@, 0) {
            None => r matches Err(x) && x@ == SessionErrorView::SessionNotFound(session_id@)
                && final(state)@ == old(state)@,
            Some(i) => r matches Ok(s) && {
                &&& s@ == with_sync_stopped(old(state)@.sessions[i].1, s@.updated_at_ms)
                &&& final(state)@.sessions == old(state)@.sessions.update(i, (session_id@, s@))
                &&& final(state)@.next_session_id == old(state)@.next_session_id
                &&& logged(old(state)@, final(state)@, LogLevel::Info, stopped_text(s@.id))
            },
        },
{
    let now = unix_time_ms();
    let updated = state.mutate_session(session_id, move |s: SessionInfo| -> (r: SessionInfo)
        ensures
            r@ == with_sync_stopped(s@, now),
        { SessionInfo { is_running: false, updated_at_ms: now, ..s } });
    match updated {
        None => Err(SessionError::SessionNotFound(session_id.to_owned())),
        Some(s) => {
            let mut message = "Stopped session ".to_owned();
            message.append(s.id.as_str());
            message.append(".");
            log_line(state, LogLevel::Info, message);
            Ok(s)
        },
    }
}

/// Starting a session's sync leaves it the only running session: when every session is stored
/// under its own id, stopping the other sessions and then marking `session_id` started (at
/// position `i`) leaves exactly the session `session_id` running.
pub proof fn lemma_start_leaves_one_running(before: Seq<(Seq<char>, SessionInfoView)>,
    mid: Seq<(Seq<char>, SessionInfoView)>, after: Seq<(Seq<char>, SessionInfoView)>,
    session_id: Seq<char>, i: int, now: u128)
    requires
        crate::state::keys_match(before),
        crate::state::distinct_keys(before),
        others_stopped(before, mid, session_id),
        key_index_from(mid, session_id, 0) == Some(i),
        after == mid.update(i, (session_id, with_sync_started(mid[i].1, now))),
    ensures
        forall|j: int| 0 <= j < after.len() ==> (#[trigger] after[j].1.is_running <==> after[j].1.id
            == session_id),
{
    crate::state::lemma_key_index_from(mid, session_id, 0);
    assert forall|j: int| 0 <= j < after.len() implies (#[trigger] after[j].1.is_running
        <==> after[j].1.id == session_id) by {
        assert(before[j].0 == before[j].1.id);
        assert(before[i].0 == before[i].1.id);
        if j != i {
            assert(after[j] == mid[j]);
            assert(mid[j].0 == before[j].0);
            assert(mid[i].0 == before[i].0);
            assert(before[i].0 == session_id);
        } else {
            assert(mid[i].1.id == before[i].1.id);
        }
    }
}

} // verus!
