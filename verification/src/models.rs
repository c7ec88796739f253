//! The data model shared by the session, layout and profile logic.
use vstd::prelude::*;

verus! {

/// A rectangle in screen pixels: its top-left corner and its size.
#[derive(Clone, Copy, Debug, PartialEq, Eq, Structural)]
pub struct Bounds {
    pub x: i32,
    pub y: i32,
    pub width: i32,
    pub height: i32,
}

/// A top-level window as reported by window enumeration.
#[derive(Debug, PartialEq, Eq)]
pub struct WindowInfo {
    pub id: String,
    pub native_handle: i64,
    pub title: String,
    pub process_name: Option<String>,
    pub icon_data_url: Option<String>,
    pub pid: u32,
    pub monitor_id: Option<String>,
    pub rect: Bounds,
    pub is_visible: bool,
    pub is_minimized: bool,
}

/// A display monitor. `dpi` is the effective horizontal DPI; 96 is a scale factor of 1.
#[derive(Debug, PartialEq, Eq)]
pub struct MonitorInfo {
    pub id: String,
    pub name: String,
    pub rect: Bounds,
    pub work_area: Bounds,
    pub is_primary: bool,
    pub dpi: u32,
}

/// How managed windows are arranged on the monitor.
#[derive(Clone, Copy, Debug, PartialEq, Eq, Structural)]
pub enum LayoutMode {
    Tile,
    Stack,
}

/// How pointer positions are carried from the primary window to the targets.
#[derive(Clone, Copy, Debug, PartialEq, Eq, Structural)]
pub enum CoordinateMode {
    NormalizedClient,
}

/// How input is delivered to a target window.
#[derive(Clone, Copy, Debug, PartialEq, Eq, Structural)]
pub enum DispatchMode {
    /// Posted or sent window messages (browsers and ordinary applications).
    WindowMessage,
    /// Injected system input (games and DirectX/OpenGL surfaces).
    SendInput,
    /// Chosen per target from its window class and process name.
    Auto,
}

/// What the operator selected for a session.
#[derive(Debug, PartialEq, Eq)]
pub struct SessionConfig {
    pub primary_window_id: String,
    pub target_window_ids: Vec<String>,
    pub monitor_id: Option<String>,
    pub layout_mode: LayoutMode,
    pub coordinate_mode: CoordinateMode,
    pub dispatch_mode: DispatchMode,
    pub sync_mouse_move: bool,
    pub sync_wheel: bool,
    pub sync_keyboard: bool,
    pub game_mode: bool,
}

/// A session: its configuration and run state.
#[derive(Debug, PartialEq, Eq)]
pub struct SessionInfo {
    pub id: String,
    pub config: SessionConfig,
    pub is_running: bool,
    pub layout_applied: bool,
    pub created_at_ms: u128,
    pub updated_at_ms: u128,
}

/// A profile as submitted for saving; without an id a new profile is created.
#[derive(Debug, PartialEq, Eq)]
pub struct ProfileDraft {
    pub id: Option<String>,
    pub name: String,
    pub config: SessionConfig,
}

/// A saved profile.
#[derive(Debug, PartialEq, Eq)]
pub struct ProfileRecord {
    pub id: String,
    pub name: String,
    pub config: SessionConfig,
    pub created_at_ms: u128,
    pub updated_at_ms: u128,
}

/// Severity of a log entry.
#[derive(Clone, Copy, Debug, PartialEq, Eq, Structural)]
pub enum LogLevel {
    Info,
    Warn,
    Error,
}

/// One line of the activity log.
#[derive(Debug, PartialEq, Eq)]
pub struct LogEntry {
    pub id: u64,
    pub level: LogLevel,
    pub message: String,
    pub timestamp_ms: u128,
}

/// What the platform supports and what the operator should be warned about.
#[derive(Debug, PartialEq, Eq)]
pub struct PermissionStatus {
    pub platform: String,
    pub window_management_supported: bool,
    pub input_capture_supported: bool,
    pub input_dispatch_supported: bool,
    pub is_process_elevated: bool,
    pub warnings: Vec<String>,
}

/// Where one managed window is placed by a layout.
#[derive(Debug, PartialEq, Eq)]
pub struct LayoutPreview {
    pub window_id: String,
    pub bounds: Bounds,
}

/// Abstract value of a `WindowInfo`: every field, strings as character sequences.
pub struct WindowInfoView {
    pub id: Seq<char>,
    pub native_handle: i64,
    pub title: Seq<char>,
    pub process_name: Option<Seq<char>>,
    pub icon_data_url: Option<Seq<char>>,
    pub pid: u32,
    pub monitor_id: Option<Seq<char>>,
    pub rect: Bounds,
    pub is_visible: bool,
    pub is_minimized: bool,
}

/// Abstract value of a `MonitorInfo`.
pub struct MonitorInfoView {
    pub id: Seq<char>,
    pub name: Seq<char>,
    pub rect: Bounds,
    pub work_area: Bounds,
    pub is_primary: bool,
    pub dpi: u32,
}

/// Abstract value of a `SessionConfig`.
pub struct SessionConfigView {
    pub primary_window_id: Seq<char>,
    pub target_window_ids: Seq<Seq<char>>,
    pub monitor_id: Option<Seq<char>>,
    pub layout_mode: LayoutMode,
    pub coordinate_mode: CoordinateMode,
    pub dispatch_mode: DispatchMode,
    pub sync_mouse_move: bool,
    pub sync_wheel: bool,
    pub sync_keyboard: bool,
    pub game_mode: bool,
}

/// Abstract value of a `SessionInfo`.
pub struct SessionInfoView {
    pub id: Seq<char>,
    pub config: SessionConfigView,
    pub is_running: bool,
    pub layout_applied: bool,
    pub created_at_ms: u128,
    pub updated_at_ms: u128,
}

/// Abstract value of a `ProfileDraft`.
pub struct ProfileDraftView {
    pub id: Option<Seq<char>>,
    pub name: Seq<char>,
    pub config: SessionConfigView,
}

/// Abstract value of a `ProfileRecord`.
pub struct ProfileRecordView {
    pub id: Seq<char>,
    pub name: Seq<char>,
    pub config: SessionConfigView,
    pub created_at_ms: u128,
    pub updated_at_ms: u128,
}

/// Abstract value of a `LogEntry`.
pub struct LogEntryView {
    pub id: u64,
    pub level: LogLevel,
    pub message: Seq<char>,
    pub timestamp_ms: u128,
}

/// Abstract value of a `PermissionStatus`.
pub struct PermissionStatusView {
    pub platform: Seq<char>,
    pub window_management_supported: bool,
    pub input_capture_supported: bool,
    pub input_dispatch_supported: bool,
    pub is_process_elevated: bool,
    pub warnings: Seq<Seq<char>>,
}

/// Abstract value of a `LayoutPreview`.
pub struct LayoutPreviewView {
    pub window_id: Seq<char>,
    pub bounds: Bounds,
}

impl View for WindowInfo {
    type V = WindowInfoView;

    open spec fn view(&self) -> WindowInfoView {
        WindowInfoView {
            id: self.id@,
            native_handle: self.native_handle,
            title: self.title@,
            process_name: self.process_name.deep_view(),
            icon_data_url: self.icon_data_url.deep_view(),
            pid: self.pid,
            monitor_id: self.monitor_id.deep_view(),
            rect: self.rect,
            is_visible: self.is_visible,
            is_minimized: self.is_minimized,
        }
    }
}

impl View for MonitorInfo {
    type V = MonitorInfoView;

    open spec fn view(&self) -> MonitorInfoView {
        MonitorInfoView {
            id: self.id@,
            name: self.name@,
            rect: self.rect,
            work_area: self.work_area,
            is_primary: self.is_primary,
            dpi: self.dpi,
        }
    }
}

impl View for SessionConfig {
    type V = SessionConfigView;

    open spec fn view(&self) -> SessionConfigView {
        SessionConfigView {
            primary_window_id: self.primary_window_id@,
            target_window_ids: self.target_window_ids.deep_view(),
            monitor_id: self.monitor_id.deep_view(),
            layout_mode: self.layout_mode,
            coordinate_mode: self.coordinate_mode,
            dispatch_mode: self.dispatch_mode,
            sync_mouse_move: self.sync_mouse_move,
            sync_wheel: self.sync_wheel,
            sync_keyboard: self.sync_keyboard,
            game_mode: self.game_mode,
        }
    }
}

impl View for SessionInfo {
    type V = SessionInfoView;

    open spec fn view(&self) -> SessionInfoView {
        SessionInfoView {
            id: self.id@,
            config: self.config@,
            is_running: self.is_running,
            layout_applied: self.layout_applied,
            created_at_ms: self.created_at_ms,
            updated_at_ms: self.updated_at_ms,
        }
    }
}

impl View for ProfileDraft {
    type V = ProfileDraftView;

    open spec fn view(&self) -> ProfileDraftView {
        ProfileDraftView { id: self.id.deep_view(), name: self.name@, config: self.config@ }
    }
}

impl View for ProfileRecord {
    type V = ProfileRecordView;

    open spec fn view(&self) -> ProfileRecordView {
        ProfileRecordView {
            id: self.id@,
            name: self.name@,
            config: self.config@,
            created_at_ms: self.created_at_ms,
            updated_at_ms: self.updated_at_ms,
        }
    }
}

impl View for LogEntry {
    type V = LogEntryView;

    open spec fn view(&self) -> LogEntryView {
        LogEntryView {
            id: self.id,
            level: self.level,
            message: self.message@,
            timestamp_ms: self.timestamp_ms,
        }
    }
}

impl View for PermissionStatus {
    type V = PermissionStatusView;

    open spec fn view(&self) -> PermissionStatusView {
        PermissionStatusView {
            platform: self.platform@,
            window_management_supported: self.window_management_supported,
            input_capture_supported: self.input_capture_supported,
            input_dispatch_supported: self.input_dispatch_supported,
            is_process_elevated: self.is_process_elevated,
            warnings: self.warnings.deep_view(),
        }
    }
}

impl View for LayoutPreview {
    type V = LayoutPreviewView;

    open spec fn view(&self) -> LayoutPreviewView {
        LayoutPreviewView { window_id: self.window_id@, bounds: self.bounds }
    }
}

impl DeepView for WindowInfo {
    type V = WindowInfoView;

    open spec fn deep_view(&self) -> WindowInfoView {
        self@
    }
}

impl DeepView for MonitorInfo {
    type V = MonitorInfoView;

    open spec fn deep_view(&self) -> MonitorInfoView {
        self@
    }
}

impl DeepView for SessionInfo {
    type V = SessionInfoView;

    open spec fn deep_view(&self) -> SessionInfoView {
        self@
    }
}

impl DeepView for ProfileRecord {
    type V = ProfileRecordView;

    open spec fn deep_view(&self) -> ProfileRecordView {
        self@
    }
}

impl DeepView for LogEntry {
    type V = LogEntryView;

    open spec fn deep_view(&self) -> LogEntryView {
        self@
    }
}

impl DeepView for LayoutPreview {
    type V = LayoutPreviewView;

    open spec fn deep_view(&self) -> LayoutPreviewView {
        self@
    }
}

/// A copy of a vector of strings with the same contents.
pub fn clone_strings(v: &Vec<String>) -> (r: Vec<String>)
    ensures
        r.deep_view() == v.deep_view(),
{
    let mut r: Vec<String> = Vec::new();
    let mut i: usize = 0;
    while i < v.len()
        invariant
            i <= v@.len(),
            r@.len() == i,
            forall|j: int| 0 <= j < i ==> #[trigger] r@[j]@ == v@[j]@,
        decreases v@.len() - i,
    {
        r.push(v[i].clone());
        i = i + 1;
    }
    assert(r.deep_view() =~= v.deep_view());
    r
}

/// A copy of an optional string.
pub fn clone_opt_string(o: &Option<String>) -> (r: Option<String>)
    ensures
        r.deep_view() == o.deep_view(),
{
    match o {
        Some(s) => Some(s.clone()),
        None => None,
    }
}

impl Clone for WindowInfo {
    fn clone(&self) -> (r: Self)
        ensures
            r@ == self@,
    {
        WindowInfo {
            id: self.id.clone(),
            native_handle: self.native_handle,
            title: self.title.clone(),
            process_name: clone_opt_string(&self.process_name),
            icon_data_url: clone_opt_string(&self.icon_data_url),
            pid: self.pid,
            monitor_id: clone_opt_string(&self.monitor_id),
            rect: self.rect,
            is_visible: self.is_visible,
            is_minimized: self.is_minimized,
        }
    }
}

impl Clone for MonitorInfo {
    fn clone(&self) -> (r: Self)
        ensures
            r@ == self@,
    {
        MonitorInfo {
            id: self.id.clone(),
            name: self.name.clone(),
            rect: self.rect,
            work_area: self.work_area,
            is_primary: self.is_primary,
            dpi: self.dpi,
        }
    }
}

impl Clone for SessionConfig {
    fn clone(&self) -> (r: Self)
        ensures
            r@ == self@,
    {
        SessionConfig {
            primary_window_id: self.primary_window_id.clone(),
            target_window_ids: clone_strings(&self.target_window_ids),
            monitor_id: clone_opt_string(&self.monitor_id),
            layout_mode: self.layout_mode,
            coordinate_mode: self.coordinate_mode,
            dispatch_mode: self.dispatch_mode,
            sync_mouse_move: self.sync_mouse_move,
            sync_wheel: self.sync_wheel,
            sync_keyboard: self.sync_keyboard,
            game_mode: self.game_mode,
        }
    }
}

impl Clone for SessionInfo {
    fn clone(&self) -> (r: Self)
        ensures
            r@ == self@,
    {
        SessionInfo {
            id: self.id.clone(),
            config: self.config.clone(),
            is_running: self.is_running,
            layout_applied: self.layout_applied,
            created_at_ms: self.created_at_ms,
            updated_at_ms: self.updated_at_ms,
        }
    }
}

impl Clone for ProfileDraft {
    fn clone(&self) -> (r: Self)
        ensures
            r@ == self@,
    {
        ProfileDraft { id: clone_opt_string(&self.id), name: self.name.clone(), config: self.config.clone() }
    }
}

impl Clone for ProfileRecord {
    fn clone(&self) -> (r: Self)
        ensures
            r@ == self@,
    {
        ProfileRecord {
            id: self.id.clone(),
            name: self.name.clone(),
            config: self.config.clone(),
            created_at_ms: self.created_at_ms,
            updated_at_ms: self.updated_at_ms,
        }
    }
}

impl Clone for LogEntry {
    fn clone(&self) -> (r: Self)
        ensures
            r@ == self@,
    {
        LogEntry { id: self.id, level: self.level, message: self.message.clone(), timestamp_ms: self.timestamp_ms }
    }
}

impl Clone for PermissionStatus {
    fn clone(&self) -> (r: Self)
        ensures
            r@ == self@,
    {
        PermissionStatus {
            platform: self.platform.clone(),
            window_management_supported: self.window_management_supported,
            input_capture_supported: self.input_capture_supported,
            input_dispatch_supported: self.input_dispatch_supported,
            is_process_elevated: self.is_process_elevated,
            warnings: clone_strings(&self.warnings),
        }
    }
}

impl Clone for LayoutPreview {
    fn clone(&self) -> (r: Self)
        ensures
            r@ == self@,
    {
        LayoutPreview { window_id: self.window_id.clone(), bounds: self.bounds }
    }
}

/// Default for the sync toggles of a configuration: on.
pub fn default_true() -> (b: bool)
    ensures
        b,
{
    true
}

/// Default coordinate mode of a configuration.
pub fn default_coordinate_mode() -> (m: CoordinateMode)
    ensures
        m == CoordinateMode::NormalizedClient,
{
    CoordinateMode::NormalizedClient
}

/// Default dispatch mode of a configuration.
pub fn default_dispatch_mode() -> (m: DispatchMode)
    ensures
        m == DispatchMode::Auto,
{
    DispatchMode::Auto
}

} // verus!
