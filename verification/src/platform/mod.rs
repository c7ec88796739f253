//! The platform backend of this build. Window enumeration, window placement and input
//! capture are Win32 services; on other systems each operation reports that it is not
//! available, and the permission report says so.
use vstd::prelude::*;
use crate::models::{Bounds, MonitorInfo, PermissionStatus, SessionConfig, WindowInfo};

pub mod windows;

verus! {

/// Why a platform operation did not run.
#[derive(Clone, Copy, Debug, PartialEq, Eq, Structural)]
pub enum PlatformError {
    WindowsOnly,
    InputSyncWindowsOnly,
}

/// The text shown for each platform error.
pub open spec fn platform_error_text(e: PlatformError) -> Seq<char> {
    match e {
        PlatformError::WindowsOnly => "This preview build only supports Windows."@,
        PlatformError::InputSyncWindowsOnly => "Live input sync is only implemented on Windows."@,
    }
}

impl PlatformError {
    /// The text shown for this error.
    pub fn message(&self) -> (m: String)
        ensures
            m@ == platform_error_text(*self),
    {
        match self {
            PlatformError::WindowsOnly => "This preview build only supports Windows.".to_owned(),
            PlatformError::InputSyncWindowsOnly => "Live input sync is only implemented on Windows.".to_owned(),
        }
    }
}

/// Prepares the platform; nothing is needed here.
pub fn initialize() -> (r: Result<(), PlatformError>)
    ensures
        r is Ok,
{
    Ok(())
}

/// The visible top-level windows; not available on this platform.
pub fn scan_windows() -> (r: Result<Vec<WindowInfo>, PlatformError>)
    ensures
        r matches Err(e) && e == PlatformError::WindowsOnly,
{
    Err(PlatformError::WindowsOnly)
}

/// The display monitors; not available on this platform.
pub fn list_monitors() -> (r: Result<Vec<MonitorInfo>, PlatformError>)
    ensures
        r matches Err(e) && e == PlatformError::WindowsOnly,
{
    Err(PlatformError::WindowsOnly)
}

/// Moves and resizes a window; not available on this platform.
pub fn move_resize_window(window_id: &str, bounds: &Bounds) -> (r: Result<(), PlatformError>)
    ensures
        r == Err::<(), PlatformError>(PlatformError::WindowsOnly),
{
    Err(PlatformError::WindowsOnly)
}

/// Raises a window above the others; not available on this platform.
pub fn bring_window_to_front(window_id: &str) -> (r: Result<(), PlatformError>)
    ensures
        r == Err::<(), PlatformError>(PlatformError::WindowsOnly),
{
    Err(PlatformError::WindowsOnly)
}

/// Whether a window with this id exists; no window is known on this platform.
pub fn window_exists(window_id: &str) -> (b: bool)
    ensures
        !b,
{
    false
}

/// Starts mirroring input for a session; not available on this platform.
pub fn start_input_sync(session_id: &str, config: SessionConfig) -> (r: Result<(), PlatformError>)
    ensures
        r == Err::<(), PlatformError>(PlatformError::InputSyncWindowsOnly),
{
    Err(PlatformError::InputSyncWindowsOnly)
}

/// Stops mirroring input; nothing runs on this platform, so nothing is stopped.
pub fn stop_input_sync(session_id: Option<&str>) -> (r: Result<bool, PlatformError>)
    ensures
        r == Ok::<bool, PlatformError>(false),
{
    Ok(false)
}

/// What this platform supports: nothing, with one warning. `os` names the operating system.
pub fn permission_status(os: &str) -> (r: Result<PermissionStatus, PlatformError>)
    ensures
        r matches Ok(p) && p@.platform == os@ && !p@.window_management_supported
            && !p@.input_capture_supported && !p@.input_dispatch_supported
            && !p@.is_process_elevated && p@.warnings == seq![
            "Mirror Windows MVP is currently Windows-only."@],
{
    let mut warnings: Vec<String> = Vec::new();
    warnings.push("Mirror Windows MVP is currently Windows-only.".to_owned());
    let p = PermissionStatus {
        platform: os.to_owned(),
        window_management_supported: false,
        input_capture_supported: false,
        input_dispatch_supported: false,
        is_process_elevated: false,
        warnings,
    };
    assert(p@.warnings =~= seq!["Mirror Windows MVP is currently Windows-only."@]);
    Ok(p)
}

} // verus!
