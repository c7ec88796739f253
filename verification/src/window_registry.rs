//! Window and monitor discovery.
use vstd::prelude::*;
use crate::models::{MonitorInfo, WindowInfo};
use crate::platform::{self, PlatformError};

verus! {

/// The visible top-level windows.
pub fn scan_windows() -> (r: Result<Vec<WindowInfo>, PlatformError>)
    ensures
        r matches Err(e) && e == PlatformError::WindowsOnly,
{
    platform::scan_windows()
}

/// The display monitors.
pub fn list_monitors() -> (r: Result<Vec<MonitorInfo>, PlatformError>)
    ensures
        r matches Err(e) && e == PlatformError::WindowsOnly,
{
    platform::list_monitors()
}

/// Whether a window with this id exists.
pub fn window_exists(window_id: &str) -> (b: bool)
    ensures
        !b,
{
    platform::window_exists(window_id)
}

} // verus!
