//! Platform start-up and the permission report.
use vstd::prelude::*;
use crate::models::PermissionStatus;
use crate::platform::{self, PlatformError};

verus! {

/// Prepares the platform for window management.
pub fn initialize_platform() -> (r: Result<(), PlatformError>)
    ensures
        r is Ok,
{
    platform::initialize()
}

/// What the platform supports and what the operator should be warned about; `os` names the
/// operating system.
pub fn current_permission_status(os: &str) -> (r: Result<PermissionStatus, PlatformError>)
    ensures
        r matches Ok(p) && p@.platform == os@ && !p@.window_management_supported
            && !p@.input_capture_supported && !p@.input_dispatch_supported
            && !p@.is_process_elevated && p@.warnings == seq![
            "Mirror Windows MVP is currently Windows-only."@],
{
    platform::permission_status(os)
}

} // verus!
