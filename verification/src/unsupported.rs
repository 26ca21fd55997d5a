//! The capture backend of platforms without audio capture support.
use vstd::prelude::*;
use crate::native_helper::{CaptureMode, HelperError, PermissionStatus};
use crate::text::{chars_of, string_of};

verus! {

pub open spec fn unsupported_message() -> Seq<char> {
    "Rusteze capture is currently supported only on macOS and Windows."@
}

fn unsupported() -> (e: HelperError)
    ensures
        e matches HelperError::Backend(m) && m@ == unsupported_message(),
{
    let c = chars_of("Rusteze capture is currently supported only on macOS and Windows.");
    HelperError::Backend(string_of(c.as_slice()))
}

/// A capture that never runs.
pub struct CaptureProcess;

pub fn check_permissions(mode: CaptureMode) -> (r: Result<PermissionStatus, HelperError>)
    ensures
        r matches Err(HelperError::Backend(m)) && m@ == unsupported_message(),
{
    Err(unsupported())
}

pub fn request_permissions(mode: CaptureMode) -> (r: Result<PermissionStatus, HelperError>)
    ensures
        r matches Err(HelperError::Backend(m)) && m@ == unsupported_message(),
{
    Err(unsupported())
}

pub fn start_capture(session_folder: &str, mode: CaptureMode) -> (r: Result<CaptureProcess, HelperError>)
    ensures
        r matches Err(HelperError::Backend(m)) && m@ == unsupported_message(),
{
    Err(unsupported())
}

impl CaptureProcess {
    /// A capture that never started is always healthy.
    pub fn check_health(&mut self) -> (r: Result<(), HelperError>)
        ensures
            r is Ok,
            *final(self) == *old(self),
    {
        Ok(())
    }

    /// Stopping a capture that never started succeeds.
    pub fn stop(self) -> (r: Result<(), HelperError>)
        ensures
            r is Ok,
    {
        Ok(())
    }
}

} // verus!
