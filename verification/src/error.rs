//! The failures that recording and watching can end in.

use vstd::prelude::*;
use vstd::string::*;

verus! {

/// Why an operation of the recording engine failed.
#[derive(Debug, Clone, Copy, PartialEq, Eq, Structural)]
pub enum CaptureError {
    /// The directory to watch, or an input file, does not exist.
    PathNotFound,
    /// A capture session was started while one was already running.
    AlreadyActive,
    /// A capture session was stopped while none was running.
    NotActive,
    /// No window or display could be resolved as the capture target.
    TargetNotFound,
    /// The backend could not set up, run or finish its resources.
    InitializationFailed,
    /// The shared state could not be locked.
    LockUnavailable,
}

/// The text that describes each failure.
pub open spec fn error_text(error: CaptureError) -> Seq<char> {
    match error {
        CaptureError::PathNotFound => "path not found"@,
        CaptureError::AlreadyActive => "a recording is already active"@,
        CaptureError::NotActive => "no recording is active"@,
        CaptureError::TargetNotFound => "capture target not found"@,
        CaptureError::InitializationFailed => "capture backend failed"@,
        CaptureError::LockUnavailable => "shared state is unavailable"@,
    }
}

impl CaptureError {
    /// A short description of the failure, for logs and for the caller.
    pub fn message(&self) -> (text: String)
        ensures
            text@ == error_text(*self),
    {
        match self {
            CaptureError::PathNotFound => "path not found".to_owned(),
            CaptureError::AlreadyActive => "a recording is already active".to_owned(),
            CaptureError::NotActive => "no recording is active".to_owned(),
            CaptureError::TargetNotFound => "capture target not found".to_owned(),
            CaptureError::InitializationFailed => "capture backend failed".to_owned(),
            CaptureError::LockUnavailable => "shared state is unavailable".to_owned(),
        }
    }
}

} // verus!
