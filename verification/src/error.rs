//! The ways in which validation and scanning fail.

use vstd::prelude::*;
use vstd::string::StringExecFns;

verus! {

/// Why a scan, or the validation before it, did not produce a result.
///
/// The first three are validation errors: the caller recovers by choosing
/// another path. `Cancelled` and `DirectoryLimitExceeded` are expected
/// outcomes of a scan. `TaskFailure` says that the background work itself
/// could not run.
#[derive(Clone, Copy, Debug, PartialEq, Eq, Structural)]
pub enum ScanError {
    /// The path does not exist.
    NotFound,
    /// The path exists but is not a directory.
    NotADirectory,
    /// The path is too close to a system root.
    DangerousPath,
    /// The scan was stopped on request.
    Cancelled,
    /// The scan visited more directories than the safety limit allows.
    DirectoryLimitExceeded,
    /// The background task did not complete.
    TaskFailure,
}

impl ScanError {
    /// The message shown to the user for this error.
    pub open spec fn text(self) -> Seq<char> {
        match self {
            ScanError::NotFound => "Path does not exist"@,
            ScanError::NotADirectory => "Path is not a directory"@,
            ScanError::DangerousPath => "Cannot scan system-level folders. Please select a more specific folder."@,
            ScanError::Cancelled => "Scan cancelled"@,
            ScanError::DirectoryLimitExceeded => "Folder too large to scan safely. Please select a smaller folder."@,
            ScanError::TaskFailure => "Scan task failed"@,
        }
    }

    /// The error is one of the three that validation of a root can give.
    pub open spec fn is_validation_error(self) -> bool {
        self == ScanError::NotFound || self == ScanError::NotADirectory || self
            == ScanError::DangerousPath
    }

    /// The message shown to the user for this error.
    pub fn message(&self) -> (r: String)
        ensures
            r@ == self.text(),
    {
        match self {
            ScanError::NotFound => "Path does not exist".to_string(),
            ScanError::NotADirectory => "Path is not a directory".to_string(),
            ScanError::DangerousPath => "Cannot scan system-level folders. Please select a more specific folder.".to_string(),
            ScanError::Cancelled => "Scan cancelled".to_string(),
            ScanError::DirectoryLimitExceeded => "Folder too large to scan safely. Please select a smaller folder.".to_string(),
            ScanError::TaskFailure => "Scan task failed".to_string(),
        }
    }
}

/// The message for a scan whose background task failed: the text of
/// [`ScanError::TaskFailure`], a colon and a space, and what the task
/// reported.
pub fn task_failure_message(detail: &str) -> (r: String)
    ensures
        r@ == ScanError::TaskFailure.text() + ": "@ + detail@,
{
    let mut message = ScanError::TaskFailure.message();
    message.append(": ");
    message.append(detail);
    message
}

} // verus!
