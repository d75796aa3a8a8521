use heavy_folders::error::{task_failure_message, ScanError};

#[test]
fn every_error_has_its_message() {
    assert_eq!(ScanError::NotFound.message(), "Path does not exist");
    assert_eq!(ScanError::NotADirectory.message(), "Path is not a directory");
    assert_eq!(
        ScanError::DangerousPath.message(),
        "Cannot scan system-level folders. Please select a more specific folder."
    );
    assert_eq!(ScanError::Cancelled.message(), "Scan cancelled");
    assert_eq!(
        ScanError::DirectoryLimitExceeded.message(),
        "Folder too large to scan safely. Please select a smaller folder."
    );
    assert_eq!(ScanError::TaskFailure.message(), "Scan task failed");
}

#[test]
fn cancellation_and_limit_are_distinct() {
    assert_ne!(ScanError::Cancelled, ScanError::DirectoryLimitExceeded);
    assert_ne!(ScanError::Cancelled.message(), ScanError::DirectoryLimitExceeded.message());
    assert_ne!(ScanError::TaskFailure, ScanError::Cancelled);
}

#[test]
fn task_failure_carries_the_detail() {
    assert_eq!(task_failure_message("task panicked"), "Scan task failed: task panicked");
    assert_eq!(task_failure_message(""), "Scan task failed: ");
}
