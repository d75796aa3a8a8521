//! The entry point of a scan: validation of the root, then the scanner.

use vstd::prelude::*;
use crate::cancel::CancellationToken;
use crate::error::ScanError;
use crate::report::FolderRecord;
use crate::scanner::HeavyFolderScanner;
use crate::validate::{check_root, root_rejection, PathFacts};

verus! {

/// Starts a scan of `path`.
///
/// The root is validated again, whatever the caller did before: a path that
/// does not exist, is not a directory or is dangerous is refused with that
/// error, and the token is left as it is. Otherwise the token is cleared and
/// a scanner that has visited nothing is handed out, to be driven by the
/// caller's walk and ended with [`HeavyFolderScanner::finish`].
pub fn scan_folders(path: &str, facts: &PathFacts, token: &CancellationToken) -> (r: Result<
    HeavyFolderScanner,
    ScanError,
>)
    ensures
        r is Ok <==> root_rejection(path@, *facts) is None,
        r matches Err(e) ==> root_rejection(path@, *facts) == Some(e) && e.is_validation_error(),
        r matches Ok(s) ==> s.scan_path() == path@,
        r matches Ok(s) ==> s.dirs_scanned() == 0,
        r matches Ok(s) ==> s.records() == Seq::<FolderRecord>::empty(),
{
    match check_root(path, facts) {
        Err(e) => Err(e),
        Ok(()) => Ok(HeavyFolderScanner::begin(path, token)),
    }
}

} // verus!
