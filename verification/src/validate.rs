//! Which roots may be scanned.
//!
//! A root is rejected if it does not exist, if it is not a directory, or if
//! it is dangerous: one of the cataloged system paths, or fewer than three
//! components deep. Whether a path exists is a fact that only the file
//! system can tell, and how it decomposes is the platform's path syntax; the
//! rules here are stated for every value of both.

use vstd::prelude::*;
use crate::catalog::{in_dangerous_catalog, is_cataloged_dangerous};
use crate::error::ScanError;

verus! {

/// A root has to be at least this many components deep. The root directory
/// counts as one component.
pub const MIN_PATH_COMPONENTS: usize = 3;

/// What is known about a candidate root besides its text.
#[derive(Clone, Copy, Debug, PartialEq, Eq, Structural)]
pub struct PathFacts {
    /// The path exists.
    pub exists: bool,
    /// The path is a directory.
    pub is_dir: bool,
    /// The number of components into which the platform's path syntax
    /// decomposes the path.
    pub components: usize,
}

/// The outcome of a validation.
#[derive(Debug, PartialEq, Eq)]
pub struct PathValidation {
    /// The root may be scanned.
    pub valid: bool,
    /// Why it may not, in words for the user.
    pub reason: Option<String>,
}

/// The mathematical content of a [`PathValidation`].
pub ghost struct PathVerdict {
    pub valid: bool,
    pub reason: Option<Seq<char>>,
}

impl View for PathValidation {
    type V = PathVerdict;

    open spec fn view(&self) -> PathVerdict {
        PathVerdict {
            valid: self.valid,
            reason: match self.reason {
                Some(text) => Some(text@),
                None => None,
            },
        }
    }
}

/// A path is dangerous if it is in the catalog of system paths or has fewer
/// than [`MIN_PATH_COMPONENTS`] components.
pub open spec fn is_dangerous(path: Seq<char>, components: nat) -> bool {
    in_dangerous_catalog(path) || components < MIN_PATH_COMPONENTS
}

/// The first reason, if any, for which a root is rejected.
pub open spec fn root_rejection(path: Seq<char>, facts: PathFacts) -> Option<ScanError> {
    if !facts.exists {
        Some(ScanError::NotFound)
    } else if !facts.is_dir {
        Some(ScanError::NotADirectory)
    } else if is_dangerous(path, facts.components as nat) {
        Some(ScanError::DangerousPath)
    } else {
        None
    }
}

/// The words in which a validation reports a rejection.
pub open spec fn rejection_reason(e: ScanError) -> Seq<char> {
    match e {
        ScanError::DangerousPath => "This folder is too close to the system root. Please select a folder at least 3 levels deep (e.g., /Users/name/projects)."@,
        _ => e.text(),
    }
}

/// The outcome of validating a root.
pub open spec fn path_verdict(path: Seq<char>, facts: PathFacts) -> PathVerdict {
    match root_rejection(path, facts) {
        Some(e) => PathVerdict { valid: false, reason: Some(rejection_reason(e)) },
        None => PathVerdict { valid: true, reason: None },
    }
}

/// The number of components into which the path syntax of the platform
/// decomposes a path: what `std::path::Path::components` yields for it,
/// counted. The count is read off the text of the path alone. Which
/// platform's syntax applies is fixed when the library is built, and the
/// decomposition (prefixes, repeated separators, `.`) is the platform's, so
/// the count is named here and not spelled out.
pub uninterp spec fn component_count(path: Seq<char>) -> nat;

/// Counts the items that `std::path::Path::components` yields for `path`.
/// The contract claims that this is the count named by
/// [`component_count`], and no more: what the count of a given path is, is
/// nowhere stated.
#[verifier::external_body]
fn count_components(path: &str) -> (n: usize)
    ensures
        n == component_count(path@),
{
    std::path::Path::new(path).components().count()
}

/// Gathers the facts about a root: what the caller found on the file system,
/// and the number of components that the platform's path syntax gives the
/// path.
pub fn path_facts(path: &str, exists: bool, is_dir: bool) -> (r: PathFacts)
    ensures
        r.exists == exists,
        r.is_dir == is_dir,
        r.components == component_count(path@),
{
    PathFacts { exists, is_dir, components: count_components(path) }
}

/// Tells whether a path of the given number of components is dangerous.
pub fn is_dangerous_at_depth(path: &str, components: usize) -> (r: bool)
    ensures
        r == is_dangerous(path@, components as nat),
        components < MIN_PATH_COMPONENTS ==> r,
        in_dangerous_catalog(path@) ==> r,
{
    if is_cataloged_dangerous(path) {
        return true;
    }
    components < MIN_PATH_COMPONENTS
}

/// Tells whether a path is dangerous, counting its components by the
/// platform's path syntax: it is dangerous if it is in the catalog of system
/// paths or if that count is below [`MIN_PATH_COMPONENTS`]. The answer is
/// the one that [`is_dangerous_at_depth`] gives for the count.
pub fn is_dangerous_path(path: &str) -> (r: bool)
    ensures
        r == is_dangerous(path@, component_count(path@)),
        in_dangerous_catalog(path@) ==> r,
        component_count(path@) < MIN_PATH_COMPONENTS ==> r,
{
    let components: usize = count_components(path);
    is_dangerous_at_depth(path, components)
}

/// Checks a root before a scan: `Err` with the first reason for which it is
/// rejected, `Ok` if there is none.
pub fn check_root(path: &str, facts: &PathFacts) -> (r: Result<(), ScanError>)
    ensures
        r is Ok <==> root_rejection(path@, *facts) is None,
        r matches Err(e) ==> root_rejection(path@, *facts) == Some(e),
        r matches Err(e) ==> e.is_validation_error(),
{
    if !facts.exists {
        return Err(ScanError::NotFound);
    }
    if !facts.is_dir {
        return Err(ScanError::NotADirectory);
    }
    if is_dangerous_at_depth(path, facts.components) {
        return Err(ScanError::DangerousPath);
    }
    Ok(())
}

/// Every reason given for a rejection has at least one character.
pub proof fn lemma_rejection_reason_nonempty(e: ScanError)
    requires
        e.is_validation_error(),
    ensures
        rejection_reason(e).len() > 0,
{
    reveal_strlit("Path does not exist");
    reveal_strlit("Path is not a directory");
    reveal_strlit(
        "This folder is too close to the system root. Please select a folder at least 3 levels deep (e.g., /Users/name/projects).",
    );
}

/// Validates a candidate root.
///
/// A path of fewer than [`MIN_PATH_COMPONENTS`] components is never valid. A
/// path in the catalog of system paths is never valid, and the reason given
/// is not empty. A path that exists, is a directory and is not dangerous is
/// valid, with no reason.
pub fn validate_path(path: &str, facts: &PathFacts) -> (r: PathValidation)
    ensures
        r@ == path_verdict(path@, *facts),
        r.valid <==> root_rejection(path@, *facts) is None,
        r.valid <==> r.reason is None,
        facts.components < MIN_PATH_COMPONENTS ==> !r.valid,
        in_dangerous_catalog(path@) ==> !r.valid && r@.reason is Some && r@.reason->0.len() > 0,
        facts.exists && facts.is_dir && !is_dangerous(path@, facts.components as nat) ==> r.valid
            && r.reason is None,
{
    match check_root(path, facts) {
        Ok(()) => PathValidation { valid: true, reason: None },
        Err(e) => {
            proof {
                lemma_rejection_reason_nonempty(e);
            }
            let reason = match e {
                ScanError::DangerousPath => "This folder is too close to the system root. Please select a folder at least 3 levels deep (e.g., /Users/name/projects).".to_string(),
                _ => e.message(),
            };
            PathValidation { valid: false, reason: Some(reason) }
        },
    }
}

} // verus!
