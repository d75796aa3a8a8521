//! The two fixed catalogs: the names of heavy folders and the paths that are
//! never scanned.

use vstd::prelude::*;
use crate::text::{eq_ignore_ascii_case, eq_ignoring_ascii_case, same_text};

verus! {

/// Base names of directories that hold large, regenerable development
/// artifacts: dependency caches, build outputs, version-control metadata.
pub const HEAVY_FOLDERS: [&'static str; 19] = [
    "node_modules",
    ".git",
    "target",
    "build",
    "dist",
    ".next",
    ".nuxt",
    "vendor",
    "__pycache__",
    ".venv",
    "venv",
    ".cargo",
    "Pods",
    "DerivedData",
    ".gradle",
    "obj",
    "bin",
    ".dart_tool",
    ".pub-cache",
];

/// System-critical absolute paths: platform roots and the directories of the
/// operating system, its users and its programs.
pub const DANGEROUS_PATHS: [&'static str; 18] = [
    "/",
    "/Users",
    "/home",
    "/System",
    "/Applications",
    "/Library",
    "/usr",
    "/var",
    "/bin",
    "/sbin",
    "/etc",
    "/opt",
    "/private",
    "C:\\",
    "C:\\Windows",
    "C:\\Program Files",
    "C:\\Program Files (x86)",
    "C:\\Users",
];

/// `name` is exactly one of the entries of [`HEAVY_FOLDERS`].
pub open spec fn is_heavy_name(name: Seq<char>) -> bool {
    exists|i: int| 0 <= i < HEAVY_FOLDERS@.len() && (#[trigger] HEAVY_FOLDERS@[i])@ == name
}

/// `path` equals one of the entries of [`DANGEROUS_PATHS`] up to the case of
/// its ASCII letters.
pub open spec fn in_dangerous_catalog(path: Seq<char>) -> bool {
    exists|i: int|
        0 <= i < DANGEROUS_PATHS@.len() && eq_ignoring_ascii_case(
            path,
            (#[trigger] DANGEROUS_PATHS@[i])@,
        )
}

/// Tells whether a directory's base name is in the heavy-folder catalog.
/// The match is exact: case matters, and no part of a name matches.
pub fn is_heavy_folder(name: &str) -> (r: bool)
    ensures
        r == is_heavy_name(name@),
{
    let mut i: usize = 0;
    while i < HEAVY_FOLDERS.len()
        invariant
            0 <= i <= HEAVY_FOLDERS@.len(),
            forall|j: int| 0 <= j < i ==> (#[trigger] HEAVY_FOLDERS@[j])@ != name@,
        decreases HEAVY_FOLDERS@.len() - i,
    {
        if same_text(HEAVY_FOLDERS[i], name) {
            return true;
        }
        i += 1;
    }
    false
}

/// Tells whether a path is one of the cataloged dangerous paths, compared
/// without regard to the case of ASCII letters.
pub fn is_cataloged_dangerous(path: &str) -> (r: bool)
    ensures
        r == in_dangerous_catalog(path@),
{
    let mut i: usize = 0;
    while i < DANGEROUS_PATHS.len()
        invariant
            0 <= i <= DANGEROUS_PATHS@.len(),
            forall|j: int|
                0 <= j < i ==> !eq_ignoring_ascii_case(path@, (#[trigger] DANGEROUS_PATHS@[j])@),
        decreases DANGEROUS_PATHS@.len() - i,
    {
        if eq_ignore_ascii_case(path, DANGEROUS_PATHS[i]) {
            return true;
        }
        i += 1;
    }
    false
}

} // verus!
