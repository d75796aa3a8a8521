//! Finding heavy development folders below a root: dependency caches, build
//! outputs and version-control metadata, with their sizes.
//!
//! The library holds the rules and no file-system access. A caller walks the
//! tree and hands over what it finds, entry by entry; the library says which
//! roots may be scanned, which directories are heavy, when a walk has to
//! stop, and what the result is.
//!
//! - [`validate`] and [`coordinator`] decide whether a root may be scanned.
//! - [`complexity`] forecasts the cost of a scan from a shallow sample.
//! - [`scanner`] drives the main walk, [`sizing`] the measurement of one
//!   heavy folder, and [`report`] holds the result.
//! - [`cancel`] is the signal by which a running scan is asked to stop.
//! - [`walk`] states what holds of every walk.

pub mod cancel;
pub mod catalog;
pub mod complexity;
pub mod coordinator;
pub mod error;
pub mod report;
pub mod scanner;
pub mod sizing;
pub mod text;
pub mod validate;
pub mod walk;
