//! The cancellation signal that long-running work polls.

use std::sync::atomic::AtomicBool;
use std::sync::atomic::Ordering;
use vstd::prelude::*;

verus! {

/// A boolean signal shared between the side that asks a scan to stop and the
/// work that is asked.
///
/// All three operations are atomic and need no lock. The flag may be set or
/// cleared by another thread at any moment, so nothing is stated about what
/// [`CancellationToken::is_signaled`] returns: the functions that poll the
/// token are specified for either answer.
#[derive(Debug)]
pub struct CancellationToken {
    flag: AtomicBool,
}

impl CancellationToken {
    /// A token that is not signalled.
    pub fn new() -> Self {
        CancellationToken { flag: AtomicBool::new(false) }
    }

    /// Clears the signal. Every scan does this before it begins, so that a
    /// request meant for an earlier scan does not stop it.
    pub fn reset(&self) {
        self.flag.store(false, Ordering::SeqCst);
    }

    /// Asks the work that polls this token to stop. The work stops at its
    /// next polling point.
    pub fn signal(&self) {
        self.flag.store(true, Ordering::SeqCst);
    }

    /// Reads the signal.
    pub fn is_signaled(&self) -> bool {
        self.flag.load(Ordering::SeqCst)
    }
}

} // verus!
