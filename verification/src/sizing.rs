//! Measuring one heavy folder: the running total of a walk over its subtree.
//!
//! The walk itself belongs to the caller. For every entry it meets, the
//! caller hands the tally what it learned about the entry and gets back
//! whether to go on.

use vstd::prelude::*;
use crate::cancel::CancellationToken;

verus! {

/// The cancellation token is polled before an entry whenever the number of
/// files counted so far is a multiple of this.
pub const FILE_POLL_INTERVAL: u64 = 500;

/// What a folder holds: the bytes of its files and their number.
#[derive(Clone, Copy, Debug, PartialEq, Eq, Structural)]
pub struct FolderSize {
    pub size: u64,
    pub file_count: u64,
}

/// The running total of a measurement.
#[derive(Debug, PartialEq, Eq)]
pub struct FolderSizeTally {
    /// The bytes of the files counted so far.
    pub total_size: u64,
    /// The number of files counted so far.
    pub file_count: u64,
}

/// What the walk does after an entry.
#[derive(Debug, PartialEq, Eq)]
pub enum SizeStep {
    /// Go on with the next entry.
    Continue(FolderSizeTally),
    /// Stop: cancellation was observed. Nothing was measured.
    Cancelled,
}

/// A measurement that has counted `file_count` files polls the token before
/// its next entry.
pub open spec fn size_poll_due(file_count: nat) -> bool {
    file_count % (FILE_POLL_INTERVAL as nat) == 0
}

/// The bytes that an entry adds: the length of a regular file whose metadata
/// could be read, nothing for any other entry.
pub open spec fn counted_bytes(file_len: Option<u64>) -> nat {
    match file_len {
        Some(len) => len as nat,
        None => 0,
    }
}

/// The files that an entry adds: one or none.
pub open spec fn counted_files(file_len: Option<u64>) -> nat {
    match file_len {
        Some(_) => 1,
        None => 0,
    }
}

impl FolderSizeTally {
    /// Counting the entry keeps both totals within `u64`.
    pub open spec fn fits(&self, file_len: Option<u64>) -> bool {
        &&& self.total_size + counted_bytes(file_len) <= u64::MAX
        &&& self.file_count + counted_files(file_len) <= u64::MAX
    }

    /// `next` is what follows this tally after an entry, given what a poll of
    /// the token would observe: cancellation at a polling point if the token
    /// is signalled, and otherwise the tally with the entry counted.
    pub open spec fn followed_by(
        &self,
        file_len: Option<u64>,
        cancel_observed: bool,
        next: SizeStep,
    ) -> bool {
        if size_poll_due(self.file_count as nat) && cancel_observed {
            next == SizeStep::Cancelled
        } else {
            next == SizeStep::Continue(
                FolderSizeTally {
                    total_size: (self.total_size + counted_bytes(file_len)) as u64,
                    file_count: (self.file_count + counted_files(file_len)) as u64,
                },
            )
        }
    }

    /// The tally of a walk that has met no entry yet.
    pub fn new() -> (r: Self)
        ensures
            r.total_size == 0,
            r.file_count == 0,
    {
        FolderSizeTally { total_size: 0, file_count: 0 }
    }

    /// Tells whether the token is polled before the next entry.
    pub fn poll_due(&self) -> (r: bool)
        ensures
            r == size_poll_due(self.file_count as nat),
    {
        self.file_count % FILE_POLL_INTERVAL == 0
    }

    /// Tells whether the entry can be counted without overflow.
    pub fn can_count(&self, file_len: Option<u64>) -> (r: bool)
        ensures
            r == self.fits(file_len),
    {
        match file_len {
            Some(len) => len <= u64::MAX - self.total_size && self.file_count < u64::MAX,
            None => true,
        }
    }

    /// Takes one entry of the walk. `file_len` is the length of the entry if
    /// it is a regular file whose metadata could be read, and `None` for
    /// every other entry: those are skipped. `cancel_observed` is what a poll
    /// of the token gives; it matters only at a polling point.
    pub fn step_entry(self, file_len: Option<u64>, cancel_observed: bool) -> (r: SizeStep)
        requires
            self.fits(file_len),
        ensures
            self.followed_by(file_len, cancel_observed, r),
    {
        if self.file_count % FILE_POLL_INTERVAL == 0 && cancel_observed {
            return SizeStep::Cancelled;
        }
        match file_len {
            Some(len) => SizeStep::Continue(
                FolderSizeTally {
                    total_size: self.total_size + len,
                    file_count: self.file_count + 1,
                },
            ),
            None => SizeStep::Continue(self),
        }
    }

    /// Takes one entry of the walk, polling `token` first if a poll is due.
    /// The step is the one that [`FolderSizeTally::step_entry`] takes for
    /// what the poll observed: away from a polling point the entry is
    /// counted; at a polling point it is counted or the walk is cancelled.
    pub fn visit_entry(self, file_len: Option<u64>, token: &CancellationToken) -> (r: SizeStep)
        requires
            self.fits(file_len),
        ensures
            self.followed_by(file_len, false, r) || (size_poll_due(self.file_count as nat)
                && self.followed_by(file_len, true, r)),
    {
        let cancel_observed = self.file_count % FILE_POLL_INTERVAL == 0 && token.is_signaled();
        self.step_entry(file_len, cancel_observed)
    }

    /// The size measured by a walk that has met all its entries.
    pub fn finish(self) -> (r: FolderSize)
        ensures
            r.size == self.total_size,
            r.file_count == self.file_count,
    {
        FolderSize { size: self.total_size, file_count: self.file_count }
    }
}

} // verus!
