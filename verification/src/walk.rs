//! Models of the two walks of a scan, and what holds of every walk.
//!
//! The outer walk is the sequence of the directories it visits. Of each, the
//! scan reads the base name, polls the token if a poll is due, and, where
//! the directory is a heavy folder, has it measured. The walk that measures
//! a heavy folder is the sequence of the entries below it. Of each, the
//! measurement polls the token if a poll is due and counts the entry if it
//! is a regular file whose metadata can be read.

use vstd::prelude::*;
use crate::error::ScanError;
use crate::scanner::{
    directory_verdict, scan_poll_due, DirectoryVerdict, DIR_POLL_INTERVAL, MAX_DIRS_LIMIT,
};
use crate::sizing::{counted_bytes, counted_files, size_poll_due, FILE_POLL_INTERVAL};

verus! {

/// One directory of a walk.
pub ghost struct Visit {
    /// The directory's base name.
    pub name: Seq<char>,
    /// What a poll of the token before this directory observes.
    pub cancel_observed: bool,
    /// The measurement of this directory, if it is a heavy folder, is
    /// cancelled.
    pub measurement_cancelled: bool,
}

/// What one visit does to a scan that has visited `dirs_scanned`
/// directories: the error that stops the scan, or nothing.
pub open spec fn visit_failure(dirs_scanned: nat, visit: Visit) -> Option<ScanError> {
    match directory_verdict(dirs_scanned, visit.name, visit.cancel_observed) {
        DirectoryVerdict::Abort(e) => Some(e),
        DirectoryVerdict::Measure => if visit.measurement_cancelled {
            Some(ScanError::Cancelled)
        } else {
            None
        },
        DirectoryVerdict::Descend => None,
    }
}

/// The number of visits that a scan gets through before it stops or the
/// walk ends, for a scan that has visited `dirs_scanned` directories before
/// the first of `visits`.
pub open spec fn visits_completed(dirs_scanned: nat, visits: Seq<Visit>) -> nat
    decreases visits.len(),
{
    if visits.len() == 0 {
        0
    } else if visit_failure(dirs_scanned, visits[0]) is Some {
        0
    } else {
        1 + visits_completed(dirs_scanned + 1, visits.drop_first())
    }
}

/// The error that stops the scan of a walk, or nothing if the scan gets
/// through every visit.
pub open spec fn walk_failure(dirs_scanned: nat, visits: Seq<Visit>) -> Option<ScanError>
    decreases visits.len(),
{
    if visits.len() == 0 {
        None
    } else {
        match visit_failure(dirs_scanned, visits[0]) {
            Some(e) => Some(e),
            None => walk_failure(dirs_scanned + 1, visits.drop_first()),
        }
    }
}

/// No cancellation is observed anywhere in the walk.
pub open spec fn undisturbed(visits: Seq<Visit>) -> bool {
    forall|i: int|
        0 <= i < visits.len() ==> !(#[trigger] visits[i]).cancel_observed
            && !visits[i].measurement_cancelled
}

/// A signal observed at a polling point cancels the scan, whatever the
/// directory.
pub proof fn lemma_observed_signal_cancels(dirs_scanned: nat, name: Seq<char>)
    requires
        scan_poll_due(dirs_scanned),
    ensures
        directory_verdict(dirs_scanned, name, true) == DirectoryVerdict::Abort(
            ScanError::Cancelled,
        ),
{
}

/// Wherever a scan stands, a poll of the token is due before one of the next
/// [`DIR_POLL_INTERVAL`] directories.
pub proof fn lemma_scan_poll_within_interval(dirs_scanned: nat)
    ensures
        exists|k: nat| k < DIR_POLL_INTERVAL && #[trigger] scan_poll_due(dirs_scanned + k),
{
    let rest = dirs_scanned % (DIR_POLL_INTERVAL as nat);
    let k: nat = if rest == 0 {
        0
    } else {
        (DIR_POLL_INTERVAL - rest) as nat
    };
    assert(scan_poll_due(dirs_scanned + k));
}

/// Wherever a measurement stands, a poll of the token is due before one of
/// the next [`FILE_POLL_INTERVAL`] files is counted.
pub proof fn lemma_size_poll_within_interval(file_count: nat)
    ensures
        exists|k: nat| k < FILE_POLL_INTERVAL && #[trigger] size_poll_due(file_count + k),
{
    let rest = file_count % (FILE_POLL_INTERVAL as nat);
    let k: nat = if rest == 0 {
        0
    } else {
        (FILE_POLL_INTERVAL - rest) as nat
    };
    assert(size_poll_due(file_count + k));
}

/// A scan never gets through more visits than the walk has, and stops with
/// an error exactly if it does not get through all of them.
pub proof fn lemma_completed_and_failure(dirs_scanned: nat, visits: Seq<Visit>)
    ensures
        visits_completed(dirs_scanned, visits) <= visits.len(),
        walk_failure(dirs_scanned, visits) is Some <==> visits_completed(dirs_scanned, visits)
            < visits.len(),
        walk_failure(dirs_scanned, visits) matches Some(e) ==> visit_failure(
            dirs_scanned + visits_completed(dirs_scanned, visits),
            visits[visits_completed(dirs_scanned, visits) as int],
        ) == Some(e),
    decreases visits.len(),
{
    if visits.len() > 0 && visit_failure(dirs_scanned, visits[0]) is None {
        lemma_completed_and_failure(dirs_scanned + 1, visits.drop_first());
    }
}

/// A scan gets through at most as many directories as the limit leaves: a
/// walk of more directories fails.
pub proof fn lemma_walk_beyond_limit_fails(dirs_scanned: nat, visits: Seq<Visit>)
    requires
        dirs_scanned <= MAX_DIRS_LIMIT,
    ensures
        dirs_scanned + visits_completed(dirs_scanned, visits) <= MAX_DIRS_LIMIT,
        dirs_scanned + visits.len() > MAX_DIRS_LIMIT ==> walk_failure(dirs_scanned, visits)
            is Some,
    decreases visits.len(),
{
    lemma_completed_and_failure(dirs_scanned, visits);
    if visits.len() > 0 && visit_failure(dirs_scanned, visits[0]) is None {
        lemma_walk_beyond_limit_fails(dirs_scanned + 1, visits.drop_first());
    }
}

/// A walk of more directories than the limit allows, during which no
/// cancellation is observed, fails with `DirectoryLimitExceeded`; one of no
/// more directories, with nothing.
pub proof fn lemma_undisturbed_walk(dirs_scanned: nat, visits: Seq<Visit>)
    requires
        dirs_scanned <= MAX_DIRS_LIMIT,
        undisturbed(visits),
    ensures
        dirs_scanned + visits.len() > MAX_DIRS_LIMIT ==> walk_failure(dirs_scanned, visits)
            == Some(ScanError::DirectoryLimitExceeded),
        dirs_scanned + visits.len() <= MAX_DIRS_LIMIT ==> walk_failure(dirs_scanned, visits)
            is None,
    decreases visits.len(),
{
    if visits.len() > 0 {
        let first = visits[0];
        let rest = visits.drop_first();
        assert(!first.cancel_observed && !first.measurement_cancelled);
        assert forall|i: int| 0 <= i < rest.len() implies !(#[trigger] rest[i]).cancel_observed
            && !rest[i].measurement_cancelled by {
            assert(rest[i] == visits[i + 1]);
        }
        if dirs_scanned < MAX_DIRS_LIMIT {
            lemma_undisturbed_walk(dirs_scanned + 1, rest);
        }
    }
}

/// Once the token is signalled and stays so, the scan stops within
/// [`DIR_POLL_INTERVAL`] directories: if every poll from the visit at
/// `since` on observes the signal, the scan gets through fewer than
/// `since + DIR_POLL_INTERVAL` visits.
pub proof fn lemma_signal_stops_walk(dirs_scanned: nat, visits: Seq<Visit>, since: nat)
    requires
        forall|i: int| since <= i < visits.len() ==> (#[trigger] visits[i]).cancel_observed,
    ensures
        visits.len() >= since + DIR_POLL_INTERVAL ==> visits_completed(dirs_scanned, visits)
            < since + DIR_POLL_INTERVAL,
        visits.len() >= since + DIR_POLL_INTERVAL ==> walk_failure(dirs_scanned, visits)
            is Some,
    decreases visits.len(),
{
    lemma_completed_and_failure(dirs_scanned, visits);
    if visits.len() >= since + DIR_POLL_INTERVAL {
        if visit_failure(dirs_scanned, visits[0]) is None {
            let rest = visits.drop_first();
            if since == 0 {
                lemma_stops_before_next_poll(dirs_scanned, visits);
            } else {
                assert forall|i: int| since - 1 <= i < rest.len() implies (
                #[trigger] rest[i]).cancel_observed by {
                    assert(rest[i] == visits[i + 1]);
                }
                lemma_signal_stops_walk(dirs_scanned + 1, rest, (since - 1) as nat);
            }
        }
    }
}

/// A scan whose every poll observes the signal is cancelled, and fails in no
/// other way, if the walk is long enough to reach a polling point:
/// [`DIR_POLL_INTERVAL`] directories are enough.
pub proof fn lemma_signal_cancels_walk(dirs_scanned: nat, visits: Seq<Visit>)
    requires
        dirs_scanned <= MAX_DIRS_LIMIT,
        forall|i: int| 0 <= i < visits.len() ==> (#[trigger] visits[i]).cancel_observed,
        visits.len() >= DIR_POLL_INTERVAL,
    ensures
        walk_failure(dirs_scanned, visits) == Some(ScanError::Cancelled),
{
    lemma_cancelled_at_next_poll(dirs_scanned, visits);
}

/// A signal that arrives while the scan is running, and stays, cancels it:
/// if the scan gets through the first `since` visits, every poll from the
/// visit at `since` on observes the signal, and the walk has
/// [`DIR_POLL_INTERVAL`] more directories, the scan fails with `Cancelled`
/// and in no other way.
pub proof fn lemma_signal_cancels_running_walk(dirs_scanned: nat, visits: Seq<Visit>, since: nat)
    requires
        dirs_scanned <= MAX_DIRS_LIMIT,
        since <= visits_completed(dirs_scanned, visits),
        forall|i: int| since <= i < visits.len() ==> (#[trigger] visits[i]).cancel_observed,
        visits.len() >= since + DIR_POLL_INTERVAL,
    ensures
        walk_failure(dirs_scanned, visits) == Some(ScanError::Cancelled),
    decreases since,
{
    if since == 0 {
        lemma_signal_cancels_walk(dirs_scanned, visits);
    } else {
        let rest = visits.drop_first();
        assert forall|i: int| since - 1 <= i < rest.len() implies (#[trigger] rest[i]).cancel_observed by {
            assert(rest[i] == visits[i + 1]);
        }
        lemma_signal_cancels_running_walk(dirs_scanned + 1, rest, (since - 1) as nat);
    }
}

/// A scan whose every poll observes the signal is cancelled if the walk has
/// more directories than it takes to reach its next polling point.
proof fn lemma_cancelled_at_next_poll(dirs_scanned: nat, visits: Seq<Visit>)
    requires
        dirs_scanned <= MAX_DIRS_LIMIT,
        forall|i: int| 0 <= i < visits.len() ==> (#[trigger] visits[i]).cancel_observed,
        visits.len() > (DIR_POLL_INTERVAL - dirs_scanned % (DIR_POLL_INTERVAL as nat)) % (
        DIR_POLL_INTERVAL as int),
    ensures
        walk_failure(dirs_scanned, visits) == Some(ScanError::Cancelled),
    decreases visits.len(),
{
    if scan_poll_due(dirs_scanned) {
        lemma_observed_signal_cancels(dirs_scanned, visits[0].name);
    } else if visit_failure(dirs_scanned, visits[0]) is None {
        let rest = visits.drop_first();
        assert forall|i: int| 0 <= i < rest.len() implies (#[trigger] rest[i]).cancel_observed by {
            assert(rest[i] == visits[i + 1]);
        }
        lemma_cancelled_at_next_poll(dirs_scanned + 1, rest);
    }
}

/// A scan whose every poll observes the signal stops at its next polling
/// point.
proof fn lemma_stops_before_next_poll(dirs_scanned: nat, visits: Seq<Visit>)
    requires
        forall|i: int| 0 <= i < visits.len() ==> (#[trigger] visits[i]).cancel_observed,
    ensures
        visits_completed(dirs_scanned, visits) <= (DIR_POLL_INTERVAL - dirs_scanned % (
        DIR_POLL_INTERVAL as nat)) % (DIR_POLL_INTERVAL as int),
    decreases visits.len(),
{
    if visits.len() > 0 {
        if scan_poll_due(dirs_scanned) {
            lemma_observed_signal_cancels(dirs_scanned, visits[0].name);
        } else if visit_failure(dirs_scanned, visits[0]) is None {
            let rest = visits.drop_first();
            assert forall|i: int| 0 <= i < rest.len() implies (#[trigger] rest[i]).cancel_observed by {
                assert(rest[i] == visits[i + 1]);
            }
            lemma_stops_before_next_poll(dirs_scanned + 1, rest);
        }
    }
}

/// One entry of the walk that measures a heavy folder.
pub ghost struct EntryVisit {
    /// The length of the entry, if it is a regular file whose metadata can
    /// be read.
    pub file_len: Option<u64>,
    /// What a poll of the token before this entry observes.
    pub cancel_observed: bool,
}

/// The bytes of the files among `entries` that are counted.
pub open spec fn bytes_of(entries: Seq<EntryVisit>) -> nat
    decreases entries.len(),
{
    if entries.len() == 0 {
        0
    } else {
        counted_bytes(entries[0].file_len) + bytes_of(entries.drop_first())
    }
}

/// The number of the files among `entries` that are counted.
pub open spec fn files_of(entries: Seq<EntryVisit>) -> nat
    decreases entries.len(),
{
    if entries.len() == 0 {
        0
    } else {
        counted_files(entries[0].file_len) + files_of(entries.drop_first())
    }
}

/// The outcome of a measurement that has counted `file_count` files of
/// `total_size` bytes before the first of `entries`: the bytes and the
/// number of files at the end of the walk, or nothing if a signal observed
/// at a polling point cancels it.
pub open spec fn measurement(total_size: nat, file_count: nat, entries: Seq<EntryVisit>) -> Option<
    (nat, nat),
>
    decreases entries.len(),
{
    if entries.len() == 0 {
        Some((total_size, file_count))
    } else if size_poll_due(file_count) && entries[0].cancel_observed {
        None
    } else {
        measurement(
            total_size + counted_bytes(entries[0].file_len),
            file_count + counted_files(entries[0].file_len),
            entries.drop_first(),
        )
    }
}

/// A measurement during which no cancellation is observed gives the exact
/// sum of the lengths of the files it met, and their number.
pub proof fn lemma_undisturbed_measurement(
    total_size: nat,
    file_count: nat,
    entries: Seq<EntryVisit>,
)
    requires
        forall|i: int| 0 <= i < entries.len() ==> !(#[trigger] entries[i]).cancel_observed,
    ensures
        measurement(total_size, file_count, entries) == Some(
            (total_size + bytes_of(entries), file_count + files_of(entries)),
        ),
    decreases entries.len(),
{
    if entries.len() > 0 {
        let rest = entries.drop_first();
        assert(!entries[0].cancel_observed);
        assert forall|i: int| 0 <= i < rest.len() implies !(#[trigger] rest[i]).cancel_observed by {
            assert(rest[i] == entries[i + 1]);
        }
        lemma_undisturbed_measurement(
            total_size + counted_bytes(entries[0].file_len),
            file_count + counted_files(entries[0].file_len),
            rest,
        );
    }
}

/// Once the token is signalled and stays so, a measurement is cancelled
/// before it has counted [`FILE_POLL_INTERVAL`] more files: if every poll
/// observes the signal and the entries hold that many files, nothing is
/// measured.
pub proof fn lemma_signal_stops_measurement(
    total_size: nat,
    file_count: nat,
    entries: Seq<EntryVisit>,
)
    requires
        forall|i: int| 0 <= i < entries.len() ==> (#[trigger] entries[i]).cancel_observed,
        files_of(entries) >= FILE_POLL_INTERVAL,
    ensures
        measurement(total_size, file_count, entries) is None,
{
    lemma_measurement_stops_at_poll(total_size, file_count, entries);
}

/// A signal that arrives while the measurement is running, and stays,
/// cancels it: if every poll from the entry at `since` on observes the
/// signal and the entries from there on hold [`FILE_POLL_INTERVAL`] files,
/// nothing is measured.
pub proof fn lemma_signal_stops_running_measurement(
    total_size: nat,
    file_count: nat,
    entries: Seq<EntryVisit>,
    since: nat,
)
    requires
        since <= entries.len(),
        forall|i: int| since <= i < entries.len() ==> (#[trigger] entries[i]).cancel_observed,
        files_of(entries.skip(since as int)) >= FILE_POLL_INTERVAL,
    ensures
        measurement(total_size, file_count, entries) is None,
    decreases since,
{
    if since == 0 {
        assert(entries.skip(0) =~= entries);
        lemma_signal_stops_measurement(total_size, file_count, entries);
    } else if !(size_poll_due(file_count) && entries[0].cancel_observed) {
        let rest = entries.drop_first();
        assert(rest.skip(since - 1) =~= entries.skip(since as int));
        assert forall|i: int| since - 1 <= i < rest.len() implies (#[trigger] rest[i]).cancel_observed by {
            assert(rest[i] == entries[i + 1]);
        }
        lemma_signal_stops_running_measurement(
            total_size + counted_bytes(entries[0].file_len),
            file_count + counted_files(entries[0].file_len),
            rest,
            (since - 1) as nat,
        );
    }
}

/// A measurement whose every poll observes the signal is cancelled if the
/// entries hold more files than it takes to reach its next polling point.
proof fn lemma_measurement_stops_at_poll(
    total_size: nat,
    file_count: nat,
    entries: Seq<EntryVisit>,
)
    requires
        forall|i: int| 0 <= i < entries.len() ==> (#[trigger] entries[i]).cancel_observed,
        files_of(entries) > (FILE_POLL_INTERVAL - file_count % (FILE_POLL_INTERVAL as nat)) % (
        FILE_POLL_INTERVAL as int),
    ensures
        measurement(total_size, file_count, entries) is None,
    decreases entries.len(),
{
    if entries.len() > 0 && !size_poll_due(file_count) {
        let rest = entries.drop_first();
        assert forall|i: int| 0 <= i < rest.len() implies (#[trigger] rest[i]).cancel_observed by {
            assert(rest[i] == entries[i + 1]);
        }
        lemma_measurement_stops_at_poll(
            total_size + counted_bytes(entries[0].file_len),
            file_count + counted_files(entries[0].file_len),
            rest,
        );
    }
}

} // verus!
