//! The main traversal: which directories are heavy folders, which of them
//! are reported, and when the scan gives up.
//!
//! The walk over the file system belongs to the caller. For every directory
//! it visits, the caller asks the scanner what to do; for every heavy folder
//! the scanner points out, the caller measures the subtree and hands the
//! size back.

use vstd::prelude::*;
use vstd::string::StringExecFns;
use crate::cancel::CancellationToken;
use crate::catalog::{is_heavy_folder, is_heavy_name};
use crate::error::ScanError;
use crate::report::{
    all_above_threshold, lemma_total_of_permutation, lemma_total_push, of_size, records_of,
    sort_by_size_descending, total_size_of, FolderInfo, FolderRecord, ScanResult,
    MIN_REPORTED_SIZE,
};
use crate::sizing::FolderSize;

verus! {

/// The walk goes no deeper than this many levels below the root.
pub const MAX_SCAN_DEPTH: usize = 15;

/// A scan that would visit more directories than this fails.
pub const MAX_DIRS_LIMIT: u64 = 50_000;

/// The cancellation token is polled before a directory whenever the number
/// of directories visited so far is a multiple of this.
pub const DIR_POLL_INTERVAL: u64 = 100;

/// A scan that has visited `dirs_scanned` directories polls the token before
/// the next one.
pub open spec fn scan_poll_due(dirs_scanned: nat) -> bool {
    dirs_scanned % (DIR_POLL_INTERVAL as nat) == 0
}

/// What the scan decides about a directory.
pub enum DirectoryVerdict {
    /// An ordinary directory: the walk goes on with its children.
    Descend,
    /// A heavy folder: it is measured, and the walk stays out of it.
    Measure,
    /// The scan fails.
    Abort(ScanError),
}

/// The decision about the next directory of a scan that has visited
/// `dirs_scanned` directories. A signal observed at a polling point cancels
/// the scan; else a directory beyond the limit fails it; else the
/// directory's base name tells whether it is a heavy folder.
pub open spec fn directory_verdict(
    dirs_scanned: nat,
    name: Seq<char>,
    cancel_observed: bool,
) -> DirectoryVerdict {
    if scan_poll_due(dirs_scanned) && cancel_observed {
        DirectoryVerdict::Abort(ScanError::Cancelled)
    } else if dirs_scanned + 1 > MAX_DIRS_LIMIT {
        DirectoryVerdict::Abort(ScanError::DirectoryLimitExceeded)
    } else if is_heavy_name(name) {
        DirectoryVerdict::Measure
    } else {
        DirectoryVerdict::Descend
    }
}

/// The display name of a heavy folder: the name of its parent directory, a
/// slash, and its own name. A folder without a named parent has the empty
/// text in the parent's place.
pub open spec fn display_name(parent_name: Option<Seq<char>>, name: Seq<char>) -> Seq<char> {
    match parent_name {
        Some(parent) => parent + "/"@ + name,
        None => "/"@ + name,
    }
}

/// The view of an optional text.
pub open spec fn text_of(s: Option<&str>) -> Option<Seq<char>> {
    match s {
        Some(t) => Some(t@),
        None => None,
    }
}

/// A scan in progress.
#[derive(Debug)]
pub struct HeavyFolderScanner {
    scan_path: String,
    dirs_scanned: u64,
    folders: Vec<FolderInfo>,
    total_size: u64,
}

/// A scan that waits for the size of the heavy folder it has just met.
#[derive(Debug)]
pub struct PendingMeasurement {
    scanner: HeavyFolderScanner,
    name: String,
}

/// What the walk does after a directory.
#[derive(Debug)]
pub enum DirectoryStep {
    /// Go on with the directory's children.
    Descend(HeavyFolderScanner),
    /// Measure the directory's subtree, hand the size to the pending
    /// measurement, and go on without the directory's children.
    Measure(PendingMeasurement),
    /// Stop: the scan has failed, and nothing of it is left.
    Abort(ScanError),
}

impl HeavyFolderScanner {
    #[verifier::type_invariant]
    spec fn inv(self) -> bool {
        &&& self.dirs_scanned <= MAX_DIRS_LIMIT
        &&& all_above_threshold(records_of(self.folders@))
        &&& self.total_size as nat == total_size_of(records_of(self.folders@))
    }

    /// The root being scanned.
    pub closed spec fn scan_path(&self) -> Seq<char> {
        self.scan_path@
    }

    /// The number of directories visited so far.
    pub closed spec fn dirs_scanned(&self) -> nat {
        self.dirs_scanned as nat
    }

    /// The folders recorded so far, in the order in which they were met.
    pub closed spec fn records(&self) -> Seq<FolderRecord> {
        records_of(self.folders@)
    }

    /// `next` is what follows this scan after a directory named `name`, given
    /// what a poll of the token would observe.
    pub open spec fn followed_by(
        &self,
        name: Seq<char>,
        cancel_observed: bool,
        next: DirectoryStep,
    ) -> bool {
        match next {
            DirectoryStep::Abort(e) => directory_verdict(self.dirs_scanned(), name, cancel_observed)
                == DirectoryVerdict::Abort(e),
            DirectoryStep::Descend(s) => {
                &&& directory_verdict(self.dirs_scanned(), name, cancel_observed)
                    == DirectoryVerdict::Descend
                &&& s.scan_path() == self.scan_path()
                &&& s.dirs_scanned() == self.dirs_scanned() + 1
                &&& s.records() == self.records()
            },
            DirectoryStep::Measure(p) => {
                &&& directory_verdict(self.dirs_scanned(), name, cancel_observed)
                    == DirectoryVerdict::Measure
                &&& p.name() == name
                &&& p.scan_path() == self.scan_path()
                &&& p.dirs_scanned() == self.dirs_scanned() + 1
                &&& p.records() == self.records()
            },
        }
    }

    /// Begins a scan of `scan_path`: clears the token, so that a request
    /// meant for an earlier scan does not stop this one.
    pub fn begin(scan_path: &str, token: &CancellationToken) -> (r: Self)
        ensures
            r.scan_path() == scan_path@,
            r.dirs_scanned() == 0,
            r.records() == Seq::<FolderRecord>::empty(),
    {
        token.reset();
        let folders: Vec<FolderInfo> = Vec::new();
        assert(records_of(folders@) =~= Seq::<FolderRecord>::empty());
        HeavyFolderScanner {
            scan_path: scan_path.to_string(),
            dirs_scanned: 0,
            folders,
            total_size: 0,
        }
    }

    /// The root being scanned.
    pub fn root(&self) -> (r: &str)
        ensures
            r@ == self.scan_path(),
    {
        self.scan_path.as_str()
    }

    /// The number of directories visited so far. It never exceeds
    /// [`MAX_DIRS_LIMIT`].
    pub fn directories_visited(&self) -> (r: u64)
        ensures
            r == self.dirs_scanned(),
            r <= MAX_DIRS_LIMIT,
    {
        proof {
            use_type_invariant(self);
        }
        self.dirs_scanned
    }

    /// The folders recorded so far, in the order in which they were met.
    /// Each is larger than [`MIN_REPORTED_SIZE`].
    pub fn folders(&self) -> (r: &Vec<FolderInfo>)
        ensures
            records_of(r@) == self.records(),
            all_above_threshold(self.records()),
    {
        proof {
            use_type_invariant(self);
        }
        &self.folders
    }

    /// Tells whether the token is polled before the next directory.
    pub fn poll_due(&self) -> (r: bool)
        ensures
            r == scan_poll_due(self.dirs_scanned()),
    {
        self.dirs_scanned % DIR_POLL_INTERVAL == 0
    }

    /// Takes one directory of the walk, identified by its base name.
    /// `cancel_observed` is what a poll of the token gives; it matters only
    /// at a polling point.
    pub fn step_directory(self, name: &str, cancel_observed: bool) -> (r: DirectoryStep)
        ensures
            self.followed_by(name@, cancel_observed, r),
    {
        proof {
            use_type_invariant(&self);
        }
        if self.dirs_scanned % DIR_POLL_INTERVAL == 0 && cancel_observed {
            return DirectoryStep::Abort(ScanError::Cancelled);
        }
        if self.dirs_scanned >= MAX_DIRS_LIMIT {
            return DirectoryStep::Abort(ScanError::DirectoryLimitExceeded);
        }
        let heavy = is_heavy_folder(name);
        let scanner = HeavyFolderScanner {
            scan_path: self.scan_path,
            dirs_scanned: self.dirs_scanned + 1,
            folders: self.folders,
            total_size: self.total_size,
        };
        if heavy {
            DirectoryStep::Measure(PendingMeasurement { scanner, name: name.to_string() })
        } else {
            DirectoryStep::Descend(scanner)
        }
    }

    /// Takes one directory of the walk, polling `token` first if a poll is
    /// due. The step is the one that [`HeavyFolderScanner::step_directory`]
    /// takes for what the poll observed.
    pub fn visit_directory(self, name: &str, token: &CancellationToken) -> (r: DirectoryStep)
        ensures
            self.followed_by(name@, false, r) || (scan_poll_due(self.dirs_scanned())
                && self.followed_by(name@, true, r)),
    {
        let cancel_observed = self.dirs_scanned % DIR_POLL_INTERVAL == 0 && token.is_signaled();
        self.step_directory(name, cancel_observed)
    }

    /// Ends the scan: the recorded folders, largest first, their total size
    /// and the root. The result holds every recorded folder once; folders of
    /// one size stand in the order in which the walk met them.
    pub fn finish(self) -> (r: ScanResult)
        ensures
            r.wf(),
            r.scan_path@ == self.scan_path(),
            r.records().to_multiset() == self.records().to_multiset(),
            r.records().len() == self.records().len(),
            forall|size: nat| #[trigger] of_size(r.records(), size) == of_size(self.records(), size),
    {
        proof {
            use_type_invariant(&self);
        }
        let ghost before = records_of(self.folders@);
        let folders = sort_by_size_descending(self.folders);
        proof {
            let after = records_of(folders@);
            lemma_total_of_permutation(after, before);
            before.to_multiset_ensures();
            after.to_multiset_ensures();
            assert forall|i: int| 0 <= i < after.len() implies (#[trigger] after[i]).size
                > MIN_REPORTED_SIZE by {
                assert(after.contains(after[i]));
                assert(before.to_multiset().count(after[i]) > 0);
                assert(before.contains(after[i]));
            }
        }
        ScanResult { folders, total_size: self.total_size, scan_path: self.scan_path }
    }
}

impl PendingMeasurement {
    #[verifier::type_invariant]
    spec fn inv(self) -> bool {
        is_heavy_name(self.name@)
    }

    /// The base name of the heavy folder being measured.
    pub closed spec fn name(&self) -> Seq<char> {
        self.name@
    }

    /// The root being scanned.
    pub closed spec fn scan_path(&self) -> Seq<char> {
        self.scanner.scan_path()
    }

    /// The number of directories visited so far, the heavy folder included.
    pub closed spec fn dirs_scanned(&self) -> nat {
        self.scanner.dirs_scanned()
    }

    /// The folders recorded so far.
    pub closed spec fn records(&self) -> Seq<FolderRecord> {
        self.scanner.records()
    }

    /// The sum of the sizes of the folders recorded so far.
    pub open spec fn total(&self) -> nat {
        total_size_of(self.records())
    }

    /// Recording a folder of this size keeps the total within `u64`. A
    /// folder at or below [`MIN_REPORTED_SIZE`] is not recorded and always
    /// fits.
    pub open spec fn fits(&self, measured: Option<FolderSize>) -> bool {
        match measured {
            Some(m) => m.size > MIN_REPORTED_SIZE ==> self.total() + m.size <= u64::MAX,
            None => true,
        }
    }

    /// The record that a measurement adds, if it adds one.
    pub open spec fn record_for(
        &self,
        path: Seq<char>,
        parent_name: Option<Seq<char>>,
        m: FolderSize,
    ) -> FolderRecord {
        FolderRecord {
            path,
            name: display_name(parent_name, self.name()),
            size: m.size as nat,
            file_count: m.file_count as nat,
        }
    }

    /// The records after a measurement: a folder larger than
    /// [`MIN_REPORTED_SIZE`] joins them, any other does not.
    pub open spec fn recorded(
        &self,
        path: Seq<char>,
        parent_name: Option<Seq<char>>,
        m: FolderSize,
    ) -> Seq<FolderRecord> {
        if m.size > MIN_REPORTED_SIZE {
            self.records().push(self.record_for(path, parent_name, m))
        } else {
            self.records()
        }
    }

    /// The base name of the heavy folder being measured. It is in the
    /// catalog of heavy folders.
    pub fn folder_name(&self) -> (r: &str)
        ensures
            r@ == self.name(),
            is_heavy_name(r@),
    {
        proof {
            use_type_invariant(self);
        }
        self.name.as_str()
    }

    /// Tells whether the measured size can be recorded without overflow of
    /// the total.
    pub fn can_record(&self, measured: Option<FolderSize>) -> (r: bool)
        ensures
            r == self.fits(measured),
    {
        proof {
            use_type_invariant(&self.scanner);
        }
        match measured {
            Some(m) => m.size <= MIN_REPORTED_SIZE || m.size <= u64::MAX - self.scanner.total_size,
            None => true,
        }
    }

    /// Takes the outcome of the measurement of the heavy folder at `path`,
    /// whose parent directory is named `parent_name` (`None` where it has no
    /// named parent). `None` for `measured` says that the measurement was
    /// cancelled, and cancels the scan. A folder larger than
    /// [`MIN_REPORTED_SIZE`] is recorded; any other is dropped.
    pub fn record(
        self,
        path: &str,
        parent_name: Option<&str>,
        measured: Option<FolderSize>,
    ) -> (r: Result<HeavyFolderScanner, ScanError>)
        requires
            self.fits(measured),
        ensures
            measured is None <==> r is Err,
            r matches Err(e) ==> e == ScanError::Cancelled,
            r matches Ok(s) ==> s.scan_path() == self.scan_path(),
            r matches Ok(s) ==> s.dirs_scanned() == self.dirs_scanned(),
            r matches Ok(s) ==> s.records() == self.recorded(
                path@,
                text_of(parent_name),
                measured->0,
            ),
    {
        proof {
            use_type_invariant(&self);
            use_type_invariant(&self.scanner);
        }
        let m = match measured {
            Some(m) => m,
            None => {
                return Err(ScanError::Cancelled);
            },
        };
        if m.size <= MIN_REPORTED_SIZE {
            return Ok(self.scanner);
        }
        let mut display = match parent_name {
            Some(parent) => parent.to_string(),
            None => String::new(),
        };
        display.append("/");
        display.append(self.name.as_str());
        proof {
            assert(Seq::<char>::empty() + "/"@ =~= "/"@);
        }
        let info = FolderInfo {
            path: path.to_string(),
            name: display,
            size: m.size,
            file_count: m.file_count,
        };
        let scanner = self.scanner;
        let ghost before = records_of(scanner.folders@);
        let mut folders = scanner.folders;
        folders.push(info);
        proof {
            assert(records_of(folders@) =~= before.push(info@));
            lemma_total_push(before, info@);
        }
        Ok(
            HeavyFolderScanner {
                scan_path: scanner.scan_path,
                dirs_scanned: scanner.dirs_scanned,
                folders,
                total_size: scanner.total_size + m.size,
            },
        )
    }
}

} // verus!
