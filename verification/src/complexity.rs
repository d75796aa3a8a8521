//! A cheap forecast of what a full scan would cost.
//!
//! The forecast rests on a shallow sample of the tree: the directories
//! within [`SAMPLE_DEPTH`] levels of the root are counted until
//! [`SAMPLE_CAP`] is reached. The walk belongs to the caller; the sampler
//! counts, says when to stop, and turns the count into a forecast.

use vstd::prelude::*;
use vstd::string::StringExecFns;
use crate::error::ScanError;

verus! {

/// The sample looks no deeper than this many levels below the root.
pub const SAMPLE_DEPTH: usize = 4;

/// The sample stops at this many directories.
pub const SAMPLE_CAP: u64 = 5_000;

/// A sample that reached the cap is taken to stand for this many times as
/// many directories.
pub const SAMPLE_MULTIPLIER: u64 = 10;

/// An estimate above this is large.
pub const LARGE_THRESHOLD: u64 = 10_000;

/// An estimate above this is very large.
pub const VERY_LARGE_THRESHOLD: u64 = 50_000;

/// An estimate above this blocks the scan.
pub const BLOCKED_THRESHOLD: u64 = 100_000;

/// The forecast for a folder.
#[derive(Debug, PartialEq, Eq)]
pub struct ComplexityCheck {
    /// The estimated number of directories.
    pub estimated_directories: u64,
    /// The estimate is above [`LARGE_THRESHOLD`].
    pub is_large: bool,
    /// The estimate is above [`BLOCKED_THRESHOLD`].
    pub is_blocked: bool,
    /// The advice for the user, by the tier of the estimate.
    pub recommendation: String,
}

/// The mathematical content of a [`ComplexityCheck`].
pub ghost struct ComplexityForecast {
    pub estimated_directories: nat,
    pub is_large: bool,
    pub is_blocked: bool,
    pub recommendation: Seq<char>,
}

impl View for ComplexityCheck {
    type V = ComplexityForecast;

    open spec fn view(&self) -> ComplexityForecast {
        ComplexityForecast {
            estimated_directories: self.estimated_directories as nat,
            is_large: self.is_large,
            is_blocked: self.is_blocked,
            recommendation: self.recommendation@,
        }
    }
}

/// The estimate that a sample stands for: the count itself if the sample
/// ended below the cap, and [`SAMPLE_MULTIPLIER`] times the count if it
/// reached it.
pub open spec fn estimate_from_sample(sampled: nat) -> nat {
    if sampled >= SAMPLE_CAP {
        sampled * (SAMPLE_MULTIPLIER as nat)
    } else {
        sampled
    }
}

/// The advice for an estimate, by its tier.
pub open spec fn recommendation_for(estimated: nat) -> Seq<char> {
    if estimated > BLOCKED_THRESHOLD {
        "This folder is too large to scan safely. Please select a more specific subfolder."@
    } else if estimated > VERY_LARGE_THRESHOLD {
        "This folder appears to be very large and may take several minutes to scan. Consider selecting a more specific subfolder."@
    } else if estimated > LARGE_THRESHOLD {
        "This folder is fairly large. The scan may take a minute or more."@
    } else {
        "Folder size looks reasonable for scanning."@
    }
}

/// The forecast for an estimate.
pub open spec fn forecast_for(estimated: nat) -> ComplexityForecast {
    ComplexityForecast {
        estimated_directories: estimated,
        is_large: estimated > LARGE_THRESHOLD,
        is_blocked: estimated > BLOCKED_THRESHOLD,
        recommendation: recommendation_for(estimated),
    }
}

/// Classifies an estimated number of directories.
pub fn classify_estimate(estimated: u64) -> (r: ComplexityCheck)
    ensures
        r@ == forecast_for(estimated as nat),
        r.is_blocked ==> r.is_large,
{
    let is_blocked = estimated > BLOCKED_THRESHOLD;
    let is_large = estimated > LARGE_THRESHOLD;
    let recommendation = if is_blocked {
        "This folder is too large to scan safely. Please select a more specific subfolder.".to_string()
    } else if estimated > VERY_LARGE_THRESHOLD {
        "This folder appears to be very large and may take several minutes to scan. Consider selecting a more specific subfolder.".to_string()
    } else if is_large {
        "This folder is fairly large. The scan may take a minute or more.".to_string()
    } else {
        "Folder size looks reasonable for scanning.".to_string()
    };
    ComplexityCheck { estimated_directories: estimated, is_large, is_blocked, recommendation }
}

/// The count of a sample in progress.
#[derive(Debug)]
pub struct ComplexitySampler {
    dir_count: u64,
}

impl ComplexitySampler {
    #[verifier::type_invariant]
    spec fn inv(self) -> bool {
        self.dir_count <= SAMPLE_CAP
    }

    /// The number of directories sampled so far.
    pub closed spec fn sampled(&self) -> nat {
        self.dir_count as nat
    }

    /// A sample that has counted nothing yet.
    pub fn new() -> (r: Self)
        ensures
            r.sampled() == 0,
    {
        ComplexitySampler { dir_count: 0 }
    }

    /// The number of directories sampled so far. It never exceeds
    /// [`SAMPLE_CAP`].
    pub fn directories_sampled(&self) -> (r: u64)
        ensures
            r == self.sampled(),
            r <= SAMPLE_CAP,
    {
        proof {
            use_type_invariant(self);
        }
        self.dir_count
    }

    /// Counts one directory of the walk and tells whether the walk goes on:
    /// it stops when the count has reached [`SAMPLE_CAP`]. A sample that is
    /// already at the cap stays there.
    pub fn record_directory(&mut self) -> (more: bool)
        ensures
            old(self).sampled() < SAMPLE_CAP ==> final(self).sampled() == old(self).sampled() + 1,
            old(self).sampled() >= SAMPLE_CAP ==> final(self).sampled() == old(self).sampled(),
            more == (final(self).sampled() < SAMPLE_CAP),
    {
        proof {
            use_type_invariant(&*self);
        }
        if self.dir_count < SAMPLE_CAP {
            self.dir_count = self.dir_count + 1;
        }
        self.dir_count < SAMPLE_CAP
    }

    /// The forecast that the sample gives.
    pub fn forecast(&self) -> (r: ComplexityCheck)
        ensures
            r@ == forecast_for(estimate_from_sample(self.sampled())),
            self.sampled() < SAMPLE_CAP ==> r.estimated_directories == self.sampled(),
            self.sampled() >= SAMPLE_CAP ==> r.estimated_directories >= VERY_LARGE_THRESHOLD,
    {
        proof {
            use_type_invariant(self);
        }
        let estimated: u64 = if self.dir_count >= SAMPLE_CAP {
            self.dir_count * SAMPLE_MULTIPLIER
        } else {
            self.dir_count
        };
        classify_estimate(estimated)
    }
}

/// Begins the forecast for a folder: `Err(NotFound)` if the path does not
/// exist, and a fresh sampler if it does.
pub fn check_folder_complexity(exists: bool) -> (r: Result<ComplexitySampler, ScanError>)
    ensures
        exists <==> r is Ok,
        r matches Err(e) ==> e == ScanError::NotFound,
        r matches Ok(s) ==> s.sampled() == 0,
{
    if !exists {
        return Err(ScanError::NotFound);
    }
    Ok(ComplexitySampler::new())
}

/// The message for a forecast whose background task failed, with what the
/// task reported.
pub fn complexity_failure_message(detail: &str) -> (r: String)
    ensures
        r@ == "Complexity check failed: "@ + detail@,
{
    let mut message = "Complexity check failed: ".to_string();
    message.append(detail);
    message
}

} // verus!
