//! The outcome of a run, from what became of its images.
//!
//! The images of a run are worked on side by side. The first failure sets
//! a flag; an image that has not started when it sees the flag is skipped,
//! one that has started is finished. The run fails with the first failure
//! in the order of the input.

use vstd::prelude::*;
use crate::error::Error;
use crate::error::ErrorModel;

verus! {

/// What became of one image of a run.
#[derive(Debug, Clone, PartialEq, Eq)]
pub enum Report {
    /// Read, processed and written.
    Saved,
    /// Never started, because a failure had been seen.
    Skipped,
    /// Started and failed.
    Failed(Error),
}

/// How many of the reports say that the image was saved: the progress of
/// the run.
pub open spec fn saved_among(reports: Seq<Report>) -> nat
    decreases reports.len(),
{
    if reports.len() == 0 {
        0
    } else {
        saved_among(reports.drop_last()) + if reports.last() is Saved {
            1nat
        } else {
            0nat
        }
    }
}

/// Whether the report at position `k` is the first one of a failure.
pub open spec fn first_failure_at(reports: Seq<Report>, k: int) -> bool {
    &&& 0 <= k < reports.len()
    &&& reports[k] is Failed
    &&& forall|j: int| 0 <= j < k ==> !(#[trigger] reports[j] is Failed)
}

impl Report {
    /// Whether this report sets the flag that keeps further images from
    /// starting.
    pub fn raises_flag(&self) -> (r: bool)
        ensures
            r == (self is Failed),
    {
        match self {
            Report::Failed(_) => true,
            _ => false,
        }
    }

    /// Whether this report moves the progress on by one.
    pub fn advances(&self) -> (r: bool)
        ensures
            r == (self is Saved),
    {
        match self {
            Report::Saved => true,
            _ => false,
        }
    }
}

/// Says whether there is anything to run on: no input file is an error.
pub fn require_inputs(count: usize) -> (r: Result<(), Error>)
    ensures
        count > 0 <==> r is Ok,
        r matches Err(e) ==> e@ == ErrorModel::NoInputFiles,
{
    if count == 0 {
        Err(Error::NoInputFiles)
    } else {
        Ok(())
    }
}

/// Says whether an image that has not been started may start: not once
/// the flag is set.
pub fn may_start(flag: bool) -> (r: bool)
    ensures
        r == !flag,
{
    !flag
}

/// Turns the outcome of an image that was started into its report.
pub fn settle(outcome: Result<(), Error>) -> (r: Report)
    ensures
        match outcome {
            Ok(_) => r == Report::Saved,
            Err(e) => r == Report::Failed(e),
        },
{
    match outcome {
        Ok(_) => Report::Saved,
        Err(e) => Report::Failed(e),
    }
}

/// Concludes a run from the reports of its images, given in the order of
/// the input: the run fails with the first failure among them and succeeds
/// if there is none. Later failures are dropped.
pub fn conclude(reports: Vec<Report>) -> (r: Result<(), Error>)
    ensures
        match r {
            Ok(_) => forall|i: int| 0 <= i < reports@.len() ==> !(#[trigger] reports@[i] is Failed),
            Err(e) => exists|k: int| #[trigger]
                first_failure_at(reports@, k) && reports@[k] == Report::Failed(e),
        },
{
    let mut left = reports;
    let mut first: Option<Error> = None;
    while left.len() > 0
        invariant
            left@.len() <= reports@.len(),
            left@ == reports@.subrange(0, left@.len() as int),
            match first {
                None => forall|i: int|
                    left@.len() <= i < reports@.len() ==> !(#[trigger] reports@[i] is Failed),
                Some(e) => exists|k: int|
                    {
                        &&& left@.len() <= k < reports@.len()
                        &&& #[trigger] reports@[k] == Report::Failed(e)
                        &&& forall|j: int| left@.len() <= j < k ==> !(#[trigger] reports@[j] is Failed)
                    },
            },
        decreases left.len(),
    {
        let ghost at = left@.len() - 1;
        let last = left.pop();
        assert(last == Some(reports@[at]));
        match last {
            Some(Report::Failed(e)) => {
                first = Some(e);
            },
            _ => {},
        }
    }
    match first {
        None => Ok(()),
        Some(e) => {
            proof {
                let k = choose|k: int|
                    {
                        &&& 0 <= k < reports@.len()
                        &&& #[trigger] reports@[k] == Report::Failed(e)
                        &&& forall|j: int| 0 <= j < k ==> !(#[trigger] reports@[j] is Failed)
                    };
                assert(first_failure_at(reports@, k));
            }
            Err(e)
        },
    }
}

/// A run in which an image failed fails, with the first failure, and has
/// saved fewer images than it was given.
pub proof fn law_failure_fails_the_run(reports: Seq<Report>, k: int)
    requires
        0 <= k < reports.len(),
        reports[k] is Failed,
    ensures
        exists|first: int| first_failure_at(reports, first) && first <= k,
        saved_among(reports) < reports.len(),
{
    lemma_first_failure(reports, k);
    lemma_saved_bound(reports, k);
}

proof fn lemma_first_failure(reports: Seq<Report>, k: int)
    requires
        0 <= k < reports.len(),
        reports[k] is Failed,
    ensures
        exists|first: int| first_failure_at(reports, first) && first <= k,
    decreases k,
{
    if exists|j: int| 0 <= j < k && #[trigger] reports[j] is Failed {
        let j = choose|j: int| 0 <= j < k && #[trigger] reports[j] is Failed;
        lemma_first_failure(reports, j);
    } else {
        assert(first_failure_at(reports, k));
    }
}

proof fn lemma_saved_bound(reports: Seq<Report>, k: int)
    requires
        0 <= k < reports.len(),
        reports[k] is Failed,
    ensures
        saved_among(reports) < reports.len(),
    decreases reports.len(),
{
    if k == reports.len() - 1 {
        lemma_saved_at_most(reports.drop_last());
    } else {
        lemma_saved_bound(reports.drop_last(), k);
    }
}

proof fn lemma_saved_at_most(reports: Seq<Report>)
    ensures
        saved_among(reports) <= reports.len(),
    decreases reports.len(),
{
    if reports.len() > 0 {
        lemma_saved_at_most(reports.drop_last());
    }
}

} // verus!
