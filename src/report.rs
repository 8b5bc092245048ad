use vstd::prelude::*;

use crate::dispatch::RunOutcome;
use crate::error::{OutcomeClass, error_class};

verus! {

/// How a run's outcome counts in a report.
pub open spec fn outcome_class(o: RunOutcome) -> OutcomeClass {
    match o {
        Ok(_) => OutcomeClass::Succeeded,
        Err(e) => error_class(e@),
    }
}

/// How many of the results count as `class`.
pub open spec fn count_class(results: Seq<(String, RunOutcome)>, class: OutcomeClass) -> nat
    decreases results.len(),
{
    if results.len() == 0 {
        0
    } else {
        count_class(results.drop_last(), class) + if outcome_class(results.last().1) == class {
            1nat
        } else {
            0nat
        }
    }
}

/// Totals of a batch's outcomes.
#[derive(Debug, Clone, Copy, PartialEq, Eq, Structural)]
pub struct Statistics {
    pub successful: usize,
    pub failed: usize,
    pub skipped: usize,
}

impl Statistics {
    /// Every outcome counted.
    pub fn total(&self) -> (r: usize)
        requires
            self.successful + self.failed + self.skipped <= usize::MAX,
        ensures
            r == self.successful + self.failed + self.skipped,
    {
        self.successful + self.failed + self.skipped
    }
}

/// Counts the successes, failures and skips among a batch's outcomes;
/// duplicates and unrecognised filenames count as skips.
pub fn tally(results: &Vec<(String, RunOutcome)>) -> (r: Statistics)
    ensures
        r.successful == count_class(results@, OutcomeClass::Succeeded),
        r.failed == count_class(results@, OutcomeClass::Failed),
        r.skipped == count_class(results@, OutcomeClass::Skipped),
        r.successful + r.failed + r.skipped == results@.len(),
{
    let mut stats = Statistics { successful: 0, failed: 0, skipped: 0 };
    let mut i: usize = 0;
    while i < results.len()
        invariant
            i <= results@.len(),
            stats.successful == count_class(results@.subrange(0, i as int), OutcomeClass::Succeeded),
            stats.failed == count_class(results@.subrange(0, i as int), OutcomeClass::Failed),
            stats.skipped == count_class(results@.subrange(0, i as int), OutcomeClass::Skipped),
            stats.successful + stats.failed + stats.skipped == i,
        decreases results@.len() - i,
    {
        assert(results@.subrange(0, i + 1).drop_last() =~= results@.subrange(0, i as int));
        let class = match &results[i].1 {
            Ok(_) => OutcomeClass::Succeeded,
            Err(e) => e.class(),
        };
        match class {
            OutcomeClass::Succeeded => stats.successful = stats.successful + 1,
            OutcomeClass::Failed => stats.failed = stats.failed + 1,
            OutcomeClass::Skipped => stats.skipped = stats.skipped + 1,
        }
        i = i + 1;
    }
    assert(results@.subrange(0, results@.len() as int) =~= results@);
    stats
}

} // verus!
