use vstd::prelude::*;

use crate::error::ImageAnalysisError;
use crate::pipeline::ImageAnalysisResult;

verus! {

/// The outcome of one pipeline run.
pub type RunOutcome = Result<ImageAnalysisResult, ImageAnalysisError>;

/// How many of the first `n` runs have no outcome yet.
pub open spec fn pending(outcomes: Seq<Option<RunOutcome>>, n: int) -> nat
    decreases n,
{
    if n <= 0 {
        0
    } else {
        pending(outcomes, n - 1) + if outcomes[n - 1] is None {
            1nat
        } else {
            0nat
        }
    }
}

proof fn lemma_pending_update(
    outcomes: Seq<Option<RunOutcome>>,
    k: int,
    value: RunOutcome,
    n: int,
)
    requires
        0 <= k < outcomes.len(),
        0 <= n <= outcomes.len(),
        outcomes[k] is None,
    ensures
        k < n ==> pending(outcomes.update(k, Some(value)), n) + 1 == pending(outcomes, n),
        k >= n ==> pending(outcomes.update(k, Some(value)), n) == pending(outcomes, n),
    decreases n,
{
    if n > 0 {
        lemma_pending_update(outcomes, k, value, n - 1);
    }
}

proof fn lemma_pending_none_done(outcomes: Seq<Option<RunOutcome>>, n: int)
    requires
        0 <= n <= outcomes.len(),
        pending(outcomes, n) == 0,
    ensures
        forall|i: int| 0 <= i < n ==> #[trigger] outcomes[i] is Some,
    decreases n,
{
    if n > 0 {
        lemma_pending_none_done(outcomes, n - 1);
    }
}

/// Hands a batch of files out to pipeline runs, never more than
/// `max_concurrent` at once, and gathers exactly one outcome per file.
/// Files start in list order; outcomes may arrive in any order.
pub struct BatchDispatcher {
    filenames: Vec<String>,
    max_concurrent: usize,
    next: usize,
    active: usize,
    outcomes: Vec<Option<RunOutcome>>,
}

impl BatchDispatcher {
    pub closed spec fn wf(&self) -> bool {
        &&& self.filenames@.len() == self.outcomes@.len()
        &&& self.next <= self.outcomes@.len()
        &&& self.active == pending(self.outcomes@, self.next as int)
        &&& self.active <= self.max_concurrent
        &&& forall|i: int| self.next <= i < self.outcomes@.len() ==> #[trigger] self.outcomes@[i] is None
    }

    pub closed spec fn filenames_view(&self) -> Seq<String> {
        self.filenames@
    }

    pub closed spec fn outcomes_view(&self) -> Seq<Option<RunOutcome>> {
        self.outcomes@
    }

    /// How many files have been handed out.
    pub closed spec fn started(&self) -> nat {
        self.next as nat
    }

    /// How many runs are in progress.
    pub closed spec fn active_runs(&self) -> nat {
        self.active as nat
    }

    pub closed spec fn cap(&self) -> nat {
        self.max_concurrent as nat
    }

    /// A dispatcher for `filenames` with nothing started.
    pub fn new(filenames: Vec<String>, max_concurrent: usize) -> (r: BatchDispatcher)
        ensures
            r.wf(),
            r.filenames_view() == filenames@,
            r.cap() == max_concurrent,
            r.started() == 0,
            r.active_runs() == 0,
            forall|i: int| 0 <= i < filenames@.len() ==> #[trigger] r.outcomes_view()[i] is None,
    {
        let mut outcomes: Vec<Option<RunOutcome>> = Vec::new();
        let mut i: usize = 0;
        while i < filenames.len()
            invariant
                i <= filenames@.len(),
                outcomes@.len() == i,
                forall|j: int| 0 <= j < i ==> #[trigger] outcomes@[j] is None,
            decreases filenames@.len() - i,
        {
            outcomes.push(None);
            i = i + 1;
        }
        BatchDispatcher { filenames, max_concurrent, next: 0, active: 0, outcomes }
    }

    pub fn active(&self) -> (r: usize)
        ensures
            r == self.active_runs(),
    {
        self.active
    }

    pub fn filename(&self, index: usize) -> (r: &String)
        requires
            index < self.filenames_view().len(),
        ensures
            *r == self.filenames_view()[index as int],
    {
        &self.filenames[index]
    }

    /// Every file has been handed out and every run has ended.
    pub fn is_done(&self) -> (r: bool)
        requires
            self.wf(),
        ensures
            r == (self.started() == self.filenames_view().len() && self.active_runs() == 0),
    {
        self.next == self.filenames.len() && self.active == 0
    }

    /// Hands out the next file, when one is left and a slot is free.
    pub fn start_next(&mut self) -> (r: Option<usize>)
        requires
            old(self).wf(),
        ensures
            final(self).wf(),
            final(self).filenames_view() == old(self).filenames_view(),
            final(self).outcomes_view() == old(self).outcomes_view(),
            final(self).cap() == old(self).cap(),
            (old(self).started() < old(self).filenames_view().len() && old(self).active_runs()
                < old(self).cap()) ==> r == Some(old(self).started() as usize) && final(self).started()
                == old(self).started() + 1 && final(self).active_runs() == old(self).active_runs()
                + 1,
            !(old(self).started() < old(self).filenames_view().len() && old(self).active_runs()
                < old(self).cap()) ==> r is None && final(self).started() == old(self).started()
                && final(self).active_runs() == old(self).active_runs(),
    {
        if self.next < self.filenames.len() && self.active < self.max_concurrent {
            let index = self.next;
            assert(self.outcomes@[index as int] is None);
            self.next = self.next + 1;
            self.active = self.active + 1;
            Some(index)
        } else {
            None
        }
    }

    /// Records the outcome of the run for file `index`, freeing its slot.
    pub fn complete(&mut self, index: usize, outcome: RunOutcome)
        requires
            old(self).wf(),
            index < old(self).started(),
            old(self).outcomes_view()[index as int] is None,
        ensures
            final(self).wf(),
            final(self).filenames_view() == old(self).filenames_view(),
            final(self).outcomes_view() == old(self).outcomes_view().update(
                index as int,
                Some(outcome),
            ),
            final(self).cap() == old(self).cap(),
            final(self).started() == old(self).started(),
            final(self).active_runs() + 1 == old(self).active_runs(),
    {
        proof {
            lemma_pending_update(self.outcomes@, index as int, outcome, self.next as int);
        }
        self.outcomes.set(index, Some(outcome));
        self.active = self.active - 1;
    }

    /// Each file paired with its outcome, last file first.
    pub fn into_results(self) -> (r: Vec<(String, RunOutcome)>)
        requires
            self.wf(),
            self.started() == self.filenames_view().len(),
            self.active_runs() == 0,
        ensures
            r@.len() == self.filenames_view().len(),
            forall|i: int|
                0 <= i < r@.len() ==> {
                    let j = self.filenames_view().len() - 1 - i;
                    &&& (#[trigger] r@[i]).0 == self.filenames_view()[j]
                    &&& self.outcomes_view()[j] == Some(r@[i].1)
                },
    {
        proof {
            lemma_pending_none_done(self.outcomes@, self.next as int);
        }
        let ghost names0 = self.filenames@;
        let ghost outs0 = self.outcomes@;
        let n = self.filenames.len();
        let mut filenames = self.filenames;
        let mut outcomes = self.outcomes;
        let mut r: Vec<(String, RunOutcome)> = Vec::new();
        while filenames.len() > 0
            invariant
                filenames@.len() == outcomes@.len(),
                filenames@ == names0.subrange(0, filenames@.len() as int),
                outcomes@ == outs0.subrange(0, outcomes@.len() as int),
                n == names0.len(),
                names0.len() == outs0.len(),
                r@.len() + filenames@.len() == n,
                forall|i: int| 0 <= i < n ==> #[trigger] outs0[i] is Some,
                forall|i: int|
                    0 <= i < r@.len() ==> {
                        let j = n - 1 - i;
                        &&& (#[trigger] r@[i]).0 == names0[j]
                        &&& outs0[j] == Some(r@[i].1)
                    },
            decreases filenames@.len(),
        {
            let ghost k = filenames@.len() - 1;
            let name = filenames.pop().unwrap();
            let slot = outcomes.pop().unwrap();
            assert(slot == outs0[k]);
            match slot {
                Some(outcome) => {
                    r.push((name, outcome));
                },
                None => {
                    assert(false);
                },
            }
        }
        r
    }
}

/// At no moment are more runs in progress than the dispatcher's cap.
pub proof fn lemma_active_bounded(d: &BatchDispatcher)
    requires
        d.wf(),
    ensures
        d.active_runs() <= d.cap(),
{
}

/// Once every file has been handed out and no run is in progress, every
/// file has its outcome.
pub proof fn lemma_done_has_every_outcome(d: &BatchDispatcher)
    requires
        d.wf(),
        d.started() == d.filenames_view().len(),
        d.active_runs() == 0,
    ensures
        forall|i: int| 0 <= i < d.filenames_view().len() ==> (#[trigger] d.outcomes_view()[i]) is Some,
{
    lemma_pending_none_done(d.outcomes@, d.next as int);
}

} // verus!
