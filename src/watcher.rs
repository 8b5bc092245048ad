use vstd::prelude::*;

use crate::asset::{is_preview_filename, is_preview_name};
use crate::error::{ErrorView, ImageAnalysisError};
use crate::hosts::elapsed;

verus! {

/// Polls with an unchanged, non-zero size needed before a file counts as
/// completely written.
pub const STABLE_POLLS: u32 = 3;

/// What to do after one size poll of a new file.
#[derive(Debug, Clone, Copy, PartialEq, Eq, Structural)]
pub enum StabilityVerdict {
    /// Sleep for the check interval and poll again.
    KeepPolling,
    /// The size held still: the file can be processed.
    Stable,
    /// The write timeout passed first: the file is not processed.
    TimedOut,
}

/// Waits for a file to stop growing: counts consecutive polls whose size is
/// non-zero and equal to the one before.
#[derive(Debug, Clone, Copy, PartialEq, Eq, Structural)]
pub struct StabilityWait {
    pub last_size: u64,
    pub stable_count: u32,
    pub timeout_ms: u64,
}

impl StabilityWait {
    /// The state and verdict after a poll made `elapsed_ms` after the wait
    /// began, which found the file's size (nothing when it could not be read).
    pub open spec fn step(self, elapsed_ms: u64, size: Option<u64>) -> (StabilityWait, StabilityVerdict) {
        if elapsed_ms >= self.timeout_ms {
            (self, StabilityVerdict::TimedOut)
        } else {
            match size {
                None => (self, StabilityVerdict::KeepPolling),
                Some(s) => if s == self.last_size && s > 0 {
                    let next = StabilityWait { stable_count: (self.stable_count + 1) as u32, ..self };
                    if next.stable_count >= STABLE_POLLS {
                        (next, StabilityVerdict::Stable)
                    } else {
                        (next, StabilityVerdict::KeepPolling)
                    }
                } else {
                    (StabilityWait { last_size: s, stable_count: 0, ..self }, StabilityVerdict::KeepPolling)
                },
            }
        }
    }

    /// A wait that gives up after `timeout_ms` milliseconds.
    pub fn new(timeout_ms: u64) -> (r: StabilityWait)
        ensures
            r == (StabilityWait { last_size: 0, stable_count: 0, timeout_ms }),
    {
        StabilityWait { last_size: 0, stable_count: 0, timeout_ms }
    }

    /// Takes one poll into account.
    pub fn poll(&mut self, elapsed_ms: u64, size: Option<u64>) -> (r: StabilityVerdict)
        requires
            old(self).stable_count < STABLE_POLLS,
        ensures
            (*final(self), r) == old(self).step(elapsed_ms, size),
            final(self).stable_count < STABLE_POLLS || r == StabilityVerdict::Stable,
    {
        if elapsed_ms >= self.timeout_ms {
            return StabilityVerdict::TimedOut;
        }
        match size {
            None => StabilityVerdict::KeepPolling,
            Some(s) => if s == self.last_size && s > 0 {
                self.stable_count = self.stable_count + 1;
                if self.stable_count >= STABLE_POLLS {
                    StabilityVerdict::Stable
                } else {
                    StabilityVerdict::KeepPolling
                }
            } else {
                self.last_size = s;
                self.stable_count = 0;
                StabilityVerdict::KeepPolling
            },
        }
    }
}

/// The error for a file that kept changing past the write timeout.
pub fn write_timeout_error(filename: &str, timeout: u64) -> (r: ImageAnalysisError)
    ensures
        r@ == (ErrorView::FileWriteTimeout { timeout, filename: filename@ }),
{
    ImageAnalysisError::FileWriteTimeout { timeout, filename: String::from_str(filename) }
}

/// A file's size read at four polls in a row, all before the timeout, the
/// same and non-zero each time, ends the wait as stable by the fourth poll,
/// whatever the timeout.
pub proof fn lemma_steady_size_is_stable(
    w: StabilityWait,
    s: u64,
    e1: u64,
    e2: u64,
    e3: u64,
    e4: u64,
)
    requires
        w.stable_count < STABLE_POLLS,
        s > 0,
        e1 < w.timeout_ms,
        e2 < w.timeout_ms,
        e3 < w.timeout_ms,
        e4 < w.timeout_ms,
    ensures
        ({
            let (w1, v1) = w.step(e1, Some(s));
            let (w2, v2) = w1.step(e2, Some(s));
            let (w3, v3) = w2.step(e3, Some(s));
            let (w4, v4) = w3.step(e4, Some(s));
            v1 == StabilityVerdict::Stable || v2 == StabilityVerdict::Stable || v3
                == StabilityVerdict::Stable || v4 == StabilityVerdict::Stable
        }),
{
}

/// A poll whose size differs from the one before, or is zero, never ends
/// the wait as stable; a poll at or after the timeout always ends it as
/// timed out.
pub proof fn lemma_changing_size_times_out(w: StabilityWait, e: u64, s: u64)
    requires
        s != w.last_size || s == 0,
    ensures
        w.step(e, Some(s)).1 != StabilityVerdict::Stable,
        e >= w.timeout_ms ==> w.step(e, Some(s)).1 == StabilityVerdict::TimedOut,
{
}

/// The kinds of filesystem event the watcher tells apart.
#[derive(Debug, Clone, Copy, PartialEq, Eq, Structural)]
pub enum FsEventKind {
    Create,
    ModifyData,
    Other,
}

/// What becomes of one filesystem event.
#[derive(Debug, Clone, Copy, PartialEq, Eq, Structural)]
pub enum EventDecision {
    /// Not a create or data-modify event on a preview file.
    Ignored,
    /// The same file was admitted less than the cooldown ago.
    Suppressed,
    /// Admitted, but a run for this file is still in progress.
    AlreadyProcessing,
    /// Admitted: start a run for this file.
    Dispatch,
}

/// The watcher's state: when each file was last admitted, and which files
/// have a run in progress.
pub struct DebounceView {
    pub last: Map<Seq<char>, u64>,
    pub in_flight: Set<Seq<char>>,
    pub cooldown_ms: u64,
}

/// An event that the watcher looks at: a create or data-modify event on a
/// regular file whose name carries the preview marker.
pub open spec fn qualifies(kind: FsEventKind, is_file: bool, name: Seq<char>) -> bool {
    kind != FsEventKind::Other && is_file && is_preview_name(name)
}

/// The state and decision after an event for `name` at `now`.
pub open spec fn decide(
    v: DebounceView,
    kind: FsEventKind,
    is_file: bool,
    name: Seq<char>,
    now: u64,
) -> (DebounceView, EventDecision) {
    if !qualifies(kind, is_file, name) {
        (v, EventDecision::Ignored)
    } else if v.last.contains_key(name) && elapsed(now, v.last[name]) < v.cooldown_ms {
        (v, EventDecision::Suppressed)
    } else if v.in_flight.contains(name) {
        (DebounceView { last: v.last.insert(name, now), ..v }, EventDecision::AlreadyProcessing)
    } else {
        (
            DebounceView {
                last: v.last.insert(name, now),
                in_flight: v.in_flight.insert(name),
                ..v
            },
            EventDecision::Dispatch,
        )
    }
}

/// The state once the run for `name` has ended.
pub open spec fn run_ended(v: DebounceView, name: Seq<char>) -> DebounceView {
    DebounceView { in_flight: v.in_flight.remove(name), ..v }
}

pub open spec fn has_entry(entries: Seq<(String, u64)>, k: Seq<char>) -> bool {
    exists|i: int| 0 <= i < entries.len() && (#[trigger] entries[i]).0@ == k
}

pub open spec fn has_name(names: Seq<String>, k: Seq<char>) -> bool {
    exists|i: int| 0 <= i < names.len() && (#[trigger] names[i])@ == k
}

/// Decides, per filename, which filesystem events start a pipeline run:
/// repeated events within the cooldown are dropped, and a file with a run in
/// progress is never started again until that run ends.
pub struct EventDebouncer {
    entries: Vec<(String, u64)>,
    in_flight: Vec<String>,
    cooldown_ms: u64,
    last: Ghost<Map<Seq<char>, u64>>,
    flight: Ghost<Set<Seq<char>>>,
}

impl EventDebouncer {
    pub closed spec fn wf(&self) -> bool {
        &&& forall|i: int|
            0 <= i < self.entries@.len() ==> self.last@.contains_key(
                (#[trigger] self.entries@[i]).0@,
            ) && self.last@[self.entries@[i].0@] == self.entries@[i].1
        &&& forall|k: Seq<char>| #[trigger] self.last@.contains_key(k) ==> has_entry(self.entries@, k)
        &&& forall|i: int, j: int|
            0 <= i < self.entries@.len() && 0 <= j < self.entries@.len() && i != j ==> (
            #[trigger] self.entries@[i]).0@ != (#[trigger] self.entries@[j]).0@
        &&& forall|i: int|
            0 <= i < self.in_flight@.len() ==> self.flight@.contains(
                (#[trigger] self.in_flight@[i])@,
            )
        &&& forall|k: Seq<char>| #[trigger] self.flight@.contains(k) ==> has_name(self.in_flight@, k)
        &&& forall|i: int, j: int|
            0 <= i < self.in_flight@.len() && 0 <= j < self.in_flight@.len() && i != j ==> (
            #[trigger] self.in_flight@[i])@ != (#[trigger] self.in_flight@[j])@
    }

    pub closed spec fn view(&self) -> DebounceView {
        DebounceView { last: self.last@, in_flight: self.flight@, cooldown_ms: self.cooldown_ms }
    }

    /// A watcher state with nothing admitted; events for one file less than
    /// `cooldown_ms` milliseconds apart are dropped.
    pub fn new(cooldown_ms: u64) -> (r: EventDebouncer)
        ensures
            r.wf(),
            r.view().last == Map::<Seq<char>, u64>::empty(),
            r.view().in_flight == Set::<Seq<char>>::empty(),
            r.view().cooldown_ms == cooldown_ms,
    {
        EventDebouncer {
            entries: Vec::new(),
            in_flight: Vec::new(),
            cooldown_ms,
            last: Ghost(Map::empty()),
            flight: Ghost(Set::empty()),
        }
    }

    fn find_entry(&self, name: &String) -> (r: Option<usize>)
        requires
            self.wf(),
        ensures
            r matches Some(i) ==> (i < self.entries@.len() && self.entries@[i as int].0@ == name@),
            r is None ==> !self.last@.contains_key(name@),
    {
        let mut i: usize = 0;
        while i < self.entries.len()
            invariant
                self.wf(),
                i <= self.entries@.len(),
                forall|j: int| 0 <= j < i ==> (#[trigger] self.entries@[j]).0@ != name@,
            decreases self.entries@.len() - i,
        {
            if self.entries[i].0 == *name {
                return Some(i);
            }
            i = i + 1;
        }
        None
    }

    fn find_in_flight(&self, name: &String) -> (r: Option<usize>)
        requires
            self.wf(),
        ensures
            r matches Some(i) ==> (i < self.in_flight@.len() && self.in_flight@[i as int]@
                == name@),
            r is None ==> !self.flight@.contains(name@),
    {
        let mut i: usize = 0;
        while i < self.in_flight.len()
            invariant
                self.wf(),
                i <= self.in_flight@.len(),
                forall|j: int| 0 <= j < i ==> (#[trigger] self.in_flight@[j])@ != name@,
            decreases self.in_flight@.len() - i,
        {
            if self.in_flight[i] == *name {
                return Some(i);
            }
            i = i + 1;
        }
        None
    }

    /// Takes in one filesystem event at `now` (milliseconds) for the file
    /// named `filename`, which is a regular file when `is_file` holds.
    pub fn on_event(&mut self, kind: FsEventKind, is_file: bool, filename: &str, now: u64) -> (r:
        EventDecision)
        requires
            old(self).wf(),
        ensures
            final(self).wf(),
            (final(self).view(), r) == decide(old(self).view(), kind, is_file, filename@, now),
    {
        let name = String::from_str(filename);
        if kind == FsEventKind::Other || !is_file || !is_preview_filename(filename) {
            return EventDecision::Ignored;
        }
        let found = self.find_entry(&name);
        if let Some(i) = found {
            let t = self.entries[i].1;
            let gone: u64 = if now >= t {
                now - t
            } else {
                0
            };
            if gone < self.cooldown_ms {
                return EventDecision::Suppressed;
            }
        }
        let ghost old_entries = self.entries@;
        match found {
            Some(i) => {
                self.entries.set(i, (name.clone(), now));
            },
            None => {
                self.entries.push((name.clone(), now));
            },
        }
        self.last = Ghost(self.last@.insert(name@, now));
        proof {
            assert forall|k: Seq<char>| #[trigger] self.last@.contains_key(k) implies has_entry(
                self.entries@,
                k,
            ) by {
                if k == name@ {
                    match found {
                        Some(i) => {
                            assert(self.entries@[i as int].0@ == k);
                        },
                        None => {
                            assert(self.entries@[old_entries.len() as int].0@ == k);
                        },
                    }
                } else {
                    let i = choose|i: int|
                        0 <= i < old_entries.len() && (#[trigger] old_entries[i]).0@ == k;
                    assert(self.entries@[i].0@ == k);
                }
            }
        }
        if self.find_in_flight(&name).is_some() {
            return EventDecision::AlreadyProcessing;
        }
        let ghost old_flight = self.in_flight@;
        self.in_flight.push(name);
        self.flight = Ghost(self.flight@.insert(filename@));
        proof {
            assert forall|k: Seq<char>| #[trigger] self.flight@.contains(k) implies has_name(
                self.in_flight@,
                k,
            ) by {
                if k == filename@ {
                    assert(self.in_flight@[old_flight.len() as int]@ == k);
                } else {
                    let i = choose|i: int|
                        0 <= i < old_flight.len() && (#[trigger] old_flight[i])@ == k;
                    assert(self.in_flight@[i]@ == k);
                }
            }
        }
        EventDecision::Dispatch
    }

    /// Records that the run for `filename` has ended, successfully or not.
    pub fn run_finished(&mut self, filename: &str)
        requires
            old(self).wf(),
        ensures
            final(self).wf(),
            final(self).view() == run_ended(old(self).view(), filename@),
    {
        let name = String::from_str(filename);
        match self.find_in_flight(&name) {
            Some(i) => {
                let ghost old_flight = self.in_flight@;
                self.in_flight.remove(i);
                self.flight = Ghost(self.flight@.remove(filename@));
                proof {
                    assert forall|j: int| 0 <= j < self.in_flight@.len() implies self.flight@.contains(
                        (#[trigger] self.in_flight@[j])@,
                    ) by {
                        if j < i {
                            assert(self.in_flight@[j] == old_flight[j]);
                        } else {
                            assert(self.in_flight@[j] == old_flight[j + 1]);
                        }
                    }
                    assert forall|a: int, b: int|
                        0 <= a < self.in_flight@.len() && 0 <= b < self.in_flight@.len() && a
                            != b implies (#[trigger] self.in_flight@[a])@ != (
                    #[trigger] self.in_flight@[b])@ by {
                        let oa = if a < i {
                            a
                        } else {
                            a + 1
                        };
                        let ob = if b < i {
                            b
                        } else {
                            b + 1
                        };
                        assert(self.in_flight@[a] == old_flight[oa]);
                        assert(self.in_flight@[b] == old_flight[ob]);
                    }
                    assert forall|k: Seq<char>| #[trigger] self.flight@.contains(k) implies has_name(
                        self.in_flight@,
                        k,
                    ) by {
                        let j = choose|j: int|
                            0 <= j < old_flight.len() && (#[trigger] old_flight[j])@ == k;
                        assert(j != i);
                        if j < i {
                            assert(self.in_flight@[j]@ == k);
                        } else {
                            assert(self.in_flight@[j - 1]@ == k);
                        }
                    }
                }
            },
            None => {
                assert(self.flight@.remove(filename@) =~= self.flight@);
            },
        }
    }
}

/// Two events for one file less than the cooldown apart start at most one
/// run: the second is always dropped, and the first starts a run exactly
/// when no run for the file is in progress.
pub proof fn lemma_burst_dispatches_once(
    v: DebounceView,
    kind1: FsEventKind,
    kind2: FsEventKind,
    name: Seq<char>,
    t1: u64,
    t2: u64,
)
    requires
        qualifies(kind1, true, name),
        qualifies(kind2, true, name),
        !(v.last.contains_key(name) && elapsed(t1, v.last[name]) < v.cooldown_ms),
        t1 <= t2,
        t2 - t1 < v.cooldown_ms,
    ensures
        ({
            let (v1, d1) = decide(v, kind1, true, name, t1);
            let (v2, d2) = decide(v1, kind2, true, name, t2);
            &&& d1 == EventDecision::Dispatch <==> !v.in_flight.contains(name)
            &&& d2 == EventDecision::Suppressed
            &&& v2 == v1
        }),
{
}

/// Once the run started by one event has ended, an event for the same file
/// at least the cooldown later starts a new run.
pub proof fn lemma_spaced_events_dispatch(
    v: DebounceView,
    kind1: FsEventKind,
    kind2: FsEventKind,
    name: Seq<char>,
    t1: u64,
    t2: u64,
)
    requires
        qualifies(kind1, true, name),
        qualifies(kind2, true, name),
        t1 <= t2,
        t2 - t1 >= v.cooldown_ms,
    ensures
        ({
            let (v1, d1) = decide(v, kind1, true, name, t1);
            let (v2, d2) = decide(run_ended(v1, name), kind2, true, name, t2);
            d1 != EventDecision::Suppressed ==> d2 == EventDecision::Dispatch
        }),
{
    let (v1, d1) = decide(v, kind1, true, name, t1);
    if d1 != EventDecision::Suppressed {
        assert(v1.last[name] == t1);
    }
}

/// The decisions for a series of events on one file, each at its time,
/// with no run ending in between.
pub open spec fn decide_all(v: DebounceView, kind: FsEventKind, name: Seq<char>, times: Seq<u64>) -> (
    DebounceView,
    Seq<EventDecision>,
)
    decreases times.len(),
{
    if times.len() == 0 {
        (v, Seq::empty())
    } else {
        let (v1, d) = decide(v, kind, true, name, times[0]);
        let (v2, ds) = decide_all(v1, kind, name, times.subrange(1, times.len() as int));
        (v2, seq![d] + ds)
    }
}

/// While a run for a file is in progress, no number of events for it starts
/// a second one, and the file stays in progress.
pub proof fn lemma_in_flight_not_redispatched(
    v: DebounceView,
    kind: FsEventKind,
    name: Seq<char>,
    times: Seq<u64>,
)
    requires
        v.in_flight.contains(name),
    ensures
        decide_all(v, kind, name, times).0.in_flight.contains(name),
        decide_all(v, kind, name, times).1.len() == times.len(),
        forall|i: int|
            0 <= i < times.len() ==> (#[trigger] decide_all(v, kind, name, times).1[i])
                != EventDecision::Dispatch,
    decreases times.len(),
{
    if times.len() > 0 {
        let (v1, d) = decide(v, kind, true, name, times[0]);
        let rest = times.subrange(1, times.len() as int);
        lemma_in_flight_not_redispatched(v1, kind, name, rest);
        let (v2, ds) = decide_all(v1, kind, name, rest);
        assert forall|i: int| 0 <= i < times.len() implies (#[trigger] decide_all(
            v,
            kind,
            name,
            times,
        ).1[i]) != EventDecision::Dispatch by {
            if i > 0 {
                assert(decide_all(v, kind, name, times).1[i] == ds[i - 1]);
            }
        }
    }
}

} // verus!
