use vstd::prelude::*;

use crate::error::ImageAnalysisError;

verus! {

/// Time elapsed from `since` to `now`, in milliseconds; a clock reading
/// earlier than the mark counts as no time at all.
pub open spec fn elapsed(now: u64, since: u64) -> int {
    if now >= since {
        now - since
    } else {
        0
    }
}

/// A mark still holds at `now` when less than `duration` has passed since it.
pub open spec fn mark_holds(mark: Option<u64>, now: u64, duration: u64) -> bool {
    match mark {
        Some(t) => elapsed(now, t) < duration,
        None => false,
    }
}

/// The marks as they stand once every expired one is dropped.
pub open spec fn expire_marks(marks: Seq<Option<u64>>, now: u64, duration: u64) -> Seq<
    Option<u64>,
> {
    Seq::new(
        marks.len(),
        |i: int|
            if mark_holds(marks[i], now, duration) {
                marks[i]
            } else {
                None
            },
    )
}

/// Time of a mark, for marks known to be present.
pub open spec fn mark_time(mark: Option<u64>) -> u64 {
    match mark {
        Some(t) => t,
        None => 0,
    }
}

/// Host `i` is the one to try next: the first unmarked host in pool order, or,
/// when every host is marked, the first of those marked longest ago.
pub open spec fn is_selected(marks: Seq<Option<u64>>, i: int) -> bool {
    &&& 0 <= i < marks.len()
    &&& if exists|j: int| 0 <= j < marks.len() && marks[j] is None {
        &&& marks[i] is None
        &&& forall|j: int| 0 <= j < i ==> marks[j] is Some
    } else {
        &&& forall|j: int| 0 <= j < marks.len() ==> mark_time(marks[i]) <= mark_time(marks[j])
        &&& forall|j: int| 0 <= j < i ==> mark_time(marks[i]) < mark_time(marks[j])
    }
}

/// Marks set on every host whose address is `address`.
pub open spec fn mark_address(
    hosts: Seq<String>,
    marks: Seq<Option<u64>>,
    address: Seq<char>,
    now: u64,
) -> Seq<Option<u64>> {
    Seq::new(
        marks.len(),
        |i: int|
            if hosts[i]@ == address {
                Some(now)
            } else {
                marks[i]
            },
    )
}

/// A pool of backend hosts, each with an optional time at which it was last
/// seen failing. The address list never changes after construction.
pub struct HostPool {
    hosts: Vec<String>,
    marks: Vec<Option<u64>>,
    unavailable_duration: u64,
}

impl HostPool {
    pub closed spec fn wf(&self) -> bool {
        self.hosts@.len() == self.marks@.len()
    }

    pub closed spec fn hosts_view(&self) -> Seq<String> {
        self.hosts@
    }

    pub closed spec fn marks_view(&self) -> Seq<Option<u64>> {
        self.marks@
    }

    pub closed spec fn duration(&self) -> u64 {
        self.unavailable_duration
    }

    /// A pool in which no host is marked; marks last `unavailable_duration`
    /// milliseconds.
    pub fn new(hosts: Vec<String>, unavailable_duration: u64) -> (r: HostPool)
        ensures
            r.wf(),
            r.hosts_view() == hosts@,
            r.duration() == unavailable_duration,
            forall|i: int| 0 <= i < hosts@.len() ==> #[trigger] r.marks_view()[i] is None,
    {
        let mut marks: Vec<Option<u64>> = Vec::new();
        let mut i: usize = 0;
        while i < hosts.len()
            invariant
                i <= hosts@.len(),
                marks@.len() == i,
                forall|j: int| 0 <= j < i ==> #[trigger] marks@[j] is None,
            decreases hosts@.len() - i,
        {
            marks.push(None);
            i = i + 1;
        }
        HostPool { hosts, marks, unavailable_duration }
    }

    pub fn hosts(&self) -> (r: &Vec<String>)
        ensures
            r@ == self.hosts_view(),
    {
        &self.hosts
    }

    pub fn len(&self) -> (r: usize)
        ensures
            r == self.hosts_view().len(),
    {
        self.hosts.len()
    }

    /// The mark on host `index`: when it was last seen failing, if at all
    /// since its mark last expired.
    pub fn mark(&self, index: usize) -> (r: Option<u64>)
        requires
            self.wf(),
            index < self.hosts_view().len(),
        ensures
            r == self.marks_view()[index as int],
    {
        self.marks[index]
    }

    /// Drops the marks that have expired at `now`.
    fn expire(&mut self, now: u64)
        requires
            old(self).wf(),
        ensures
            final(self).wf(),
            final(self).hosts_view() == old(self).hosts_view(),
            final(self).duration() == old(self).duration(),
            final(self).marks_view() == expire_marks(
                old(self).marks_view(),
                now,
                old(self).duration(),
            ),
    {
        let ghost before = self.marks@;
        let mut i: usize = 0;
        while i < self.marks.len()
            invariant
                self.wf(),
                self.hosts@ == old(self).hosts@,
                self.unavailable_duration == old(self).unavailable_duration,
                before == old(self).marks@,
                self.marks@.len() == before.len(),
                i <= before.len(),
                forall|j: int|
                    0 <= j < i ==> #[trigger] self.marks@[j] == expire_marks(
                        before,
                        now,
                        self.unavailable_duration,
                    )[j],
                forall|j: int| i <= j < before.len() ==> #[trigger] self.marks@[j] == before[j],
            decreases before.len() - i,
        {
            let holds = match self.marks[i] {
                Some(t) => {
                    let gone: u64 = if now >= t {
                        now - t
                    } else {
                        0
                    };
                    gone < self.unavailable_duration
                },
                None => false,
            };
            if !holds {
                self.marks.set(i, None);
            }
            i = i + 1;
        }
        assert(self.marks@ =~= expire_marks(before, now, self.unavailable_duration));
    }

    /// Picks the host to try next at time `now`, after dropping the marks
    /// that have expired: the first unmarked host in pool order, or, when all
    /// are marked, the one marked longest ago. Fails only on an empty pool.
    pub fn get_available_host(&mut self, now: u64) -> (r: Result<String, ImageAnalysisError>)
        requires
            old(self).wf(),
        ensures
            final(self).wf(),
            final(self).hosts_view() == old(self).hosts_view(),
            final(self).duration() == old(self).duration(),
            final(self).marks_view() == expire_marks(
                old(self).marks_view(),
                now,
                old(self).duration(),
            ),
            old(self).hosts_view().len() == 0 ==> r == Err::<String, ImageAnalysisError>(
                ImageAnalysisError::AllHostsUnavailable,
            ),
            old(self).hosts_view().len() > 0 ==> exists|i: int|
                is_selected(final(self).marks_view(), i) && r == Ok::<String, ImageAnalysisError>(
                    #[trigger] old(self).hosts_view()[i],
                ),
    {
        self.expire(now);
        let n = self.hosts.len();
        if n == 0 {
            return Err(ImageAnalysisError::AllHostsUnavailable);
        }
        let mut i: usize = 0;
        while i < n
            invariant
                self.wf(),
                self.hosts@ == old(self).hosts@,
                self.unavailable_duration == old(self).unavailable_duration,
                self.marks@ == expire_marks(old(self).marks@, now, old(self).unavailable_duration),
                n == self.hosts@.len(),
                i <= n,
                forall|j: int| 0 <= j < i ==> #[trigger] self.marks@[j] is Some,
            decreases n - i,
        {
            if self.marks[i].is_none() {
                assert(is_selected(self.marks@, i as int));
                return Ok(self.hosts[i].clone());
            }
            i = i + 1;
        }
        let mut best: usize = 0;
        let mut k: usize = 1;
        while k < n
            invariant
                self.wf(),
                self.hosts@ == old(self).hosts@,
                self.unavailable_duration == old(self).unavailable_duration,
                self.marks@ == expire_marks(old(self).marks@, now, old(self).unavailable_duration),
                n == self.hosts@.len(),
                n > 0,
                1 <= k <= n,
                best < k,
                forall|j: int| 0 <= j < n ==> #[trigger] self.marks@[j] is Some,
                forall|j: int|
                    0 <= j < k ==> mark_time(self.marks@[best as int]) <= mark_time(
                        #[trigger] self.marks@[j],
                    ),
                forall|j: int|
                    0 <= j < best ==> mark_time(self.marks@[best as int]) < mark_time(
                        #[trigger] self.marks@[j],
                    ),
            decreases n - k,
        {
            let tk = match self.marks[k] {
                Some(t) => t,
                None => 0,
            };
            let tb = match self.marks[best] {
                Some(t) => t,
                None => 0,
            };
            if tk < tb {
                best = k;
            }
            k = k + 1;
        }
        assert(!exists|j: int| 0 <= j < self.marks@.len() && self.marks@[j] is None);
        assert(is_selected(self.marks@, best as int));
        Ok(self.hosts[best].clone())
    }

    /// Marks every host with address `host` as failing at `now`, replacing
    /// any earlier mark. Addresses outside the pool are ignored.
    pub fn mark_host_unavailable(&mut self, host: &str, now: u64)
        requires
            old(self).wf(),
        ensures
            final(self).wf(),
            final(self).hosts_view() == old(self).hosts_view(),
            final(self).duration() == old(self).duration(),
            final(self).marks_view() == mark_address(
                old(self).hosts_view(),
                old(self).marks_view(),
                host@,
                now,
            ),
    {
        let address = String::from_str(host);
        let ghost before = self.marks@;
        let mut i: usize = 0;
        while i < self.hosts.len()
            invariant
                self.wf(),
                self.hosts@ == old(self).hosts@,
                self.unavailable_duration == old(self).unavailable_duration,
                before == old(self).marks@,
                address@ == host@,
                self.marks@.len() == before.len(),
                i <= before.len(),
                forall|j: int|
                    0 <= j < i ==> #[trigger] self.marks@[j] == mark_address(
                        self.hosts@,
                        before,
                        host@,
                        now,
                    )[j],
                forall|j: int| i <= j < before.len() ==> #[trigger] self.marks@[j] == before[j],
            decreases before.len() - i,
        {
            if self.hosts[i] == address {
                self.marks.set(i, Some(now));
            }
            i = i + 1;
        }
        assert(self.marks@ =~= mark_address(self.hosts@, before, host@, now));
    }
}

/// At most one host is ever the one selected: selection is deterministic.
pub proof fn lemma_selection_unique(marks: Seq<Option<u64>>, i: int, j: int)
    requires
        is_selected(marks, i),
        is_selected(marks, j),
    ensures
        i == j,
{
    if i < j {
        if exists|k: int| 0 <= k < marks.len() && marks[k] is None {
            assert(marks[i] is Some);
        } else {
            assert(mark_time(marks[i]) < mark_time(marks[j]));
        }
    } else if j < i {
        if exists|k: int| 0 <= k < marks.len() && marks[k] is None {
            assert(marks[j] is Some);
        } else {
            assert(mark_time(marks[j]) < mark_time(marks[i]));
        }
    }
}

/// While some host is not under a live mark, a host under a live mark is
/// never selected, and the selected host is the first available one in pool
/// order.
pub proof fn lemma_available_host_first(
    marks: Seq<Option<u64>>,
    now: u64,
    duration: u64,
    free: int,
    i: int,
)
    requires
        0 <= free < marks.len(),
        !mark_holds(marks[free], now, duration),
        is_selected(expire_marks(marks, now, duration), i),
    ensures
        !mark_holds(marks[i], now, duration),
        forall|j: int| 0 <= j < i ==> mark_holds(#[trigger] marks[j], now, duration),
{
    let e = expire_marks(marks, now, duration);
    assert(e[free] is None);
    assert(e[i] is None);
    assert forall|j: int| 0 <= j < i implies mark_holds(#[trigger] marks[j], now, duration) by {
        assert(e[j] is Some);
    }
}

/// When every host is under a live mark, the selected host is one whose mark
/// is the oldest.
pub proof fn lemma_all_marked_oldest(marks: Seq<Option<u64>>, now: u64, duration: u64, i: int)
    requires
        forall|j: int| 0 <= j < marks.len() ==> mark_holds(#[trigger] marks[j], now, duration),
        is_selected(expire_marks(marks, now, duration), i),
    ensures
        marks[i] is Some,
        forall|j: int|
            0 <= j < marks.len() ==> mark_time(marks[i]) <= mark_time(#[trigger] marks[j]),
{
    let e = expire_marks(marks, now, duration);
    assert forall|k: int| 0 <= k < e.len() implies #[trigger] e[k] == marks[k] by {
        assert(mark_holds(marks[k], now, duration));
    }
    assert(!exists|k: int| 0 <= k < e.len() && e[k] is None);
    assert forall|j: int| 0 <= j < marks.len() implies mark_time(marks[i]) <= mark_time(
        #[trigger] marks[j],
    ) by {
        assert(e[j] == marks[j]);
    }
}

/// A mark made at `t` lasts exactly `duration`: it is dropped at the first
/// selection made `duration` or more after `t`, and kept before.
pub proof fn lemma_mark_expiry(marks: Seq<Option<u64>>, now: u64, duration: u64, i: int, t: u64)
    requires
        0 <= i < marks.len(),
        marks[i] == Some(t),
        t <= now,
    ensures
        expire_marks(marks, now, duration)[i] is None <==> now - t >= duration,
{
}

/// A host that has just failed is not chosen again within its exile while
/// some host with another address is free.
pub proof fn lemma_failed_host_skipped(
    hosts: Seq<String>,
    marks: Seq<Option<u64>>,
    address: Seq<char>,
    failed_at: u64,
    now: u64,
    duration: u64,
    free: int,
    i: int,
)
    requires
        hosts.len() == marks.len(),
        failed_at <= now,
        now - failed_at < duration,
        0 <= free < marks.len(),
        hosts[free]@ != address,
        !mark_holds(marks[free], now, duration),
        is_selected(expire_marks(mark_address(hosts, marks, address, failed_at), now, duration), i),
    ensures
        hosts[i]@ != address,
{
    let m = mark_address(hosts, marks, address, failed_at);
    assert(m[free] == marks[free]);
    lemma_available_host_first(m, now, duration, free, i);
    if hosts[i]@ == address {
        assert(m[i] == Some(failed_at));
    }
}

} // verus!
