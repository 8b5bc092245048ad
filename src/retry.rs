use vstd::prelude::*;

use crate::error::{ErrorView, ImageAnalysisError, text_result_view};
use crate::hosts::{HostPool, expire_marks, is_selected, mark_address};

verus! {

pub open spec fn error_option_view(e: Option<ImageAnalysisError>) -> Option<ErrorView> {
    match e {
        Some(x) => Some(x@),
        None => None,
    }
}

pub open spec fn text_option_view(s: Option<String>) -> Option<Seq<char>> {
    match s {
        Some(x) => Some(x@),
        None => None,
    }
}

/// One pass over a host pool for one request: at most one attempt per host
/// in the pool, each on the host selected at that moment, stopping at the
/// first success. Every failure marks its host and becomes the last error.
pub struct RetrySession {
    attempts: usize,
    limit: usize,
    last_error: Option<ImageAnalysisError>,
    description: Option<String>,
}

impl RetrySession {
    pub closed spec fn attempts(&self) -> nat {
        self.attempts as nat
    }

    pub closed spec fn limit(&self) -> nat {
        self.limit as nat
    }

    pub closed spec fn last_error(&self) -> Option<ErrorView> {
        error_option_view(self.last_error)
    }

    pub closed spec fn description(&self) -> Option<Seq<char>> {
        text_option_view(self.description)
    }

    /// No attempt is left to make: one succeeded, or every host was tried.
    pub open spec fn finished(&self) -> bool {
        self.description() is Some || self.attempts() >= self.limit()
    }

    /// A session that will try up to as many times as `pool` has hosts.
    pub fn new(pool: &HostPool) -> (r: RetrySession)
        ensures
            r.attempts() == 0,
            r.limit() == pool.hosts_view().len(),
            r.last_error() is None,
            r.description() is None,
    {
        RetrySession { attempts: 0, limit: pool.len(), last_error: None, description: None }
    }

    pub fn is_finished(&self) -> (r: bool)
        ensures
            r == self.finished(),
    {
        self.description.is_some() || self.attempts >= self.limit
    }

    /// The host for the next attempt, selected from `pool` at `now`; nothing
    /// once the session is finished, and then the pool is left alone.
    pub fn next_host(&self, pool: &mut HostPool, now: u64) -> (r: Option<String>)
        requires
            old(pool).wf(),
            old(pool).hosts_view().len() == self.limit(),
        ensures
            final(pool).wf(),
            final(pool).hosts_view() == old(pool).hosts_view(),
            final(pool).duration() == old(pool).duration(),
            self.finished() ==> r is None && *final(pool) == *old(pool),
            !self.finished() ==> final(pool).marks_view() == expire_marks(
                old(pool).marks_view(),
                now,
                old(pool).duration(),
            ),
            !self.finished() ==> exists|i: int|
                is_selected(final(pool).marks_view(), i) && r == Some(
                    #[trigger] old(pool).hosts_view()[i],
                ),
    {
        if self.is_finished() {
            return None;
        }
        match pool.get_available_host(now) {
            Ok(h) => Some(h),
            Err(_) => None,
        }
    }

    /// Records what the attempt on `host` gave: a success ends the session;
    /// a failure marks `host` at `now` and becomes the last error.
    pub fn record(
        &mut self,
        pool: &mut HostPool,
        host: &str,
        result: Result<String, ImageAnalysisError>,
        now: u64,
    )
        requires
            old(pool).wf(),
            !old(self).finished(),
        ensures
            final(pool).wf(),
            final(pool).hosts_view() == old(pool).hosts_view(),
            final(pool).duration() == old(pool).duration(),
            final(self).limit() == old(self).limit(),
            result is Ok ==> final(self).description() == Some(result.unwrap()@)
                && final(self).attempts() == old(self).attempts() && final(self).last_error()
                == old(self).last_error() && *final(pool) == *old(pool),
            result is Err ==> final(self).description() is None && final(self).attempts()
                == old(self).attempts() + 1 && final(self).last_error() == Some(
                result->Err_0@,
            ) && final(pool).marks_view() == mark_address(
                old(pool).hosts_view(),
                old(pool).marks_view(),
                host@,
                now,
            ),
    {
        match result {
            Ok(d) => {
                self.description = Some(d);
            },
            Err(e) => {
                self.last_error = Some(e);
                self.attempts = self.attempts + 1;
                pool.mark_host_unavailable(host, now);
            },
        }
    }

    /// The request's result: the description if an attempt succeeded, else
    /// the last error, else `AllHostsUnavailable` when no attempt was made.
    pub fn finish(self) -> (r: Result<String, ImageAnalysisError>)
        ensures
            self.description() matches Some(d) ==> text_result_view(r) == Ok::<
                Seq<char>,
                ErrorView,
            >(d),
            self.description() is None && self.last_error() is Some ==> text_result_view(r) == Err::<
                Seq<char>,
                ErrorView,
            >(self.last_error().unwrap()),
            self.description() is None && self.last_error() is None ==> text_result_view(r)
                == Err::<Seq<char>, ErrorView>(ErrorView::AllHostsUnavailable),
    {
        match self.description {
            Some(d) => Ok(d),
            None => match self.last_error {
                Some(e) => Err(e),
                None => Err(ImageAnalysisError::AllHostsUnavailable),
            },
        }
    }
}

} // verus!
