use vstd::prelude::*;

use crate::error::ImageAnalysisError;
use crate::hosts::{HostPool, expire_marks, is_selected, mark_address};
use crate::json::{JsonValue, json_member, json_text, member_chain};

verus! {

/// Host selection for the OpenAI-compatible backend, with the credential that its requests carry.
pub struct LlamaCppHostManager {
    pub pool: HostPool,
    pub api_key: Option<String>,
}

impl LlamaCppHostManager {
    /// A manager over `hosts`, none of them marked; a failing host is
    /// avoided for `unavailable_duration` milliseconds.
    pub fn new(hosts: Vec<String>, api_key: Option<String>, unavailable_duration: u64) -> (r: LlamaCppHostManager)
        ensures
            r.pool.wf(),
            r.pool.hosts_view() == hosts@,
            r.pool.duration() == unavailable_duration,
            r.api_key == api_key,
            forall|i: int| 0 <= i < hosts@.len() ==> #[trigger] r.pool.marks_view()[i] is None,
    {
        LlamaCppHostManager { pool: HostPool::new(hosts, unavailable_duration), api_key, }
    }

    pub fn hosts(&self) -> (r: &Vec<String>)
        ensures
            r@ == self.pool.hosts_view(),
    {
        self.pool.hosts()
    }

    /// The host to try next at `now`; see `HostPool::get_available_host`.
    pub fn get_available_host(&mut self, now: u64) -> (r: Result<String, ImageAnalysisError>)
        requires
            old(self).pool.wf(),
        ensures
            final(self).pool.wf(),
            final(self).pool.hosts_view() == old(self).pool.hosts_view(),
            final(self).pool.duration() == old(self).pool.duration(),
            final(self).pool.marks_view() == expire_marks(
                old(self).pool.marks_view(),
                now,
                old(self).pool.duration(),
            ),
            old(self).pool.hosts_view().len() == 0 ==> r == Err::<String, ImageAnalysisError>(
                ImageAnalysisError::AllHostsUnavailable,
            ),
            old(self).pool.hosts_view().len() > 0 ==> exists|i: int|
                is_selected(final(self).pool.marks_view(), i) && r == Ok::<
                    String,
                    ImageAnalysisError,
                >(#[trigger] old(self).pool.hosts_view()[i]),
    {
        self.pool.get_available_host(now)
    }

    /// Marks `host` as failing at `now`.
    pub fn mark_host_unavailable(&mut self, host: &str, now: u64)
        requires
            old(self).pool.wf(),
        ensures
            final(self).pool.wf(),
            final(self).pool.hosts_view() == old(self).pool.hosts_view(),
            final(self).pool.duration() == old(self).pool.duration(),
            final(self).pool.marks_view() == mark_address(
                old(self).pool.hosts_view(),
                old(self).pool.marks_view(),
                host@,
                now,
            ),
    {
        self.pool.mark_host_unavailable(host, now)
    }
}

/// The message of one choice.
#[derive(Debug)]
pub struct Message {
    pub content: String,
}

/// One choice of an answer.
#[derive(Debug)]
pub struct Choice {
    pub message: Message,
}

/// An OpenAI-compatible answer in its expected shape.
#[derive(Debug)]
pub struct LlamaCppResponse {
    pub choices: Vec<Choice>,
}

/// The answer text of one choice: an object whose `message` is an object
/// whose `content` is a string.
pub open spec fn choice_content(c: JsonValue) -> Option<Seq<char>> {
    match member_chain(json_member(c, "message"@), "content"@) {
        Some(t) => json_text(t),
        None => None,
    }
}

/// The answer has the expected shape: `choices` is an array of which every
/// element is a choice with answer text.
pub open spec fn choices_shape(v: JsonValue) -> bool {
    json_member(v, "choices"@) matches Some(JsonValue::Array(items)) && forall|i: int|
        0 <= i < items@.len() ==> (#[trigger] choice_content(items@[i])) is Some
}

impl LlamaCppResponse {
    /// Reads a parsed answer in the expected shape; nothing when it has
    /// another shape.
    pub fn from_json(v: &JsonValue) -> (r: Option<LlamaCppResponse>)
        ensures
            r is Some <==> choices_shape(*v),
            r matches Some(x) ==> (json_member(*v, "choices"@) matches Some(
                JsonValue::Array(items),
            ) && x.choices@.len() == items@.len() && forall|i: int|
                0 <= i < items@.len() ==> choice_content(items@[i]) == Some(
                    (#[trigger] x.choices@[i]).message.content@,
                )),
    {
        let items = match v.member("choices") {
            Some(JsonValue::Array(items)) => items,
            _ => return None,
        };
        let mut choices: Vec<Choice> = Vec::new();
        let mut i: usize = 0;
        while i < items.len()
            invariant
                json_member(*v, "choices"@) == Some(JsonValue::Array(*items)),
                i <= items@.len(),
                choices@.len() == i,
                forall|j: int|
                    0 <= j < i ==> choice_content(items@[j]) == Some(
                        (#[trigger] choices@[j]).message.content@,
                    ),
            decreases items@.len() - i,
        {
            let text = match items[i].member("message") {
                Some(m) => match m.member("content") {
                    Some(c) => c.as_text(),
                    None => None,
                },
                None => None,
            };
            match text {
                Some(t) => choices.push(Choice { message: Message { content: t.clone() } }),
                None => {
                    assert(choice_content(items@[i as int]) is None);
                    return None;
                },
            }
            i = i + 1;
        }
        assert forall|j: int| 0 <= j < items@.len() implies (#[trigger] choice_content(
            items@[j],
        )) is Some by {
            assert(choice_content(items@[j]) == Some(choices@[j].message.content@));
        }
        Some(LlamaCppResponse { choices })
    }
}

} // verus!
