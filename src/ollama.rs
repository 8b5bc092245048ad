use vstd::prelude::*;

use crate::error::ImageAnalysisError;
use crate::hosts::{HostPool, expire_marks, is_selected, mark_address};
use crate::json::{JsonValue, json_member, json_text, member_chain};

verus! {

/// Host selection for the chat-style backend.
pub struct OllamaHostManager {
    pub pool: HostPool,
}

impl OllamaHostManager {
    /// A manager over `hosts`, none of them marked; a failing host is
    /// avoided for `unavailable_duration` milliseconds.
    pub fn new(hosts: Vec<String>, unavailable_duration: u64) -> (r: OllamaHostManager)
        ensures
            r.pool.wf(),
            r.pool.hosts_view() == hosts@,
            r.pool.duration() == unavailable_duration,
            forall|i: int| 0 <= i < hosts@.len() ==> #[trigger] r.pool.marks_view()[i] is None,
    {
        OllamaHostManager { pool: HostPool::new(hosts, unavailable_duration), }
    }

    pub fn hosts(&self) -> (r: &Vec<String>)
        ensures
            r@ == self.pool.hosts_view(),
    {
        self.pool.hosts()
    }

    /// The host to try next at `now`; see `HostPool::get_available_host`.
    pub fn get_available_host(&mut self, now: u64) -> (r: Result<String, ImageAnalysisError>)
        requires
            old(self).pool.wf(),
        ensures
            final(self).pool.wf(),
            final(self).pool.hosts_view() == old(self).pool.hosts_view(),
            final(self).pool.duration() == old(self).pool.duration(),
            final(self).pool.marks_view() == expire_marks(
                old(self).pool.marks_view(),
                now,
                old(self).pool.duration(),
            ),
            old(self).pool.hosts_view().len() == 0 ==> r == Err::<String, ImageAnalysisError>(
                ImageAnalysisError::AllHostsUnavailable,
            ),
            old(self).pool.hosts_view().len() > 0 ==> exists|i: int|
                is_selected(final(self).pool.marks_view(), i) && r == Ok::<
                    String,
                    ImageAnalysisError,
                >(#[trigger] old(self).pool.hosts_view()[i]),
    {
        self.pool.get_available_host(now)
    }

    /// Marks `host` as failing at `now`.
    pub fn mark_host_unavailable(&mut self, host: &str, now: u64)
        requires
            old(self).pool.wf(),
        ensures
            final(self).pool.wf(),
            final(self).pool.hosts_view() == old(self).pool.hosts_view(),
            final(self).pool.duration() == old(self).pool.duration(),
            final(self).pool.marks_view() == mark_address(
                old(self).pool.hosts_view(),
                old(self).pool.marks_view(),
                host@,
                now,
            ),
    {
        self.pool.mark_host_unavailable(host, now)
    }
}

/// The message of a chat answer.
#[derive(Debug)]
pub struct Message {
    pub content: String,
}

/// A chat answer in its expected shape.
#[derive(Debug)]
pub struct ChatResponse {
    pub message: Message,
}

/// The answer text of a chat answer in the expected shape: an object whose
/// `message` is an object whose `content` is a string.
pub open spec fn chat_shape(v: JsonValue) -> Option<Seq<char>> {
    match member_chain(json_member(v, "message"@), "content"@) {
        Some(c) => json_text(c),
        None => None,
    }
}

impl ChatResponse {
    /// Reads a parsed answer in the expected shape; nothing when it has
    /// another shape.
    pub fn from_json(v: &JsonValue) -> (r: Option<ChatResponse>)
        ensures
            r is Some <==> chat_shape(*v) is Some,
            r matches Some(x) ==> chat_shape(*v) == Some(x.message.content@),
    {
        let message = match v.member("message") {
            Some(m) => m,
            None => return None,
        };
        let content = match message.member("content") {
            Some(c) => c,
            None => return None,
        };
        match content.as_text() {
            Some(text) => Some(ChatResponse { message: Message { content: text.clone() } }),
            None => None,
        }
    }
}

} // verus!
