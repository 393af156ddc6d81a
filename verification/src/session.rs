//! One dispatch: the preview poller and the cancellation protocol.
//!
//! A dispatch runs a long primary generation call and, beside it, a preview
//! task that polls the backend's check endpoint and emits only the newly
//! observed trailing bytes.  Both are tied together by an at-most-once
//! cancellation protocol: cancelling stops the preview and asks the backend
//! once to abort; the primary call is never interrupted locally.  The
//! network calls themselves live outside the library; these types decide,
//! step by step, what the tasks do with what came back.

use vstd::prelude::*;

verus! {

use crate::error::TransportError;
use crate::json::json_get_pointer_string;
use crate::json::json_ok;
use crate::json::json_str_at;
use crate::num::dec_digits;
use vstd::string::StringSliceAdditionalSpecFns;

/// The JSON pointer under which the backend's generate and check endpoints
/// carry their result text.
pub open spec fn result_text_pointer() -> Seq<u8> {
    "/results/0/text".spec_bytes()
}

/// Pulls the result text out of a generate or check response body: the
/// string at `results[0].text`.  A body that is not JSON, or carries no
/// string there, is a protocol error, never a partial answer.
pub fn parse_generation_response(body: &[u8]) -> (r: Result<Vec<u8>, TransportError>)
    ensures
        match r {
            Ok(v) => json_ok(body@) && json_str_at(body@, result_text_pointer()) == Some(v@),
            Err(e) => e == TransportError::InvalidResponse && (!json_ok(body@) || json_str_at(
                body@,
                result_text_pointer(),
            ) is None),
        },
{
    match json_get_pointer_string(body, "/results/0/text".as_bytes()) {
        Ok(Some(v)) => Ok(v),
        Ok(None) => Err(TransportError::InvalidResponse),
        Err(_) => Err(TransportError::InvalidResponse),
    }
}

/// The authority (host and port) of the instance on `port`, always on the
/// loopback host.
pub open spec fn instance_authority_spec(port: u16) -> Seq<u8> {
    "127.0.0.1:".spec_bytes() + dec_digits(port as nat)
}

/// Renders the authority of the instance on `port`.
pub fn instance_authority(port: u16) -> (r: Vec<u8>)
    ensures
        r@ == instance_authority_spec(port),
{
    let mut out: Vec<u8> = Vec::new();
    crate::text::push_bytes(&mut out, "127.0.0.1:".as_bytes());
    crate::num::push_dec_u64(&mut out, port as u64);
    proof {
        assert(Seq::<u8>::empty() + "127.0.0.1:".spec_bytes() =~= "127.0.0.1:".spec_bytes());
    }
    out
}

/// The URL of one endpoint `path` on the instance with the given authority.
pub open spec fn endpoint_url_spec(authority: Seq<u8>, path: Seq<u8>) -> Seq<u8> {
    "http://".spec_bytes() + authority + path
}

/// Renders the URL of the endpoint `path` on `authority`.
pub fn endpoint_url(authority: &[u8], path: &str) -> (r: Vec<u8>)
    ensures
        r@ == endpoint_url_spec(authority@, path.spec_bytes()),
{
    let mut out: Vec<u8> = Vec::new();
    crate::text::push_bytes(&mut out, "http://".as_bytes());
    crate::text::push_bytes(&mut out, authority);
    crate::text::push_bytes(&mut out, path.as_bytes());
    proof {
        assert(Seq::<u8>::empty() + "http://".spec_bytes() =~= "http://".spec_bytes());
    }
    out
}

/// The URL of the readiness probe endpoint on `authority`.
pub fn version_url(authority: &[u8]) -> (r: Vec<u8>)
    ensures
        r@ == endpoint_url_spec(authority@, "/api/v1/info/version".spec_bytes()),
{
    endpoint_url(authority, "/api/v1/info/version")
}

/// The URL of the generate endpoint on `authority`.
pub fn generate_url(authority: &[u8]) -> (r: Vec<u8>)
    ensures
        r@ == endpoint_url_spec(authority@, "/api/v1/generate".spec_bytes()),
{
    endpoint_url(authority, "/api/v1/generate")
}

/// The URL of the preview check endpoint on `authority`.
pub fn check_url(authority: &[u8]) -> (r: Vec<u8>)
    ensures
        r@ == endpoint_url_spec(authority@, "/api/extra/generate/check".spec_bytes()),
{
    endpoint_url(authority, "/api/extra/generate/check")
}

/// The URL of the abort endpoint on `authority`.
pub fn abort_url(authority: &[u8]) -> (r: Vec<u8>)
    ensures
        r@ == endpoint_url_spec(authority@, "/api/extra/abort".spec_bytes()),
{
    endpoint_url(authority, "/api/extra/abort")
}

/// What the preview task does with one poll result.
pub enum PreviewStep {
    /// Stop polling, silently: the check text shrank, so generation has
    /// moved on or ended.
    Stop,
    /// Print these bytes (possibly none) and poll again.
    Emit(Vec<u8>),
}

/// The preview task's memory between polls: how many bytes of partial
/// output it has already emitted.
pub struct PreviewState {
    /// Length of the check text after the previous poll.
    pub seen: usize,
}

impl PreviewState {
    /// A preview that has not seen any output yet.
    pub fn new() -> (r: PreviewState)
        ensures
            r.seen == 0,
    {
        PreviewState { seen: 0 }
    }

    /// Decides on one poll result `poll`, the partial output so far: emits
    /// exactly the bytes past what was already seen, or stops when the text
    /// shrank.
    pub fn step(&mut self, poll: &[u8]) -> (r: PreviewStep)
        ensures
            match r {
                PreviewStep::Stop => poll@.len() < old(self).seen && *final(self) == *old(self),
                PreviewStep::Emit(chunk) => old(self).seen <= poll@.len() && chunk@ == poll@.skip(
                    old(self).seen as int,
                ) && final(self).seen == poll@.len(),
            },
    {
        if poll.len() < self.seen {
            return PreviewStep::Stop;
        }
        let tail = vstd::slice::slice_subrange(poll, self.seen, poll.len());
        let mut chunk: Vec<u8> = Vec::new();
        crate::text::push_bytes(&mut chunk, tail);
        proof {
            assert(chunk@ =~= poll@.skip(old(self).seen as int));
        }
        self.seen = poll.len();
        PreviewStep::Emit(chunk)
    }
}

/// The cancellation protocol of one dispatch.
///
/// `cancel_requested` records that the caller invoked its cancel handle;
/// `abort_issued` that the one backend abort call was sent; `stop_preview`
/// that the preview task has been told to stop; `resolved` that the primary
/// call came back.
pub struct SessionState {
    pub cancel_requested: bool,
    pub abort_issued: bool,
    pub stop_preview: bool,
    pub resolved: bool,
}

/// The state of a session that was just constructed: in particular, no
/// abort has been issued merely by building the handles.
pub open spec fn session_init(s: SessionState) -> bool {
    &&& !s.cancel_requested
    &&& !s.abort_issued
    &&& !s.stop_preview
    &&& !s.resolved
}

/// The state after the caller invokes its cancel handle.
pub open spec fn cancel_transition(s: SessionState) -> SessionState {
    SessionState { cancel_requested: true, abort_issued: true, stop_preview: true, ..s }
}

/// The state after the primary call resolves.
pub open spec fn resolve_transition(s: SessionState) -> SessionState {
    SessionState { resolved: true, stop_preview: true, ..s }
}

/// One step of the protocol: a cancellation or a resolution.
pub open spec fn session_step(pre: SessionState, post: SessionState) -> bool {
    post == cancel_transition(pre) || post == resolve_transition(pre)
}

/// No abort call is ever sent before the caller asks for one.
pub open spec fn session_wf(s: SessionState) -> bool {
    s.abort_issued ==> s.cancel_requested
}

/// Every reachable session state sends the abort only after cancellation:
/// the initial state is sound, and both transitions keep it so.  In
/// particular the abort call cannot race ahead of the caller's cancel.
pub proof fn lemma_session_abort_after_cancel(s1: SessionState, s2: SessionState)
    ensures
        session_init(s1) ==> session_wf(s1),
        session_wf(s1) && session_step(s1, s2) ==> session_wf(s2),
{
}

impl SessionState {
    /// A freshly constructed dispatch: nothing cancelled, nothing sent.
    pub fn new() -> (r: SessionState)
        ensures
            session_init(r),
    {
        SessionState {
            cancel_requested: false,
            abort_issued: false,
            stop_preview: false,
            resolved: false,
        }
    }

    /// The caller invokes its cancel handle.  Stops the preview and asks
    /// the backend to abort; the returned flag says whether the abort call
    /// is to be sent now, and it is true at most once per session, so the
    /// backend sees at most one abort.  Cancelling after the result has
    /// resolved is harmless: the late abort is a benign no-op at the
    /// backend and no error.
    pub fn request_cancel(&mut self) -> (issue_abort: bool)
        ensures
            *final(self) == cancel_transition(*old(self)),
            issue_abort == !old(self).abort_issued,
            final(self).abort_issued,
    {
        let issue_abort = !self.abort_issued;
        self.cancel_requested = true;
        self.abort_issued = true;
        self.stop_preview = true;
        issue_abort
    }

    /// The primary generation call resolved; the preview has nothing more
    /// to show.
    pub fn resolve(&mut self)
        ensures
            *final(self) == resolve_transition(*old(self)),
    {
        self.resolved = true;
        self.stop_preview = true;
    }

    /// Whether the preview task must stop before its next poll.
    pub fn preview_should_stop(&self) -> (r: bool)
        ensures
            r == self.stop_preview,
    {
        self.stop_preview
    }
}

} // verus!
