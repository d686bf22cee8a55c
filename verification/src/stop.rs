//! Stopping a chat stream on the user's request.
//!
//! Each browser session that is streaming has an entry in the registry. The
//! stream publishes there the identifier of the upstream request that is
//! running; a stop sets a flag there, which the stream reads the next time
//! it comes round, and names the upstream request to cancel.

use crate::store::Store;
use vstd::prelude::*;
use vstd::string::StringExecFns;

verus! {

/// The body of a stop request.
#[derive(Debug, Clone, PartialEq, Eq)]
pub struct StopRequest {
    pub session_id: String,
}

/// What is known of one session that is streaming.
#[derive(Debug, Clone, PartialEq, Eq)]
pub struct ChatSession {
    pub request_id: Option<String>,
    pub stop_requested: bool,
}

/// The answer to a stop request, and the upstream call to make.
#[derive(Debug, Clone, PartialEq, Eq)]
pub struct StopOutcome {
    pub status: u16,
    pub message: &'static str,
    pub cancel_path: Option<String>,
}

/// The path of the upstream endpoint that cancels a request.
pub open spec fn cancel_path_of(request_id: Seq<char>) -> Seq<char> {
    "/agent/chat/cancel/"@ + request_id
}

/// Executable [`cancel_path_of`].
pub fn cancel_path(request_id: &str) -> (r: String)
    ensures
        r@ == cancel_path_of(request_id@),
{
    let mut path = "/agent/chat/cancel/".to_owned();
    path.append(request_id);
    path
}

/// Makes the entry of a session whose stream starts: no upstream request is
/// known yet and no stop is asked for. An entry left from an earlier stream
/// is replaced.
pub fn begin_stream(registry: &mut Store<ChatSession>, session_id: &str)
    requires
        old(registry).wf(),
    ensures
        final(registry).wf(),
        final(registry)@ == old(registry)@.insert(
            session_id@,
            ChatSession { request_id: None, stop_requested: false },
        ),
{
    registry.upsert(session_id, ChatSession { request_id: None, stop_requested: false });
}

/// Publishes the identifier of the upstream request that now runs for a
/// session; the entry is made if there is none. A stop that was asked for
/// stays asked for.
pub fn record_request_id(registry: &mut Store<ChatSession>, session_id: &str, request_id: &str)
    requires
        old(registry).wf(),
    ensures
        final(registry).wf(),
        final(registry)@.dom() == old(registry)@.dom().insert(session_id@),
        forall|k: Seq<char>|
            k != session_id@ && old(registry)@.contains_key(k) ==> final(registry)@[k] == old(
                registry,
            )@[k],
        final(registry)@[session_id@].request_id is Some,
        final(registry)@[session_id@].request_id->0@ == request_id@,
        final(registry)@[session_id@].stop_requested == (old(registry)@.contains_key(session_id@)
            && old(registry)@[session_id@].stop_requested),
{
    let stop_requested = match registry.get(session_id) {
        Some(s) => s.stop_requested,
        None => false,
    };
    registry.upsert(
        session_id,
        ChatSession { request_id: Some(request_id.to_owned()), stop_requested },
    );
}

/// Whether a stop was asked for the session.
pub fn stop_requested(registry: &Store<ChatSession>, session_id: &str) -> (r: bool)
    requires
        registry.wf(),
    ensures
        r == (registry@.contains_key(session_id@) && registry@[session_id@].stop_requested),
{
    match registry.get(session_id) {
        Some(s) => s.stop_requested,
        None => false,
    }
}

/// Takes the entry of a session out of the registry when its stream ends.
pub fn end_stream(registry: &mut Store<ChatSession>, session_id: &str)
    requires
        old(registry).wf(),
    ensures
        final(registry).wf(),
        final(registry)@ == old(registry)@.remove(session_id@),
{
    let _ = registry.remove(session_id);
}

/// Handles a stop request.
///
/// Without a session identifier the answer is 401. For a session that is not
/// streaming it is 404, and nothing changes. For one that is, the flag is set,
/// the answer is 200, and where an upstream request is known the path to
/// cancel it is returned.
pub fn stop(registry: &mut Store<ChatSession>, session_id: Option<&str>) -> (r: StopOutcome)
    requires
        old(registry).wf(),
    ensures
        final(registry).wf(),
        match session_id {
            None => {
                &&& r.status == 401
                &&& r.message@ == "no session"@
                &&& r.cancel_path is None
                &&& final(registry)@ == old(registry)@
            },
            Some(id) => if old(registry)@.contains_key(id@) {
                let before = old(registry)@[id@];
                &&& r.status == 200
                &&& r.message@ == "stopped"@
                &&& match before.request_id {
                    Some(request) => r.cancel_path is Some && r.cancel_path->0@ == cancel_path_of(
                        request@,
                    ),
                    None => r.cancel_path is None,
                }
                &&& final(registry)@.dom() == old(registry)@.dom()
                &&& final(registry)@[id@].stop_requested
                &&& final(registry)@[id@].request_id == before.request_id
                &&& forall|k: Seq<char>|
                    k != id@ && old(registry)@.contains_key(k) ==> final(registry)@[k] == old(
                        registry,
                    )@[k]
            } else {
                &&& r.status == 404
                &&& r.message@ == "session not found"@
                &&& r.cancel_path is None
                &&& final(registry)@ == old(registry)@
            },
        },
{
    let id = match session_id {
        Some(id) => id,
        None => {
            return StopOutcome { status: 401, message: "no session", cancel_path: None };
        },
    };
    let request_id: Option<String> = match registry.get(id) {
        Some(s) => match &s.request_id {
            Some(x) => Some(x.clone()),
            None => None,
        },
        None => {
            return StopOutcome { status: 404, message: "session not found", cancel_path: None };
        },
    };
    let path = match &request_id {
        Some(x) => Some(cancel_path(x.as_str())),
        None => None,
    };
    registry.upsert(id, ChatSession { request_id, stop_requested: true });
    StopOutcome { status: 200, message: "stopped", cancel_path: path }
}

} // verus!
