//! The typed events of the upstream stream, and what each becomes on the
//! way to the browser.

use crate::json::{json_text, to_json_text, JsonValue};
use vstd::prelude::*;

verus! {

/// One event of the upstream stream.
///
/// On the wire an event is a JSON object whose member `type` names the
/// variant in snake case and whose other members are the fields. Reading
/// that form is left to the caller; the library takes the event.
#[derive(Debug, Clone, PartialEq, Eq)]
pub enum StreamEvent {
    Started { request_id: String, timestamp: i64 },
    Progress { request_id: String, message: String },
    ObjectTree { request_id: String, data: JsonValue },
    TextChunk { request_id: String, chunk: String },
    ReportList { request_id: String, data: JsonValue },
    Description { request_id: String, data: JsonValue },
    Comparison { request_id: String, data: JsonValue },
    Completed { request_id: String, final_result: String, timestamp: i64 },
    Error { request_id: String, error: String, recoverable: bool },
    Cancelled { request_id: String, reason: String },
}

/// One record of the stream to the browser: an optional event name and the
/// data.
#[derive(Debug, Clone, PartialEq, Eq)]
pub struct SseEvent {
    pub event: Option<String>,
    pub data: String,
}

/// An [`SseEvent`] with its strings as character sequences.
pub struct SseView {
    pub event: Option<Seq<char>>,
    pub data: Seq<char>,
}

impl View for SseEvent {
    type V = SseView;

    open spec fn view(&self) -> SseView {
        SseView {
            event: match self.event {
                Some(e) => Some(e@),
                None => None,
            },
            data: self.data@,
        }
    }
}

impl SseEvent {
    /// A record with an event name.
    pub fn named(event: &str, data: String) -> (r: SseEvent)
        ensures
            r@ == (SseView { event: Some(event@), data: data@ }),
    {
        SseEvent { event: Some(event.to_owned()), data }
    }

    /// A record without an event name: text for the answer.
    pub fn text(data: String) -> (r: SseEvent)
        ensures
            r@ == (SseView { event: None, data: data@ }),
    {
        SseEvent { event: None, data }
    }
}

impl StreamEvent {
    /// The identifier of the upstream request that the event belongs to.
    pub open spec fn id(self) -> String {
        match self {
            StreamEvent::Started { request_id, .. } => request_id,
            StreamEvent::Progress { request_id, .. } => request_id,
            StreamEvent::ObjectTree { request_id, .. } => request_id,
            StreamEvent::TextChunk { request_id, .. } => request_id,
            StreamEvent::ReportList { request_id, .. } => request_id,
            StreamEvent::Description { request_id, .. } => request_id,
            StreamEvent::Comparison { request_id, .. } => request_id,
            StreamEvent::Completed { request_id, .. } => request_id,
            StreamEvent::Error { request_id, .. } => request_id,
            StreamEvent::Cancelled { request_id, .. } => request_id,
        }
    }

    /// The identifier of the upstream request that the event belongs to.
    pub fn request_id(&self) -> (r: &str)
        ensures
            r@ == self.id()@,
    {
        match self {
            StreamEvent::Started { request_id, .. } => request_id.as_str(),
            StreamEvent::Progress { request_id, .. } => request_id.as_str(),
            StreamEvent::ObjectTree { request_id, .. } => request_id.as_str(),
            StreamEvent::TextChunk { request_id, .. } => request_id.as_str(),
            StreamEvent::ReportList { request_id, .. } => request_id.as_str(),
            StreamEvent::Description { request_id, .. } => request_id.as_str(),
            StreamEvent::Comparison { request_id, .. } => request_id.as_str(),
            StreamEvent::Completed { request_id, .. } => request_id.as_str(),
            StreamEvent::Error { request_id, .. } => request_id.as_str(),
            StreamEvent::Cancelled { request_id, .. } => request_id.as_str(),
        }
    }

    /// The structured payload of the event, for the variants that carry one.
    pub open spec fn payload(self) -> Option<JsonValue> {
        match self {
            StreamEvent::ObjectTree { data, .. } => Some(data),
            StreamEvent::ReportList { data, .. } => Some(data),
            StreamEvent::Description { data, .. } => Some(data),
            StreamEvent::Comparison { data, .. } => Some(data),
            _ => None,
        }
    }
}

/// The name under which an event goes to the browser; text for the answer
/// goes without a name.
pub open spec fn event_name(e: StreamEvent) -> Option<Seq<char>> {
    match e {
        StreamEvent::Started { .. } => Some("started"@),
        StreamEvent::Progress { .. } => Some("coordinator_thinking"@),
        StreamEvent::ObjectTree { .. } => Some("object_chunk"@),
        StreamEvent::TextChunk { .. } => None,
        StreamEvent::ReportList { .. } => Some("document_chunk"@),
        StreamEvent::Description { .. } => Some("description_chunk"@),
        StreamEvent::Comparison { .. } => Some("comparison_chunk"@),
        StreamEvent::Completed { .. } => Some("completed"@),
        StreamEvent::Error { .. } => Some("error"@),
        StreamEvent::Cancelled { .. } => Some("cancelled"@),
    }
}

/// The record that an event becomes. `rendered` is the JSON text of the
/// event's payload, where it has one and the text could be written; an event
/// whose payload could not be written becomes no record.
pub open spec fn sse_of(e: StreamEvent, rendered: Option<Seq<char>>) -> Option<SseView> {
    match e {
        StreamEvent::Started { request_id, .. } => Some(
            SseView { event: event_name(e), data: request_id@ },
        ),
        StreamEvent::Progress { message, .. } => Some(
            SseView { event: event_name(e), data: message@ },
        ),
        StreamEvent::TextChunk { chunk, .. } => Some(SseView { event: None, data: chunk@ }),
        StreamEvent::Completed { final_result, .. } => Some(
            SseView { event: event_name(e), data: final_result@ },
        ),
        StreamEvent::Error { error, .. } => Some(SseView { event: event_name(e), data: error@ }),
        StreamEvent::Cancelled { reason, .. } => Some(
            SseView { event: event_name(e), data: reason@ },
        ),
        _ => match rendered {
            Some(text) => Some(SseView { event: event_name(e), data: text }),
            None => None,
        },
    }
}

/// The JSON text of an event's payload.
pub open spec fn rendered_payload(e: StreamEvent) -> Option<Seq<char>> {
    match e.payload() {
        Some(data) => json_text(data),
        None => None,
    }
}

/// The record that an event becomes, given the JSON text of its payload.
pub fn transcode_with(event: &StreamEvent, rendered: Option<String>) -> (r: Option<SseEvent>)
    ensures
        match r {
            Some(sse) => Some(sse@),
            None => None,
        } == sse_of(
            *event,
            match rendered {
                Some(t) => Some(t@),
                None => None,
            },
        ),
{
    match event {
        StreamEvent::Started { request_id, .. } => Some(
            SseEvent::named("started", request_id.clone()),
        ),
        StreamEvent::Progress { message, .. } => Some(
            SseEvent::named("coordinator_thinking", message.clone()),
        ),
        StreamEvent::TextChunk { chunk, .. } => Some(SseEvent::text(chunk.clone())),
        StreamEvent::Completed { final_result, .. } => Some(
            SseEvent::named("completed", final_result.clone()),
        ),
        StreamEvent::Error { error, .. } => Some(SseEvent::named("error", error.clone())),
        StreamEvent::Cancelled { reason, .. } => Some(SseEvent::named("cancelled", reason.clone())),
        StreamEvent::ObjectTree { .. } => match rendered {
            Some(text) => Some(SseEvent::named("object_chunk", text)),
            None => None,
        },
        StreamEvent::ReportList { .. } => match rendered {
            Some(text) => Some(SseEvent::named("document_chunk", text)),
            None => None,
        },
        StreamEvent::Description { .. } => match rendered {
            Some(text) => Some(SseEvent::named("description_chunk", text)),
            None => None,
        },
        StreamEvent::Comparison { .. } => match rendered {
            Some(text) => Some(SseEvent::named("comparison_chunk", text)),
            None => None,
        },
    }
}

/// The record that an event becomes.
pub fn transcode(event: &StreamEvent) -> (r: Option<SseEvent>)
    ensures
        match r {
            Some(sse) => Some(sse@),
            None => None,
        } == sse_of(*event, rendered_payload(*event)),
{
    let rendered = match event {
        StreamEvent::ObjectTree { data, .. } => to_json_text(data),
        StreamEvent::ReportList { data, .. } => to_json_text(data),
        StreamEvent::Description { data, .. } => to_json_text(data),
        StreamEvent::Comparison { data, .. } => to_json_text(data),
        _ => None,
    };
    transcode_with(event, rendered)
}

} // verus!
