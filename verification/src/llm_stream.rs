//! The relay between the upstream stream and the browser, as a state
//! machine.
//!
//! The caller does the work that takes time: it sends the request upstream,
//! reads what comes back, sleeps, and watches the clock and the stop flag.
//! After each of these it hands the relay an input, and the relay answers
//! with the actions to carry out: records to send to the browser, the
//! request identifier to publish, the next request to make, the time to wait
//! before it, the payloads to read as typed events, and the end of the
//! stream.
//!
//! A relay starts out attempting, that is waiting for the answer to the
//! first request, which the caller makes.

use crate::chunk_assembler::{
    chunk_views, line_chunks, line_response, line_text, ChunkAssembler, ChunkView, UiChunk,
};
use crate::events::{rendered_payload, sse_of, transcode, SseEvent, SseView, StreamEvent};
use crate::json::{json_document, json_text, parse_json, to_json_text, JsonValue};
use crate::sse::{buffer_payloads, buffer_rest, split_payloads};
use crate::text::{
    all_spaces, chars_of, count_words, lemma_trim_empty, lines, split_lines, string_views,
    trim_chars, word_count,
};
use vstd::prelude::*;
use vstd::string::StringExecFns;

verus! {

/// How often a relay tries again after a request or a stream failed on the
/// way.
pub const MAX_RETRIES: u32 = 3;

/// The seconds between two keep-alive messages on a stream to the browser
/// that is otherwise idle.
pub const KEEP_ALIVE_SECS: u64 = 15;

/// The longest time, in milliseconds, that the caller waits for the upstream
/// before it looks at the stop flag and the clock again.
pub const POLL_MILLIS: u64 = 250;

/// The body of a chat request from the browser.
#[derive(Debug, Clone, PartialEq, Eq)]
pub struct PromptRequest {
    pub prompt: String,
}

/// Where a relay stands.
///
/// `TransportError` is the state between a failed attempt and the next one,
/// and the last state of a relay that has used up its retries. `Failed` is
/// the last state of a relay that the upstream turned away or whose stream
/// reported an error.
#[derive(Clone, Copy, Debug, PartialEq, Eq, Structural)]
pub enum RelayState {
    Attempting,
    Streaming,
    Complete,
    Stopped,
    TimedOut,
    MaxTokensReached,
    TransportError,
    Failed,
}

/// Something for the caller to do.
#[derive(Debug, Clone, PartialEq, Eq)]
pub enum RelayAction {
    /// Send a record to the browser.
    Emit(SseEvent),
    /// Publish the identifier of the upstream request that is running.
    RecordRequestId(String),
    /// Read the payload of a data line as a typed event, and report the
    /// payload with what was read.
    Decode(String),
    /// Make the request upstream.
    Connect,
    /// Wait before the next request.
    Wait { seconds: u64 },
    /// End the stream and drop the session's entry in the registry.
    Close,
}

/// A [`RelayAction`] with its strings as character sequences.
pub enum ActionView {
    Emit(SseView),
    RecordRequestId(Seq<char>),
    Decode(Seq<char>),
    Connect,
    Wait { seconds: u64 },
    Close,
}

impl View for RelayAction {
    type V = ActionView;

    open spec fn view(&self) -> ActionView {
        match self {
            RelayAction::Emit(e) => ActionView::Emit(e@),
            RelayAction::RecordRequestId(id) => ActionView::RecordRequestId(id@),
            RelayAction::Decode(payload) => ActionView::Decode(payload@),
            RelayAction::Connect => ActionView::Connect,
            RelayAction::Wait { seconds } => ActionView::Wait { seconds: *seconds },
            RelayAction::Close => ActionView::Close,
        }
    }
}

/// The views of a list of actions.
pub open spec fn action_views(actions: Seq<RelayAction>) -> Seq<ActionView> {
    actions.map_values(|a: RelayAction| a@)
}

/// The relay of one chat stream.
#[derive(Debug)]
pub struct Relay {
    pub status: RelayState,
    pub finished: bool,
    pub retries: u32,
    pub max_retries: u32,
    pub words: u64,
    pub max_tokens: u64,
    pub deadline: u64,
    pub cache: Vec<String>,
    pub pending: String,
    pub assembler: ChunkAssembler,
}

/// The state of a [`Relay`] with its strings as character sequences.
pub struct RelayView {
    pub status: RelayState,
    pub finished: bool,
    pub retries: u32,
    pub max_retries: u32,
    pub words: u64,
    pub max_tokens: u64,
    pub deadline: u64,
    pub cache: Seq<Seq<char>>,
    pub pending: Seq<char>,
    pub response_buffer: Seq<char>,
    pub text_buffer: Seq<char>,
}

impl View for Relay {
    type V = RelayView;

    open spec fn view(&self) -> RelayView {
        RelayView {
            status: self.status,
            finished: self.finished,
            retries: self.retries,
            max_retries: self.max_retries,
            words: self.words,
            max_tokens: self.max_tokens,
            deadline: self.deadline,
            cache: string_views(self.cache@),
            pending: self.pending@,
            response_buffer: self.assembler.response_buffer@,
            text_buffer: self.assembler.text_buffer@,
        }
    }
}

/// The outcome of one step of the relay: the state after it and the actions
/// for the caller, in order.
pub struct Step {
    pub state: RelayView,
    pub actions: Seq<ActionView>,
}

/// A record with an event name.
pub open spec fn named(event: Seq<char>, data: Seq<char>) -> ActionView {
    ActionView::Emit(SseView { event: Some(event), data })
}

/// A record of text for the answer.
pub open spec fn plain(data: Seq<char>) -> ActionView {
    ActionView::Emit(SseView { event: None, data })
}

/// A step that changes nothing and asks for nothing.
pub open spec fn idle(m: RelayView) -> Step {
    Step { state: m, actions: Seq::empty() }
}

/// A step followed by another: the state of the second, the actions of
/// both.
pub open spec fn then(first: Step, second: Step) -> Step {
    Step { state: second.state, actions: first.actions + second.actions }
}

/// Whether the relay is passing the upstream stream on.
pub open spec fn streaming(m: RelayView) -> bool {
    !m.finished && m.status == RelayState::Streaming
}

/// The end of the stream in state `status`.
pub open spec fn ended(m: RelayView, status: RelayState) -> RelayView {
    RelayView { status, finished: true, ..m }
}

/// A count of words with `more` added, stopping at the largest count.
pub open spec fn counted(words: u64, more: nat) -> u64 {
    if words + more > u64::MAX {
        u64::MAX
    } else {
        (words + more) as u64
    }
}

/// A piece of text for the answer goes out.
///
/// The text is sent, kept for a replay, and its words are counted. Where the
/// count reaches the budget with this text, the stream is stopped right after
/// it. A relay that is not streaming does nothing.
pub open spec fn on_text_step(m: RelayView, text: Seq<char>) -> Step {
    if !streaming(m) {
        idle(m)
    } else {
        let words = counted(m.words, word_count(text));
        let sent = RelayView { words, cache: m.cache.push(text), ..m };
        if words >= m.max_tokens {
            Step {
                state: ended(sent, RelayState::MaxTokensReached),
                actions: seq![plain(text), named("on_stop"@, "max_tokens"@), ActionView::Close],
            }
        } else {
            Step { state: sent, actions: seq![plain(text)] }
        }
    }
}

/// A typed event arrives. `rendered` is the JSON text of its payload, if it
/// has one that could be written.
///
/// Every event publishes its request identifier first. A text chunk then
/// goes out as text. A completed event ends the stream as complete, a
/// cancelled one as stopped, and an error as failed, whether or not it says
/// that it can be recovered from: the three are the last events of a
/// stream. Every other event is passed on under its name.
pub open spec fn on_event_step(m: RelayView, e: StreamEvent, rendered: Option<Seq<char>>) -> Step {
    if !streaming(m) {
        idle(m)
    } else {
        let publish = Step { state: m, actions: seq![ActionView::RecordRequestId(e.id()@)] };
        match e {
            StreamEvent::TextChunk { chunk, .. } => then(publish, on_text_step(m, chunk@)),
            StreamEvent::Completed { final_result, .. } => then(
                publish,
                Step {
                    state: ended(m, RelayState::Complete),
                    actions: seq![
                        named("completed"@, final_result@),
                        named("on_complete"@, ""@),
                        ActionView::Close,
                    ],
                },
            ),
            StreamEvent::Cancelled { reason, .. } => then(
                publish,
                Step {
                    state: ended(m, RelayState::Stopped),
                    actions: seq![named("cancelled"@, reason@), ActionView::Close],
                },
            ),
            StreamEvent::Error { error, .. } => then(
                publish,
                Step {
                    state: ended(m, RelayState::Failed),
                    actions: seq![named("error"@, error@), ActionView::Close],
                },
            ),
            _ => then(
                publish,
                match sse_of(e, rendered) {
                    Some(sse) => Step { state: m, actions: seq![ActionView::Emit(sse)] },
                    None => idle(m),
                },
            ),
        }
    }
}

/// A chunk of the older wire format goes out. `rendered` is the JSON text of
/// the document, for a JSON chunk whose text could be written.
pub open spec fn on_ui_chunk_step(m: RelayView, c: ChunkView, rendered: Option<Seq<char>>) -> Step {
    if !streaming(m) {
        idle(m)
    } else {
        match c {
            ChunkView::Text(t) => on_text_step(m, t),
            ChunkView::Markdown(t) => on_text_step(m, t),
            ChunkView::Json(_) => match rendered {
                Some(text) => Step { state: m, actions: seq![named("json"@, text)] },
                None => idle(m),
            },
        }
    }
}

/// The JSON text of a chunk that holds a document.
pub open spec fn rendered_chunk(c: ChunkView) -> Option<Seq<char>> {
    match c {
        ChunkView::Json(v) => json_text(v),
        _ => None,
    }
}

/// The chunks of the older wire format go out, one after another.
pub open spec fn on_ui_chunks_step(m: RelayView, chunks: Seq<ChunkView>) -> Step
    decreases chunks.len(),
{
    if chunks.len() == 0 {
        idle(m)
    } else {
        let first = on_ui_chunk_step(m, chunks[0], rendered_chunk(chunks[0]));
        then(first, on_ui_chunks_step(first.state, chunks.drop_first()))
    }
}

/// The relay once the payload has gone through the extraction of the older
/// wire format.
pub open spec fn fed(m: RelayView, payload: Seq<char>) -> RelayView {
    RelayView {
        response_buffer: line_response(m.response_buffer, payload),
        text_buffer: line_text(m.text_buffer, m.response_buffer, payload),
        ..m
    }
}

/// The payload of one data line comes back from the caller; `typed` is the
/// typed event that the caller read from it, if it is one.
///
/// A typed event is handled as that event. Any other payload is taken for a
/// line of the older wire format: the text and the documents that it yields
/// go out.
pub open spec fn on_data_step(m: RelayView, payload: Seq<char>, typed: Option<StreamEvent>) -> Step {
    if !streaming(m) {
        idle(m)
    } else {
        match typed {
            Some(e) => on_event_step(m, e, rendered_payload(e)),
            None => on_ui_chunks_step(
                fed(m, payload),
                line_chunks(m.text_buffer, m.response_buffer, payload),
            ),
        }
    }
}

/// The requests to read some payloads, one for each, in order.
pub open spec fn decodes(payloads: Seq<Seq<char>>) -> Seq<ActionView> {
    payloads.map_values(|p: Seq<char>| ActionView::Decode(p))
}

/// A piece of the upstream stream arrives.
///
/// It is added to what is pending of the stream. The payloads of the records
/// that are complete by then are handed out to be read, in order; what
/// follows the last complete record stays pending.
pub open spec fn on_chunk_step(m: RelayView, text: Seq<char>) -> Step {
    if !streaming(m) {
        idle(m)
    } else {
        let buf = m.pending + text;
        Step {
            state: RelayView { pending: buffer_rest(buf, 0), ..m },
            actions: decodes(buffer_payloads(buf, 0)),
        }
    }
}

/// The records that replay the pieces of text sent so far.
pub open spec fn replay(cache: Seq<Seq<char>>) -> Seq<ActionView> {
    cache.map_values(|t: Seq<char>| named("replay"@, t))
}

/// Two to the power of `n`.
pub open spec fn pow2(n: nat) -> nat
    decreases n,
{
    if n == 0 {
        1
    } else {
        2 * pow2((n - 1) as nat)
    }
}

/// The seconds to wait before retry number `n`: two to the power of `n`,
/// and no more than fits.
pub open spec fn backoff_seconds(n: u32) -> u64 {
    if pow2(n as nat) > u64::MAX {
        u64::MAX
    } else {
        pow2(n as nat) as u64
    }
}

/// What the caller reports to the relay.
#[derive(Debug, Clone, PartialEq, Eq)]
pub enum RelayInput {
    /// The upstream accepted the request; its stream follows.
    Connected,
    /// The upstream answered with a status that is not a success.
    Rejected { body: String },
    /// The request or the stream failed on the way.
    TransportFailed { message: String },
    /// The time to wait before a retry is over.
    BackoffElapsed,
    /// A piece of the upstream stream.
    Chunk(String),
    /// The payload of a data line that was handed out to be read, with the
    /// typed event that was read from it, if it is one.
    Data { payload: String, typed: Option<StreamEvent> },
    /// The upstream stream ended.
    UpstreamEnded,
    /// The deadline of the stream has passed.
    DeadlineReached,
    /// The user asked to stop.
    StopRequested,
}

/// A [`RelayInput`] with its strings as character sequences.
pub enum InputView {
    Connected,
    Rejected { body: Seq<char> },
    TransportFailed { message: Seq<char> },
    BackoffElapsed,
    Chunk(Seq<char>),
    Data { payload: Seq<char>, typed: Option<StreamEvent> },
    UpstreamEnded,
    DeadlineReached,
    StopRequested,
}

impl View for RelayInput {
    type V = InputView;

    open spec fn view(&self) -> InputView {
        match self {
            RelayInput::Connected => InputView::Connected,
            RelayInput::Rejected { body } => InputView::Rejected { body: body@ },
            RelayInput::TransportFailed { message } => InputView::TransportFailed {
                message: message@,
            },
            RelayInput::BackoffElapsed => InputView::BackoffElapsed,
            RelayInput::Chunk(text) => InputView::Chunk(text@),
            RelayInput::Data { payload, typed } => InputView::Data {
                payload: payload@,
                typed: *typed,
            },
            RelayInput::UpstreamEnded => InputView::UpstreamEnded,
            RelayInput::DeadlineReached => InputView::DeadlineReached,
            RelayInput::StopRequested => InputView::StopRequested,
        }
    }
}

/// The upstream accepted the request: the relay streams, starting from
/// nothing pending, and first replays the text sent so far.
pub open spec fn on_connected_step(m: RelayView) -> Step {
    if m.finished || m.status != RelayState::Attempting {
        idle(m)
    } else {
        Step {
            state: RelayView {
                status: RelayState::Streaming,
                pending: Seq::empty(),
                response_buffer: Seq::empty(),
                text_buffer: Seq::empty(),
                ..m
            },
            actions: replay(m.cache),
        }
    }
}

/// The upstream turned the request away: that is reported, and final.
pub open spec fn on_rejected_step(m: RelayView, body: Seq<char>) -> Step {
    if m.finished || m.status != RelayState::Attempting {
        idle(m)
    } else {
        Step {
            state: ended(m, RelayState::Failed),
            actions: seq![named("error"@, body), ActionView::Close],
        }
    }
}

/// The request or the stream failed on the way: that is reported. With a
/// retry left, the relay waits and then tries again; without one it ends.
pub open spec fn on_transport_failed_step(m: RelayView, message: Seq<char>) -> Step {
    if m.finished || !(m.status == RelayState::Attempting || m.status == RelayState::Streaming) {
        idle(m)
    } else if m.retries < m.max_retries {
        let retry = (m.retries + 1) as u32;
        Step {
            state: RelayView { status: RelayState::TransportError, retries: retry, ..m },
            actions: seq![
                named("error"@, message),
                ActionView::Wait { seconds: backoff_seconds(retry) },
            ],
        }
    } else {
        Step {
            state: ended(m, RelayState::TransportError),
            actions: seq![
                named("error"@, message),
                named("on_stop"@, "transport_error"@),
                ActionView::Close,
            ],
        }
    }
}

/// The wait before a retry is over: the relay tries again.
pub open spec fn on_backoff_elapsed_step(m: RelayView) -> Step {
    if m.finished || m.status != RelayState::TransportError {
        idle(m)
    } else {
        Step {
            state: RelayView { status: RelayState::Attempting, ..m },
            actions: seq![ActionView::Connect],
        }
    }
}

/// The upstream stream ended: the relay is complete.
pub open spec fn on_upstream_ended_step(m: RelayView) -> Step {
    if !streaming(m) {
        idle(m)
    } else {
        Step {
            state: ended(m, RelayState::Complete),
            actions: seq![named("on_complete"@, ""@), ActionView::Close],
        }
    }
}

/// The stream is stopped from outside, by the clock or by the user, with
/// the reason given.
pub open spec fn on_stop_step(m: RelayView, status: RelayState, reason: Seq<char>) -> Step {
    if m.finished {
        idle(m)
    } else {
        Step {
            state: ended(m, status),
            actions: seq![named("on_stop"@, reason), ActionView::Close],
        }
    }
}

/// One step of the relay.
#[verifier::opaque]
pub open spec fn step_of(m: RelayView, input: InputView) -> Step {
    match input {
        InputView::Connected => on_connected_step(m),
        InputView::Rejected { body } => on_rejected_step(m, body),
        InputView::TransportFailed { message } => on_transport_failed_step(m, message),
        InputView::BackoffElapsed => on_backoff_elapsed_step(m),
        InputView::Chunk(text) => on_chunk_step(m, text),
        InputView::Data { payload, typed } => on_data_step(m, payload, typed),
        InputView::UpstreamEnded => on_upstream_ended_step(m),
        InputView::DeadlineReached => on_stop_step(m, RelayState::TimedOut, "timeout"@),
        InputView::StopRequested => on_stop_step(m, RelayState::Stopped, "stopped"@),
    }
}

proof fn lemma_texts_push(strings: Seq<String>, s: String)
    ensures
        string_views(strings.push(s)) == string_views(strings).push(s@),
{
}

/// Appends `more` to `out`.
fn append_actions(out: &mut Vec<RelayAction>, more: Vec<RelayAction>)
    ensures
        action_views(final(out)@) == action_views(old(out)@) + action_views(more@),
{
    let mut more = more;
    out.append(&mut more);
}

impl Relay {
    /// A relay that is attempting its first request. `deadline` is the
    /// instant at which the stream times out, whatever happens till then.
    pub fn new(deadline: u64, max_tokens: u64, max_retries: u32) -> (r: Relay)
        ensures
            r@ == (RelayView {
                status: RelayState::Attempting,
                finished: false,
                retries: 0,
                max_retries,
                words: 0,
                max_tokens,
                deadline,
                cache: Seq::empty(),
                pending: Seq::empty(),
                response_buffer: Seq::empty(),
                text_buffer: Seq::empty(),
            }),
    {
        let r = Relay {
            status: RelayState::Attempting,
            finished: false,
            retries: 0,
            max_retries,
            words: 0,
            max_tokens,
            deadline,
            cache: Vec::new(),
            pending: String::new(),
            assembler: ChunkAssembler::new(),
        };
        assert(string_views(r.cache@) =~= Seq::<Seq<char>>::empty());
        r
    }

    /// A relay for a stream that starts at `now` and may last for
    /// `max_duration`: its deadline is set once, here, and holds for every
    /// attempt.
    pub fn start(now: u64, max_duration: u64, max_tokens: u64, max_retries: u32) -> (r: Relay)
        ensures
            r@ == (RelayView {
                status: RelayState::Attempting,
                finished: false,
                retries: 0,
                max_retries,
                words: 0,
                max_tokens,
                deadline: if now + max_duration > u64::MAX {
                    u64::MAX
                } else {
                    (now + max_duration) as u64
                },
                cache: Seq::empty(),
                pending: Seq::empty(),
                response_buffer: Seq::empty(),
                text_buffer: Seq::empty(),
            }),
    {
        let deadline = if max_duration > u64::MAX - now {
            u64::MAX
        } else {
            now + max_duration
        };
        Relay::new(deadline, max_tokens, max_retries)
    }

    /// Whether the relay is passing the upstream stream on.
    pub fn is_streaming(&self) -> (r: bool)
        ensures
            r == streaming(self@),
    {
        !self.finished && self.status == RelayState::Streaming
    }

    /// Ends the stream in state `status`.
    fn end(&mut self, status: RelayState)
        ensures
            final(self)@ == ended(old(self)@, status),
    {
        self.status = status;
        self.finished = true;
    }

    /// Sends a piece of text for the answer.
    pub fn on_text(&mut self, text: &str) -> (out: Vec<RelayAction>)
        ensures
            final(self)@ == on_text_step(old(self)@, text@).state,
            action_views(out@) == on_text_step(old(self)@, text@).actions,
    {
        let mut out: Vec<RelayAction> = Vec::new();
        if !self.is_streaming() {
            return out;
        }
        let more = count_words(text) as u64;
        self.words = if more > u64::MAX - self.words {
            u64::MAX
        } else {
            self.words + more
        };
        self.cache.push(text.to_owned());
        proof {
            lemma_texts_push(old(self).cache@, self.cache@.last());
        }
        out.push(RelayAction::Emit(SseEvent::text(text.to_owned())));
        if self.words >= self.max_tokens {
            self.end(RelayState::MaxTokensReached);
            out.push(RelayAction::Emit(SseEvent::named("on_stop", "max_tokens".to_owned())));
            out.push(RelayAction::Close);
        }
        out
    }

    /// Handles a typed event.
    pub fn on_event(&mut self, event: &StreamEvent) -> (out: Vec<RelayAction>)
        ensures
            final(self)@ == on_event_step(old(self)@, *event, rendered_payload(*event)).state,
            action_views(out@) == on_event_step(
                old(self)@,
                *event,
                rendered_payload(*event),
            ).actions,
    {
        let mut out: Vec<RelayAction> = Vec::new();
        if !self.is_streaming() {
            return out;
        }
        out.push(RelayAction::RecordRequestId(event.request_id().to_owned()));
        match event {
            StreamEvent::TextChunk { chunk, .. } => {
                let more = self.on_text(chunk.as_str());
                append_actions(&mut out, more);
            },
            StreamEvent::Completed { final_result, .. } => {
                self.end(RelayState::Complete);
                out.push(RelayAction::Emit(SseEvent::named("completed", final_result.clone())));
                out.push(RelayAction::Emit(SseEvent::named("on_complete", "".to_owned())));
                out.push(RelayAction::Close);
            },
            StreamEvent::Cancelled { reason, .. } => {
                self.end(RelayState::Stopped);
                out.push(RelayAction::Emit(SseEvent::named("cancelled", reason.clone())));
                out.push(RelayAction::Close);
            },
            StreamEvent::Error { error, .. } => {
                self.end(RelayState::Failed);
                out.push(RelayAction::Emit(SseEvent::named("error", error.clone())));
                out.push(RelayAction::Close);
            },
            _ => {
                match transcode(event) {
                    Some(sse) => {
                        out.push(RelayAction::Emit(sse));
                    },
                    None => {
                    },
                }
            },
        }
        out
    }

    /// Handles a chunk of the older wire format.
    pub fn on_ui_chunk(&mut self, chunk: &UiChunk) -> (out: Vec<RelayAction>)
        ensures
            final(self)@ == on_ui_chunk_step(old(self)@, chunk@, rendered_chunk(chunk@)).state,
            action_views(out@) == on_ui_chunk_step(
                old(self)@,
                chunk@,
                rendered_chunk(chunk@),
            ).actions,
    {
        if !self.is_streaming() {
            let out: Vec<RelayAction> = Vec::new();
            return out;
        }
        match chunk {
            UiChunk::Text(t) => self.on_text(t.as_str()),
            UiChunk::Markdown(t) => self.on_text(t.as_str()),
            UiChunk::Json(v) => {
                let mut out: Vec<RelayAction> = Vec::new();
                match to_json_text(v) {
                    Some(text) => {
                        out.push(RelayAction::Emit(SseEvent::named("json", text)));
                    },
                    None => {
                    },
                }
                out
            },
        }
    }

    /// Handles the chunks that a line of the older wire format yielded.
    fn on_ui_chunks(&mut self, chunks: &Vec<UiChunk>) -> (out: Vec<RelayAction>)
        ensures
            final(self)@ == on_ui_chunks_step(old(self)@, chunk_views(chunks@)).state,
            action_views(out@) == on_ui_chunks_step(old(self)@, chunk_views(chunks@)).actions,
    {
        let ghost items = chunk_views(chunks@);
        let ghost total = on_ui_chunks_step(self@, items);
        let mut out: Vec<RelayAction> = Vec::new();
        let mut i: usize = 0;
        assert(items.skip(0) =~= items);
        while i < chunks.len()
            invariant
                i <= chunks.len(),
                items == chunk_views(chunks@),
                total.state == on_ui_chunks_step(self@, items.skip(i as int)).state,
                total.actions == action_views(out@) + on_ui_chunks_step(
                    self@,
                    items.skip(i as int),
                ).actions,
            decreases chunks.len() - i,
        {
            let ghost left = items.skip(i as int);
            assert(left.drop_first() =~= items.skip(i + 1));
            let more = self.on_ui_chunk(&chunks[i]);
            append_actions(&mut out, more);
            i += 1;
        }
        out
    }

    /// Handles the payload of one data line; `typed` is the typed event
    /// read from it, if it is one.
    pub fn on_data(&mut self, payload: &str, typed: Option<StreamEvent>) -> (out: Vec<RelayAction>)
        ensures
            final(self)@ == on_data_step(old(self)@, payload@, typed).state,
            action_views(out@) == on_data_step(old(self)@, payload@, typed).actions,
    {
        if !self.is_streaming() {
            let out: Vec<RelayAction> = Vec::new();
            return out;
        }
        match typed {
            Some(event) => self.on_event(&event),
            None => {
                let chunks = self.assembler.push_sse_line(payload);
                self.on_ui_chunks(&chunks)
            },
        }
    }

    /// Handles a piece of the upstream stream.
    pub fn on_chunk(&mut self, text: &str) -> (out: Vec<RelayAction>)
        ensures
            final(self)@ == on_chunk_step(old(self)@, text@).state,
            action_views(out@) == on_chunk_step(old(self)@, text@).actions,
    {
        let mut out: Vec<RelayAction> = Vec::new();
        if !self.is_streaming() {
            return out;
        }
        self.pending.append(text);
        let (payloads, rest) = split_payloads(self.pending.as_str());
        self.pending = rest;
        let ghost wanted = decodes(string_views(payloads@));
        let mut i: usize = 0;
        while i < payloads.len()
            invariant
                i <= payloads.len(),
                wanted == decodes(string_views(payloads@)),
                action_views(out@) == wanted.take(i as int),
            decreases payloads.len() - i,
        {
            let ghost sent = action_views(out@);
            out.push(RelayAction::Decode(payloads[i].clone()));
            assert(action_views(out@) =~= sent.push(ActionView::Decode(payloads@[i as int]@)));
            i += 1;
        }
        out
    }

    /// The records that replay the text sent so far.
    fn replay_actions(&self) -> (out: Vec<RelayAction>)
        ensures
            action_views(out@) == replay(string_views(self.cache@)),
    {
        let mut out: Vec<RelayAction> = Vec::new();
        let mut i: usize = 0;
        while i < self.cache.len()
            invariant
                i <= self.cache.len(),
                action_views(out@) == replay(string_views(self.cache@)).take(i as int),
            decreases self.cache.len() - i,
        {
            let ghost sent = action_views(out@);
            let record = SseEvent::named("replay", self.cache[i].clone());
            out.push(RelayAction::Emit(record));
            assert(action_views(out@) =~= sent.push(ActionView::Emit(record@)));
            i += 1;
        }
        out
    }

    /// The seconds to wait before retry number `n`.
    pub fn backoff(n: u32) -> (r: u64)
        ensures
            r == backoff_seconds(n),
    {
        let mut r: u64 = 1;
        let mut i: u32 = 0;
        while i < n
            invariant
                i <= n,
                r == backoff_seconds(i),
                r == u64::MAX || r == pow2(i as nat),
            decreases n - i,
        {
            r = if r > u64::MAX / 2 {
                u64::MAX
            } else {
                r * 2
            };
            i += 1;
        }
        r
    }

    /// Ends the stream from outside, with the reason given.
    fn stop_with(&mut self, status: RelayState, reason: &str) -> (out: Vec<RelayAction>)
        ensures
            final(self)@ == on_stop_step(old(self)@, status, reason@).state,
            action_views(out@) == on_stop_step(old(self)@, status, reason@).actions,
    {
        let mut out: Vec<RelayAction> = Vec::new();
        if self.finished {
            return out;
        }
        self.end(status);
        out.push(RelayAction::Emit(SseEvent::named("on_stop", reason.to_owned())));
        out.push(RelayAction::Close);
        out
    }

    /// Takes one input and answers with the actions to carry out, in order.
    ///
    /// An input that does not fit the state is ignored: a relay that has
    /// ended takes no input, one that is not streaming no piece of the
    /// stream, and so on.
    pub fn step(&mut self, input: RelayInput) -> (out: Vec<RelayAction>)
        ensures
            final(self)@ == step_of(old(self)@, input@).state,
            action_views(out@) == step_of(old(self)@, input@).actions,
            final(self).deadline == old(self).deadline,
    {
        let mut out: Vec<RelayAction> = Vec::new();
        proof {
            reveal(step_of);
            law_settings_kept(self@, input@);
        }
        match input {
            RelayInput::Connected => {
                if self.finished || self.status != RelayState::Attempting {
                    return out;
                }
                let out = self.replay_actions();
                self.status = RelayState::Streaming;
                self.pending = String::new();
                self.assembler = ChunkAssembler::new();
                out
            },
            RelayInput::Rejected { body } => {
                if self.finished || self.status != RelayState::Attempting {
                    return out;
                }
                self.end(RelayState::Failed);
                out.push(RelayAction::Emit(SseEvent::named("error", body)));
                out.push(RelayAction::Close);
                out
            },
            RelayInput::TransportFailed { message } => {
                if self.finished || !(self.status == RelayState::Attempting || self.status
                    == RelayState::Streaming) {
                    return out;
                }
                out.push(RelayAction::Emit(SseEvent::named("error", message)));
                if self.retries < self.max_retries {
                    self.retries = self.retries + 1;
                    self.status = RelayState::TransportError;
                    out.push(RelayAction::Wait { seconds: Relay::backoff(self.retries) });
                } else {
                    self.end(RelayState::TransportError);
                    out.push(
                        RelayAction::Emit(SseEvent::named("on_stop", "transport_error".to_owned())),
                    );
                    out.push(RelayAction::Close);
                }
                out
            },
            RelayInput::BackoffElapsed => {
                if self.finished || self.status != RelayState::TransportError {
                    return out;
                }
                self.status = RelayState::Attempting;
                out.push(RelayAction::Connect);
                out
            },
            RelayInput::Chunk(text) => self.on_chunk(text.as_str()),
            RelayInput::Data { payload, typed } => self.on_data(payload.as_str(), typed),
            RelayInput::UpstreamEnded => {
                if !self.is_streaming() {
                    return out;
                }
                self.end(RelayState::Complete);
                out.push(RelayAction::Emit(SseEvent::named("on_complete", "".to_owned())));
                out.push(RelayAction::Close);
                out
            },
            RelayInput::DeadlineReached => self.stop_with(RelayState::TimedOut, "timeout"),
            RelayInput::StopRequested => self.stop_with(RelayState::Stopped, "stopped"),
        }
    }

    /// Whether the deadline of the stream has passed at `now`.
    pub fn timed_out(&self, now: u64) -> (r: bool)
        ensures
            r == (now >= self.deadline),
    {
        now >= self.deadline
    }

    /// The milliseconds that are left at `now` until the deadline.
    pub fn millis_left(&self, now: u64) -> (r: u64)
        ensures
            r == left_at(self.deadline, now),
    {
        if now >= self.deadline {
            0
        } else {
            self.deadline - now
        }
    }

    /// The input that is due at `now` before anything more is read from the
    /// upstream: a stop that was asked for comes first, then the deadline;
    /// `None` says that the upstream is to be read.
    pub fn next_input(&self, stop_requested: bool, now: u64) -> (r: Option<RelayInput>)
        ensures
            r == due_input(self.deadline, stop_requested, now),
    {
        if stop_requested {
            Some(RelayInput::StopRequested)
        } else if now >= self.deadline {
            Some(RelayInput::DeadlineReached)
        } else {
            None
        }
    }

    /// How long to wait at `now` before a retry that is `seconds` away, and
    /// the input to hand in then: the wait ends at the deadline where that
    /// comes no later than the retry.
    pub fn pause_before_retry(&self, seconds: u64, now: u64) -> (r: Pause)
        ensures
            r == pause_of(self.deadline, seconds, now),
    {
        let left = self.millis_left(now);
        let wait: u64 = if seconds > u64::MAX / 1000 {
            u64::MAX
        } else {
            seconds * 1000
        };
        if wait >= left {
            Pause { millis: left, input: RelayInput::DeadlineReached }
        } else {
            Pause { millis: wait, input: RelayInput::BackoffElapsed }
        }
    }

    /// How long to wait at `now` for the upstream before the stop flag and
    /// the clock are looked at again.
    pub fn poll_millis(&self, now: u64) -> (r: u64)
        ensures
            r == if left_at(self.deadline, now) < POLL_MILLIS {
                left_at(self.deadline, now)
            } else {
                POLL_MILLIS
            },
    {
        let left = self.millis_left(now);
        if left < POLL_MILLIS {
            left
        } else {
            POLL_MILLIS
        }
    }
}

/// A wait and the input that follows it.
#[derive(Debug, Clone, PartialEq, Eq)]
pub struct Pause {
    pub millis: u64,
    pub input: RelayInput,
}

/// The milliseconds from `now` to `deadline`, none once it has passed.
pub open spec fn left_at(deadline: u64, now: u64) -> u64 {
    if now >= deadline {
        0
    } else {
        (deadline - now) as u64
    }
}

/// The input that is due at `now` before the upstream is read.
pub open spec fn due_input(deadline: u64, stop_requested: bool, now: u64) -> Option<RelayInput> {
    if stop_requested {
        Some(RelayInput::StopRequested)
    } else if now >= deadline {
        Some(RelayInput::DeadlineReached)
    } else {
        None
    }
}

/// The wait before a retry that is `seconds` away, and the input after it.
pub open spec fn pause_of(deadline: u64, seconds: u64, now: u64) -> Pause {
    if seconds * 1000 >= left_at(deadline, now) {
        Pause { millis: left_at(deadline, now), input: RelayInput::DeadlineReached }
    } else {
        Pause { millis: (seconds * 1000) as u64, input: RelayInput::BackoffElapsed }
    }
}

/// Whether two states have the same deadline and the same limits.
pub open spec fn same_settings(a: RelayView, b: RelayView) -> bool {
    a.deadline == b.deadline && a.max_tokens == b.max_tokens && a.max_retries == b.max_retries
}

proof fn lemma_ui_chunks_keep_settings(m: RelayView, chunks: Seq<ChunkView>)
    ensures
        same_settings(m, on_ui_chunks_step(m, chunks).state),
    decreases chunks.len(),
{
    if chunks.len() > 0 {
        let first = on_ui_chunk_step(m, chunks[0], rendered_chunk(chunks[0]));
        lemma_ui_chunks_keep_settings(first.state, chunks.drop_first());
    }
}


/// No step moves the deadline or changes a limit: the deadline set when the
/// relay was made holds for every attempt.
pub proof fn law_settings_kept(m: RelayView, input: InputView)
    ensures
        same_settings(m, step_of(m, input).state),
{
    reveal(step_of);
    if let InputView::Data { payload, typed } = input {
        if streaming(m) && typed is None {
            lemma_ui_chunks_keep_settings(
                fed(m, payload),
                line_chunks(m.text_buffer, m.response_buffer, payload),
            );
        }
    }
}

/// Pieces of text for the answer go out, one after another.
pub open spec fn on_texts_step(m: RelayView, pieces: Seq<Seq<char>>) -> Step
    decreases pieces.len(),
{
    if pieces.len() == 0 {
        idle(m)
    } else {
        let first = on_text_step(m, pieces[0]);
        then(first, on_texts_step(first.state, pieces.drop_first()))
    }
}

/// The count of words once the first `n` pieces are added to `words`.
pub open spec fn words_after(words: u64, pieces: Seq<Seq<char>>, n: int) -> u64
    decreases n,
{
    if n <= 0 || pieces.len() == 0 {
        words
    } else {
        words_after(counted(words, word_count(pieces[0])), pieces.drop_first(), n - 1)
    }
}

/// The records that send pieces of text, one for each.
pub open spec fn plain_all(pieces: Seq<Seq<char>>) -> Seq<ActionView> {
    pieces.map_values(|t: Seq<char>| plain(t))
}

proof fn lemma_words_grow(words: u64, pieces: Seq<Seq<char>>, n: int)
    ensures
        words_after(words, pieces, n) >= words,
    decreases n,
{
    if n > 0 && pieces.len() > 0 {
        lemma_words_grow(counted(words, word_count(pieces[0])), pieces.drop_first(), n - 1);
    }
}

proof fn lemma_ended_takes_no_text(m: RelayView, pieces: Seq<Seq<char>>)
    requires
        !streaming(m),
    ensures
        on_texts_step(m, pieces) == idle(m),
    decreases pieces.len(),
{
    if pieces.len() > 0 {
        lemma_ended_takes_no_text(m, pieces.drop_first());
    }
}

/// The stream is cut off right after the piece of text with which the count
/// of words reaches the budget, and not before: every piece up to and
/// including that one is sent, the stop follows at once, and nothing is sent
/// after it.
pub proof fn law_budget_cutoff(m: RelayView, pieces: Seq<Seq<char>>, j: int)
    requires
        streaming(m),
        0 <= j < pieces.len(),
        words_after(m.words, pieces, j) < m.max_tokens,
        words_after(m.words, pieces, j + 1) >= m.max_tokens,
    ensures
        on_texts_step(m, pieces).actions == plain_all(pieces.take(j + 1)) + seq![
            named("on_stop"@, "max_tokens"@),
            ActionView::Close,
        ],
        on_texts_step(m, pieces).state.status == RelayState::MaxTokensReached,
        on_texts_step(m, pieces).state.finished,
    decreases j,
{
    let first = on_text_step(m, pieces[0]);
    let rest = pieces.drop_first();
    let after_first = counted(m.words, word_count(pieces[0]));
    if j == 0 {
        assert(words_after(after_first, rest, 0) == after_first);
        lemma_ended_takes_no_text(first.state, rest);
    } else {
        lemma_words_grow(after_first, rest, j - 1);
        law_budget_cutoff(first.state, rest, j - 1);
    }
}

/// The steps for a list of inputs, one after another.
pub open spec fn run(m: RelayView, inputs: Seq<InputView>) -> Step
    decreases inputs.len(),
{
    if inputs.len() == 0 {
        idle(m)
    } else {
        let first = step_of(m, inputs[0]);
        then(first, run(first.state, inputs.drop_first()))
    }
}

/// The inputs of attempts that fail on the way, each followed by the end of
/// the wait for the next attempt.
pub open spec fn failed_attempts(messages: Seq<Seq<char>>) -> Seq<InputView>
    decreases messages.len(),
{
    if messages.len() == 0 {
        Seq::empty()
    } else {
        seq![InputView::TransportFailed { message: messages[0] }, InputView::BackoffElapsed]
            + failed_attempts(messages.drop_first())
    }
}

/// The actions of the retries that follow failed attempts, for a relay that
/// has made `retries` retries before: for each failure the error, the wait,
/// and the next request.
pub open spec fn retry_actions(messages: Seq<Seq<char>>, retries: int) -> Seq<ActionView>
    decreases messages.len(),
{
    if messages.len() == 0 {
        Seq::empty()
    } else {
        seq![
            named("error"@, messages[0]),
            ActionView::Wait { seconds: backoff_seconds((retries + 1) as u32) },
            ActionView::Connect,
        ] + retry_actions(messages.drop_first(), retries + 1)
    }
}

/// Number of requests that a list of actions asks for.
pub open spec fn connects(actions: Seq<ActionView>) -> nat
    decreases actions.len(),
{
    if actions.len() == 0 {
        0
    } else {
        connects(actions.drop_last()) + if actions.last() is Connect {
            1nat
        } else {
            0nat
        }
    }
}

/// Number of records with the event name `error` in a list of actions.
pub open spec fn errors(actions: Seq<ActionView>) -> nat
    decreases actions.len(),
{
    if actions.len() == 0 {
        0
    } else {
        errors(actions.drop_last()) + if actions.last() == named(
            "error"@,
            actions.last()->Emit_0.data,
        ) {
            1nat
        } else {
            0nat
        }
    }
}

proof fn lemma_run_concat(m: RelayView, a: Seq<InputView>, b: Seq<InputView>)
    ensures
        run(m, a + b) == then(run(m, a), run(run(m, a).state, b)),
    decreases a.len(),
{
    if a.len() > 0 {
        let first = step_of(m, a[0]);
        assert((a + b).drop_first() =~= a.drop_first() + b);
        lemma_run_concat(first.state, a.drop_first(), b);
        let mid = run(first.state, a.drop_first());
        let tail = run(mid.state, b);
        assert(first.actions + (mid.actions + tail.actions) =~= (first.actions + mid.actions)
            + tail.actions);
    }
}

proof fn lemma_step_cases(m: RelayView, message: Seq<char>)
    ensures
        step_of(m, InputView::TransportFailed { message }) == on_transport_failed_step(m, message),
        step_of(m, InputView::BackoffElapsed) == on_backoff_elapsed_step(m),
        step_of(m, InputView::Connected) == on_connected_step(m),
{
    reveal(step_of);
}

proof fn lemma_run_one(m: RelayView, input: InputView)
    ensures
        run(m, seq![input]) == step_of(m, input),
{
    let inputs = seq![input];
    assert(run(step_of(m, input).state, inputs.drop_first()) == idle(step_of(m, input).state));
}

proof fn lemma_failed_attempts(m: RelayView, messages: Seq<Seq<char>>)
    requires
        !m.finished,
        m.status == RelayState::Attempting,
        m.retries + messages.len() <= m.max_retries,
    ensures
        run(m, failed_attempts(messages)).state == (RelayView {
            retries: (m.retries + messages.len()) as u32,
            ..m
        }),
        run(m, failed_attempts(messages)).actions == retry_actions(messages, m.retries as int),
    decreases messages.len(),
{
    if messages.len() > 0 {
        let failure = InputView::TransportFailed { message: messages[0] };
        let pair = seq![failure, InputView::BackoffElapsed];
        let rest = failed_attempts(messages.drop_first());
        lemma_step_cases(m, messages[0]);
        let failed = step_of(m, failure);
        lemma_step_cases(failed.state, messages[0]);
        let waited = step_of(failed.state, InputView::BackoffElapsed);
        assert(pair =~= seq![failure] + seq![InputView::BackoffElapsed]);
        lemma_run_one(m, failure);
        lemma_run_one(failed.state, InputView::BackoffElapsed);
        lemma_run_concat(m, seq![failure], seq![InputView::BackoffElapsed]);
        lemma_run_concat(m, pair, rest);
        lemma_failed_attempts(waited.state, messages.drop_first());
    }
}

proof fn lemma_count_concat(a: Seq<ActionView>, b: Seq<ActionView>)
    ensures
        connects(a + b) == connects(a) + connects(b),
        errors(a + b) == errors(a) + errors(b),
    decreases b.len(),
{
    if b.len() > 0 {
        assert((a + b).drop_last() =~= a + b.drop_last());
        lemma_count_concat(a, b.drop_last());
    }
}

proof fn lemma_count_three(x: ActionView, y: ActionView, z: ActionView)
    ensures
        connects(seq![x, y, z]) == connects(seq![x]) + connects(seq![y]) + connects(seq![z]),
        errors(seq![x, y, z]) == errors(seq![x]) + errors(seq![y]) + errors(seq![z]),
{
    assert(seq![x, y, z] =~= seq![x] + seq![y] + seq![z]);
    lemma_count_concat(seq![x] + seq![y], seq![z]);
    lemma_count_concat(seq![x], seq![y]);
}

proof fn lemma_count_one(x: ActionView)
    ensures
        connects(seq![x]) == if x is Connect {
            1nat
        } else {
            0nat
        },
        errors(seq![x]) == if x == named("error"@, x->Emit_0.data) {
            1nat
        } else {
            0nat
        },
{
    assert(connects(seq![x].drop_last()) == 0);
    assert(errors(seq![x].drop_last()) == 0);
}

proof fn lemma_retry_counts(messages: Seq<Seq<char>>, retries: int)
    ensures
        connects(retry_actions(messages, retries)) == messages.len(),
        errors(retry_actions(messages, retries)) == messages.len(),
    decreases messages.len(),
{
    if messages.len() > 0 {
        let x = named("error"@, messages[0]);
        let y = ActionView::Wait { seconds: backoff_seconds((retries + 1) as u32) };
        let z = ActionView::Connect;
        lemma_retry_counts(messages.drop_first(), retries + 1);
        lemma_count_concat(seq![x, y, z], retry_actions(messages.drop_first(), retries + 1));
        lemma_count_three(x, y, z);
        lemma_count_one(x);
        lemma_count_one(y);
        lemma_count_one(z);
    }
}

proof fn lemma_replay_counts(cache: Seq<Seq<char>>)
    ensures
        connects(replay(cache)) == 0,
        errors(replay(cache)) == 0,
    decreases cache.len(),
{
    if cache.len() > 0 {
        assert(replay(cache).drop_last() =~= replay(cache.drop_last()));
        lemma_replay_counts(cache.drop_last());
        reveal_strlit("replay");
        reveal_strlit("error");
        assert("replay"@.len() != "error"@.len());
    }
}

/// Where a relay has retries left for each of some failed attempts and the
/// attempt after them succeeds, it reports each failure as one error, makes
/// one new request for each, and then streams: the actions are those of the
/// retries, followed by the replay of what was sent before.
pub proof fn law_retries_then_success(m: RelayView, messages: Seq<Seq<char>>)
    requires
        !m.finished,
        m.status == RelayState::Attempting,
        m.retries == 0,
        messages.len() <= m.max_retries,
    ensures
        ({
            let outcome = run(m, failed_attempts(messages) + seq![InputView::Connected]);
            &&& streaming(outcome.state)
            &&& outcome.state.retries == messages.len()
            &&& outcome.actions == retry_actions(messages, 0) + replay(m.cache)
            &&& errors(outcome.actions) == messages.len()
            &&& connects(outcome.actions) == messages.len()
        }),
{
    lemma_failed_attempts(m, messages);
    lemma_run_concat(m, failed_attempts(messages), seq![InputView::Connected]);
    let retried = run(m, failed_attempts(messages));
    lemma_run_one(retried.state, InputView::Connected);
    lemma_step_cases(retried.state, Seq::empty());
    lemma_count_concat(retry_actions(messages, 0), replay(m.cache));
    lemma_retry_counts(messages, 0);
    lemma_replay_counts(m.cache);
}

/// Where every attempt fails, a relay makes as many new requests as it has
/// retries, no more: the failure after the last retry is reported as an
/// error like the others, and is followed by the stop for a transport error
/// and the end of the stream.
pub proof fn law_retry_budget(m: RelayView, messages: Seq<Seq<char>>, last: Seq<char>)
    requires
        !m.finished,
        m.status == RelayState::Attempting,
        m.retries == 0,
        messages.len() == m.max_retries,
    ensures
        ({
            let outcome = run(
                m,
                failed_attempts(messages) + seq![InputView::TransportFailed { message: last }],
            );
            &&& outcome.state.finished
            &&& outcome.state.status == RelayState::TransportError
            &&& outcome.actions == retry_actions(messages, 0) + seq![
                named("error"@, last),
                named("on_stop"@, "transport_error"@),
                ActionView::Close,
            ]
            &&& connects(outcome.actions) == m.max_retries
            &&& errors(outcome.actions) == m.max_retries + 1
        }),
{
    let failure = seq![InputView::TransportFailed { message: last }];
    let end = seq![
        named("error"@, last),
        named("on_stop"@, "transport_error"@),
        ActionView::Close,
    ];
    lemma_failed_attempts(m, messages);
    lemma_run_concat(m, failed_attempts(messages), failure);
    let retried = run(m, failed_attempts(messages));
    lemma_run_one(retried.state, InputView::TransportFailed { message: last });
    lemma_step_cases(retried.state, last);
    lemma_count_concat(retry_actions(messages, 0), end);
    lemma_retry_counts(messages, 0);
    lemma_count_three(end[0], end[1], end[2]);
    lemma_count_one(end[0]);
    lemma_count_one(end[1]);
    lemma_count_one(end[2]);
    reveal_strlit("on_stop");
    reveal_strlit("error");
    assert("on_stop"@.len() != "error"@.len());
}

/// The text that a line of a line-delimited stream of generation results
/// carries: its string member `response`, unless the line is marked as the
/// last one.
pub open spec fn generated_text(v: JsonValue) -> Option<Seq<char>> {
    if v.truth_member("done"@) == Some(true) {
        None
    } else {
        v.text_member("response"@)
    }
}

/// The text that a line carries; none for a blank line and for one that is
/// not a JSON document.
pub open spec fn line_text_of(line: Seq<char>) -> Option<Seq<char>> {
    if all_spaces(line) {
        None
    } else {
        match json_document(line) {
            Some(v) => generated_text(v),
            None => None,
        }
    }
}

/// The records for some lines: one with the text of each line that carries
/// text, in order.
pub open spec fn line_records(all: Seq<Seq<char>>) -> Seq<SseView>
    decreases all.len(),
{
    if all.len() == 0 {
        Seq::empty()
    } else {
        (match line_text_of(all[0]) {
            Some(t) => seq![SseView { event: None, data: t }],
            None => Seq::empty(),
        }) + line_records(all.drop_first())
    }
}

/// The views of a list of records.
pub open spec fn sse_views(events: Seq<SseEvent>) -> Seq<SseView> {
    events.map_values(|e: SseEvent| e@)
}

/// Executable [`generated_text`].
pub fn generated_text_of(v: &JsonValue) -> (r: Option<String>)
    ensures
        match r {
            Some(t) => Some(t@),
            None => None,
        } == generated_text(*v),
{
    let done = match v.get("done") {
        Some(d) => match d.as_bool() {
            Some(b) => b,
            None => false,
        },
        None => false,
    };
    if done {
        return None;
    }
    match v.get("response") {
        Some(t) => match t.as_str() {
            Some(text) => Some(text.to_owned()),
            None => None,
        },
        None => None,
    }
}

/// The record for one line of a line-delimited stream, if the line carries
/// text.
pub fn line_event(line: &str) -> (r: Option<SseEvent>)
    ensures
        match r {
            Some(e) => Some(e@),
            None => None,
        } == (match line_text_of(line@) {
            Some(t) => Some(SseView { event: None, data: t }),
            None => None,
        }),
{
    proof {
        lemma_trim_empty(line@);
    }
    if trim_chars(&chars_of(line)).len() == 0 {
        return None;
    }
    match parse_json(line) {
        Some(v) => match generated_text_of(&v) {
            Some(text) => Some(SseEvent::text(text)),
            None => None,
        },
        None => None,
    }
}

/// The records for a piece of a line-delimited stream.
pub fn chunk_events(chunk: &str) -> (out: Vec<SseEvent>)
    ensures
        sse_views(out@) == line_records(lines(chunk@)),
{
    let all = split_lines(chunk);
    let ghost items = string_views(all@);
    let mut out: Vec<SseEvent> = Vec::new();
    let mut i: usize = 0;
    assert(items.skip(0) =~= items);
    while i < all.len()
        invariant
            i <= all.len(),
            items == string_views(all@),
            sse_views(out@) + line_records(items.skip(i as int)) == line_records(items),
        decreases all.len() - i,
    {
        let ghost left = items.skip(i as int);
        assert(left.drop_first() =~= items.skip(i + 1));
        match line_event(all[i].as_str()) {
            Some(e) => {
                out.push(e);
            },
            None => {
            },
        }
        i += 1;
    }
    out
}

/// The record that reports a failure of the upstream stream.
pub fn stream_error_event(message: &str) -> (r: SseEvent)
    ensures
        r@ == (SseView { event: Some("error"@), data: "Stream error: "@ + message@ }),
{
    let mut data = "Stream error: ".to_owned();
    data.append(message);
    SseEvent::named("error", data)
}

/// Whether a step is what a relay may do: one that has ended does nothing,
/// and one that ends says so with its last action, and with no other.
pub open spec fn ends_with_close(m: RelayView, step: Step) -> bool {
    &&& m.finished ==> step == idle(m)
    &&& !m.finished && step.state.finished ==> step.actions.len() > 0 && step.actions.last()
        is Close
    &&& !step.state.finished ==> forall|i: int|
        0 <= i < step.actions.len() ==> !(#[trigger] step.actions[i] is Close)
    &&& forall|i: int|
        0 <= i < step.actions.len() - 1 ==> !(#[trigger] step.actions[i] is Close)
}

proof fn lemma_ui_chunks_end_with_close(m: RelayView, chunks: Seq<ChunkView>)
    ensures
        ends_with_close(m, on_ui_chunks_step(m, chunks)),
    decreases chunks.len(),
{
    if chunks.len() > 0 {
        let first = on_ui_chunk_step(m, chunks[0], rendered_chunk(chunks[0]));
        lemma_ui_chunks_end_with_close(first.state, chunks.drop_first());
    }
}


/// A relay that has ended does nothing more, whatever it is told. A step
/// that ends a relay asks to close the stream, once and as its last action;
/// no other step asks for that. So the stream is closed, and the session's
/// entry dropped, exactly when the relay reaches a last state.
pub proof fn law_close_marks_the_end(m: RelayView, input: InputView)
    ensures
        ends_with_close(m, step_of(m, input)),
{
    reveal(step_of);
    if let InputView::Data { payload, typed } = input {
        if streaming(m) && typed is None {
            lemma_ui_chunks_end_with_close(
                fed(m, payload),
                line_chunks(m.text_buffer, m.response_buffer, payload),
            );
        }
    }
}

} // verus!
