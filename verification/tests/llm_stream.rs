use gm::events::{SseEvent, StreamEvent};
use gm::json::JsonValue;
use gm::llm_stream::{
    chunk_events, generated_text_of, line_event, stream_error_event, Pause, PromptRequest, Relay,
    RelayAction, RelayInput, RelayState, KEEP_ALIVE_SECS, MAX_RETRIES, POLL_MILLIS,
};

fn named(event: &str, data: &str) -> RelayAction {
    RelayAction::Emit(SseEvent { event: Some(event.to_string()), data: data.to_string() })
}

fn plain(data: &str) -> RelayAction {
    RelayAction::Emit(SseEvent { event: None, data: data.to_string() })
}

fn publish(id: &str) -> RelayAction {
    RelayAction::RecordRequestId(id.to_string())
}

fn streaming(max_tokens: u64) -> Relay {
    let mut relay = Relay::new(60_000, max_tokens, 3);
    assert_eq!(relay.step(RelayInput::Connected), vec![]);
    relay
}

fn failed(message: &str) -> RelayInput {
    RelayInput::TransportFailed { message: message.to_string() }
}

fn chunk(text: &str) -> RelayInput {
    RelayInput::Chunk(text.to_string())
}

fn typed(event: StreamEvent) -> RelayInput {
    RelayInput::Data { payload: "{}".to_string(), typed: Some(event) }
}

fn untyped(payload: &str) -> RelayInput {
    RelayInput::Data { payload: payload.to_string(), typed: None }
}

fn decode(payload: &str) -> RelayAction {
    RelayAction::Decode(payload.to_string())
}

fn text_chunk(id: &str, chunk: &str) -> StreamEvent {
    StreamEvent::TextChunk { request_id: id.to_string(), chunk: chunk.to_string() }
}

fn errors(actions: &[RelayAction]) -> usize {
    actions
        .iter()
        .filter(|a| matches!(a, RelayAction::Emit(e) if e.event.as_deref() == Some("error")))
        .count()
}

#[test]
fn a_new_relay_attempts() {
    let relay = Relay::new(60_000, 100, 3);
    assert_eq!(relay.status, RelayState::Attempting);
    assert!(!relay.finished);
    assert!(!relay.is_streaming());
    assert_eq!(relay.retries, 0);
    assert_eq!(relay.deadline, 60_000);
    assert!(!relay.timed_out(59_999));
    assert!(relay.timed_out(60_000));
    assert_eq!(PromptRequest { prompt: "hi".to_string() }.prompt, "hi");
}

#[test]
fn three_failures_then_success_give_three_errors() {
    let mut relay = Relay::new(60_000, 100, 3);
    let mut all = Vec::new();
    for (n, wait) in [(1u32, 2u64), (2, 4), (3, 8)] {
        let out = relay.step(failed("refused"));
        assert_eq!(out, vec![named("error", "refused"), RelayAction::Wait { seconds: wait }]);
        assert_eq!(relay.status, RelayState::TransportError);
        assert_eq!(relay.retries, n);
        assert!(!relay.finished);
        all.extend(out);
        let out = relay.step(RelayInput::BackoffElapsed);
        assert_eq!(out, vec![RelayAction::Connect]);
        assert_eq!(relay.status, RelayState::Attempting);
        all.extend(out);
    }
    all.extend(relay.step(RelayInput::Connected));
    assert!(relay.is_streaming());
    assert_eq!(errors(&all), 3);
    assert_eq!(all.iter().filter(|a| **a == RelayAction::Connect).count(), 3);
    let content = relay.step(typed(text_chunk("r", "ok")));
    assert_eq!(content, vec![publish("r"), plain("ok")]);
}

#[test]
fn a_transport_that_always_fails_is_retried_as_often_as_allowed() {
    let mut relay = Relay::new(60_000, 100, 3);
    let mut all = Vec::new();
    for _ in 0..3 {
        all.extend(relay.step(failed("down")));
        all.extend(relay.step(RelayInput::BackoffElapsed));
    }
    let last = relay.step(failed("down"));
    assert_eq!(
        last,
        vec![named("error", "down"), named("on_stop", "transport_error"), RelayAction::Close]
    );
    all.extend(last);
    assert_eq!(all.iter().filter(|a| **a == RelayAction::Connect).count(), 3);
    assert_eq!(all.iter().filter(|a| matches!(a, RelayAction::Wait { .. })).count(), 3);
    assert_eq!(errors(&all), 4);
    assert_eq!(all.last(), Some(&RelayAction::Close));
    assert_eq!(relay.status, RelayState::TransportError);
    assert!(relay.finished);
    assert_eq!(relay.step(RelayInput::BackoffElapsed), vec![]);
    assert_eq!(relay.step(failed("again")), vec![]);
    assert_eq!(relay.step(RelayInput::Connected), vec![]);
}

#[test]
fn without_retries_the_first_failure_is_the_last() {
    let mut relay = Relay::new(60_000, 100, 0);
    assert_eq!(
        relay.step(failed("down")),
        vec![named("error", "down"), named("on_stop", "transport_error"), RelayAction::Close]
    );
    assert!(relay.finished);
}

#[test]
fn the_wait_doubles_with_every_retry() {
    assert_eq!(Relay::backoff(0), 1);
    assert_eq!(Relay::backoff(1), 2);
    assert_eq!(Relay::backoff(2), 4);
    assert_eq!(Relay::backoff(3), 8);
    assert_eq!(Relay::backoff(10), 1024);
    assert_eq!(Relay::backoff(63), 1u64 << 63);
    assert_eq!(Relay::backoff(64), u64::MAX);
    assert_eq!(Relay::backoff(1000), u64::MAX);
}

#[test]
fn a_rejection_is_final() {
    let mut relay = Relay::new(60_000, 100, 3);
    assert_eq!(
        relay.step(RelayInput::Rejected { body: "403 no".to_string() }),
        vec![named("error", "403 no"), RelayAction::Close]
    );
    assert_eq!(relay.status, RelayState::Failed);
    assert!(relay.finished);
    assert_eq!(relay.retries, 0);
    assert_eq!(relay.step(RelayInput::BackoffElapsed), vec![]);
}

#[test]
fn the_stream_stops_right_after_the_chunk_that_reaches_the_budget() {
    let mut relay = streaming(5);
    assert_eq!(relay.on_text("one two"), vec![plain("one two")]);
    assert_eq!(relay.words, 2);
    assert_eq!(relay.on_text(" three  "), vec![plain(" three  ")]);
    assert_eq!(relay.words, 3);
    assert_eq!(
        relay.on_text("four five six seven"),
        vec![plain("four five six seven"), named("on_stop", "max_tokens"), RelayAction::Close]
    );
    assert_eq!(relay.words, 7);
    assert_eq!(relay.status, RelayState::MaxTokensReached);
    assert!(relay.finished);
    assert_eq!(relay.on_text("more"), vec![]);
    assert_eq!(relay.words, 7);
}

#[test]
fn reaching_the_budget_exactly_stops_too() {
    let mut relay = streaming(3);
    assert_eq!(relay.on_text("a b"), vec![plain("a b")]);
    assert_eq!(
        relay.on_text("c"),
        vec![plain("c"), named("on_stop", "max_tokens"), RelayAction::Close]
    );
}

#[test]
fn text_without_words_costs_nothing() {
    let mut relay = streaming(1);
    assert_eq!(relay.on_text("  \n"), vec![plain("  \n")]);
    assert_eq!(relay.on_text(""), vec![plain("")]);
    assert_eq!(relay.words, 0);
    assert!(relay.is_streaming());
}

#[test]
fn the_budget_cuts_the_stream_short() {
    let mut relay = streaming(2);
    let mut out = relay.step(typed(text_chunk("r", "one")));
    out.extend(relay.step(typed(text_chunk("r", "two three"))));
    out.extend(relay.step(typed(text_chunk("r", "four"))));
    assert_eq!(
        out,
        vec![
            publish("r"),
            plain("one"),
            publish("r"),
            plain("two three"),
            named("on_stop", "max_tokens"),
            RelayAction::Close,
        ]
    );
    assert_eq!(relay.status, RelayState::MaxTokensReached);
}

#[test]
fn a_piece_of_the_stream_hands_out_its_payloads() {
    let mut relay = streaming(100);
    assert_eq!(
        relay.step(chunk("event: x\ndata: {\"a\":1}\n\ndata: second\r\n\ndata: thi")),
        vec![decode("{\"a\":1}"), decode("second")]
    );
    assert_eq!(relay.pending, "data: thi");
    assert_eq!(relay.step(chunk("rd\n\n")), vec![decode("third")]);
    assert_eq!(relay.pending, "");
    assert_eq!(relay.step(chunk("\n\n: ping\n\n")), vec![]);
    assert!(relay.is_streaming());
    assert_eq!(relay.words, 0);
}

#[test]
fn typed_events_are_passed_on_and_publish_their_request() {
    let mut relay = streaming(100);
    let id = || "r1".to_string();
    let mut out = relay.step(typed(StreamEvent::Started { request_id: id(), timestamp: 1 }));
    out.extend(relay.step(typed(StreamEvent::Progress { request_id: id(), message: "m".to_string() })));
    out.extend(relay.step(typed(StreamEvent::ObjectTree {
        request_id: id(),
        data: JsonValue::Object(vec![("k".to_string(), JsonValue::Number("1".to_string()))]),
    })));
    out.extend(relay.step(typed(StreamEvent::Description {
        request_id: id(),
        data: JsonValue::String("d".to_string()),
    })));
    assert_eq!(
        out,
        vec![
            publish("r1"),
            named("started", "r1"),
            publish("r1"),
            named("coordinator_thinking", "m"),
            publish("r1"),
            named("object_chunk", "{\"k\":1}"),
            publish("r1"),
            named("description_chunk", "\"d\""),
        ]
    );
    assert!(relay.is_streaming());
    assert_eq!(relay.cache, Vec::<String>::new());
}

#[test]
fn a_completed_event_ends_the_stream() {
    let mut relay = streaming(100);
    let out = relay.step(typed(StreamEvent::Completed {
        request_id: "r1".to_string(),
        final_result: "fin".to_string(),
        timestamp: 2,
    }));
    assert_eq!(
        out,
        vec![publish("r1"), named("completed", "fin"), named("on_complete", ""), RelayAction::Close]
    );
    assert_eq!(relay.status, RelayState::Complete);
    assert!(relay.finished);
    assert_eq!(relay.step(typed(text_chunk("r1", "late"))), vec![]);
    assert_eq!(relay.step(chunk("data: x\n\n")), vec![]);
}

#[test]
fn a_cancelled_event_and_a_fatal_error_end_the_stream() {
    let mut relay = streaming(100);
    let e = StreamEvent::Cancelled { request_id: "r".to_string(), reason: "user".to_string() };
    assert_eq!(relay.on_event(&e), vec![publish("r"), named("cancelled", "user"), RelayAction::Close]);
    assert_eq!(relay.status, RelayState::Stopped);

    let mut relay = streaming(100);
    for recoverable in [false, true] {
        let mut relay = streaming(100);
        let e = StreamEvent::Error { request_id: "r".to_string(), error: "bad".to_string(), recoverable };
        assert_eq!(relay.on_event(&e), vec![publish("r"), named("error", "bad"), RelayAction::Close]);
        assert_eq!(relay.status, RelayState::Failed);
        assert!(relay.finished);
        assert_eq!(relay.on_event(&e), vec![]);
    }
}

#[test]
fn the_older_wire_format_goes_through_the_assembler() {
    let mut relay = streaming(100);
    let out = relay.step(untyped("{\"response\":\"{ \\\"text\\\": \\\"Hel\",\"done\":false}"));
    assert_eq!(out, vec![plain("Hel")]);
    let mut out = relay.step(untyped("{\"response\":\"lo you\\\"}\",\"done\":true}"));
    out.extend(relay.step(untyped("not json")));
    assert_eq!(out, vec![plain("lo you"), named("json", "{\"text\":\"Hello you\"}")]);
    assert_eq!(relay.words, 3);
    assert_eq!(relay.cache, vec!["Hel".to_string(), "lo you".to_string()]);
    assert!(relay.is_streaming());
}

#[test]
fn a_record_may_arrive_in_pieces() {
    let mut relay = streaming(100);
    assert_eq!(relay.step(chunk("data: {\"type\":\"text_chunk\",")), vec![]);
    assert_eq!(relay.pending, "data: {\"type\":\"text_chunk\",");
    assert_eq!(relay.step(chunk("\"chunk\":\"a b\"}\n")), vec![]);
    assert_eq!(
        relay.step(chunk("\ndata: x")),
        vec![decode("{\"type\":\"text_chunk\",\"chunk\":\"a b\"}")]
    );
    assert_eq!(relay.pending, "data: x");
    assert_eq!(relay.on_chunk("\n\n"), vec![decode("x")]);
    assert_eq!(relay.pending, "");
    assert_eq!(relay.on_data("ignored", Some(text_chunk("q", "c d"))), vec![publish("q"), plain("c d")]);
    assert_eq!(relay.words, 2);
}

#[test]
fn a_retry_replays_what_was_sent() {
    let mut relay = streaming(100);
    relay.on_text("Hello ");
    relay.on_text("world");
    relay.step(chunk("data: {\"resp"));
    assert_eq!(
        relay.step(failed("reset")),
        vec![named("error", "reset"), RelayAction::Wait { seconds: 2 }]
    );
    assert_eq!(relay.step(chunk("data: x\n\n")), vec![]);
    assert_eq!(relay.step(untyped("{\"response\":\"x\"}")), vec![]);
    assert_eq!(relay.step(RelayInput::UpstreamEnded), vec![]);
    assert_eq!(relay.step(RelayInput::BackoffElapsed), vec![RelayAction::Connect]);
    assert_eq!(
        relay.step(RelayInput::Connected),
        vec![named("replay", "Hello "), named("replay", "world")]
    );
    assert_eq!(relay.pending, "");
    assert_eq!(relay.words, 2);
    assert_eq!(relay.deadline, 60_000);
    assert!(relay.is_streaming());
}

#[test]
fn the_end_of_the_upstream_completes_the_stream() {
    let mut relay = streaming(100);
    assert_eq!(
        relay.step(RelayInput::UpstreamEnded),
        vec![named("on_complete", ""), RelayAction::Close]
    );
    assert_eq!(relay.status, RelayState::Complete);
    assert_eq!(relay.step(RelayInput::UpstreamEnded), vec![]);
    assert_eq!(relay.step(RelayInput::StopRequested), vec![]);
}

#[test]
fn the_clock_and_the_user_stop_a_relay_in_any_state() {
    let mut relay = Relay::new(60_000, 100, 3);
    assert_eq!(
        relay.step(RelayInput::DeadlineReached),
        vec![named("on_stop", "timeout"), RelayAction::Close]
    );
    assert_eq!(relay.status, RelayState::TimedOut);

    let mut relay = streaming(100);
    assert_eq!(
        relay.step(RelayInput::StopRequested),
        vec![named("on_stop", "stopped"), RelayAction::Close]
    );
    assert_eq!(relay.status, RelayState::Stopped);
    assert_eq!(relay.step(RelayInput::DeadlineReached), vec![]);

    let mut relay = Relay::new(60_000, 100, 3);
    relay.step(failed("x"));
    assert_eq!(
        relay.step(RelayInput::StopRequested),
        vec![named("on_stop", "stopped"), RelayAction::Close]
    );
    assert_eq!(relay.step(RelayInput::BackoffElapsed), vec![]);
}

#[test]
fn inputs_that_do_not_fit_the_state_are_ignored() {
    let mut relay = Relay::new(60_000, 100, 3);
    assert_eq!(relay.step(chunk("data: x\n\n")), vec![]);
    assert_eq!(relay.step(RelayInput::UpstreamEnded), vec![]);
    assert_eq!(relay.step(RelayInput::BackoffElapsed), vec![]);
    assert_eq!(relay.status, RelayState::Attempting);
    let mut relay = streaming(100);
    assert_eq!(relay.step(RelayInput::Connected), vec![]);
    assert_eq!(relay.step(RelayInput::Rejected { body: "x".to_string() }), vec![]);
    assert!(relay.is_streaming());
}

#[test]
fn lines_of_generation_results_become_records() {
    let text = |s: &str| SseEvent { event: None, data: s.to_string() };
    assert_eq!(
        chunk_events("{\"response\":\"Hel\",\"done\":false}\n{\"response\":\"lo\"}\n"),
        vec![text("Hel"), text("lo")]
    );
    assert_eq!(
        chunk_events("\n   \n{\"response\":\"a\",\"done\":true}\nnot json\r\n{\"response\":7}\n{\"done\":false}"),
        vec![]
    );
    assert_eq!(chunk_events("{\"response\":\"\",\"done\":\"true\"}"), vec![text("")]);
    assert_eq!(chunk_events(""), vec![]);
    assert_eq!(line_event("{\"response\":\"x\"}"), Some(text("x")));
    assert_eq!(line_event("  "), None);
    let value = JsonValue::Object(vec![
        ("response".to_string(), JsonValue::String("t".to_string())),
        ("done".to_string(), JsonValue::Bool(false)),
    ]);
    assert_eq!(generated_text_of(&value), Some("t".to_string()));
    assert_eq!(generated_text_of(&JsonValue::Null), None);
    assert_eq!(
        stream_error_event("reset by peer"),
        SseEvent { event: Some("error".to_string()), data: "Stream error: reset by peer".to_string() }
    );
}

#[test]
fn the_deadline_is_set_when_the_relay_starts() {
    let relay = Relay::start(1_000, 120_000, 50, MAX_RETRIES);
    assert_eq!(relay.deadline, 121_000);
    assert_eq!(relay.max_retries, 3);
    assert_eq!(relay.max_tokens, 50);
    assert_eq!(relay.status, RelayState::Attempting);
    assert_eq!(Relay::start(u64::MAX - 5, 10, 1, 0).deadline, u64::MAX);
    assert_eq!(Relay::start(0, 0, 1, 0).deadline, 0);
    assert_eq!(KEEP_ALIVE_SECS, 15);
}

#[test]
fn a_stop_comes_before_the_deadline_and_both_before_reading() {
    let relay = Relay::new(1_000, 10, 3);
    assert_eq!(relay.next_input(false, 999), None);
    assert_eq!(relay.next_input(false, 1_000), Some(RelayInput::DeadlineReached));
    assert_eq!(relay.next_input(true, 999), Some(RelayInput::StopRequested));
    assert_eq!(relay.next_input(true, 5_000), Some(RelayInput::StopRequested));
    assert_eq!(relay.millis_left(0), 1_000);
    assert_eq!(relay.millis_left(1_000), 0);
    assert_eq!(relay.millis_left(2_000), 0);
}

#[test]
fn a_wait_ends_at_the_deadline_at_the_latest() {
    let relay = Relay::new(10_000, 10, 3);
    assert_eq!(
        relay.pause_before_retry(2, 1_000),
        Pause { millis: 2_000, input: RelayInput::BackoffElapsed }
    );
    assert_eq!(
        relay.pause_before_retry(8, 1_999),
        Pause { millis: 8_000, input: RelayInput::BackoffElapsed }
    );
    assert_eq!(
        relay.pause_before_retry(8, 2_000),
        Pause { millis: 8_000, input: RelayInput::DeadlineReached }
    );
    assert_eq!(
        relay.pause_before_retry(u64::MAX, 9_999),
        Pause { millis: 1, input: RelayInput::DeadlineReached }
    );
    assert_eq!(
        relay.pause_before_retry(0, 20_000),
        Pause { millis: 0, input: RelayInput::DeadlineReached }
    );
    assert_eq!(
        relay.pause_before_retry(0, 5),
        Pause { millis: 0, input: RelayInput::BackoffElapsed }
    );
    assert_eq!(POLL_MILLIS, 250);
    assert_eq!(relay.poll_millis(0), 250);
    assert_eq!(relay.poll_millis(9_750), 250);
    assert_eq!(relay.poll_millis(9_751), 249);
    assert_eq!(relay.poll_millis(10_000), 0);
}
