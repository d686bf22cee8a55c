use gm::events::{transcode, transcode_with, SseEvent, StreamEvent};
use gm::json::{parse_json, JsonValue};

fn named(event: &str, data: &str) -> Option<SseEvent> {
    Some(SseEvent { event: Some(event.to_string()), data: data.to_string() })
}

#[test]
fn the_request_identifier_of_an_event() {
    let e = StreamEvent::Cancelled { request_id: "r-42".to_string(), reason: "user".to_string() };
    assert_eq!(e.request_id(), "r-42");
    let e = StreamEvent::ObjectTree { request_id: "r-43".to_string(), data: JsonValue::Null };
    assert_eq!(e.request_id(), "r-43");
    let e = StreamEvent::Started { request_id: "r-44".to_string(), timestamp: 1 };
    assert_eq!(e.clone(), e);
}

#[test]
fn each_event_goes_out_under_its_name() {
    let id = || "r1".to_string();
    assert_eq!(transcode(&StreamEvent::Started { request_id: id(), timestamp: 1 }), named("started", "r1"));
    assert_eq!(
        transcode(&StreamEvent::Progress { request_id: id(), message: "m".to_string() }),
        named("coordinator_thinking", "m")
    );
    assert_eq!(
        transcode(&StreamEvent::ObjectTree { request_id: id(), data: parse_json("{\"a\": [1, 2]}").unwrap() }),
        named("object_chunk", "{\"a\":[1,2]}")
    );
    assert_eq!(
        transcode(&StreamEvent::ReportList { request_id: id(), data: JsonValue::Null }),
        named("document_chunk", "null")
    );
    assert_eq!(
        transcode(&StreamEvent::Description { request_id: id(), data: JsonValue::String("d".into()) }),
        named("description_chunk", "\"d\"")
    );
    assert_eq!(
        transcode(&StreamEvent::Comparison { request_id: id(), data: JsonValue::Bool(true) }),
        named("comparison_chunk", "true")
    );
    assert_eq!(
        transcode(&StreamEvent::TextChunk { request_id: id(), chunk: "Hi".to_string() }),
        Some(SseEvent { event: None, data: "Hi".to_string() })
    );
    assert_eq!(
        transcode(&StreamEvent::Completed { request_id: id(), final_result: "fin".to_string(), timestamp: 2 }),
        named("completed", "fin")
    );
    assert_eq!(
        transcode(&StreamEvent::Error { request_id: id(), error: "boom".to_string(), recoverable: true }),
        named("error", "boom")
    );
    assert_eq!(
        transcode(&StreamEvent::Cancelled { request_id: id(), reason: "why".to_string() }),
        named("cancelled", "why")
    );
}

#[test]
fn a_payload_that_could_not_be_written_gives_no_record() {
    let tree = StreamEvent::ObjectTree { request_id: "r".to_string(), data: JsonValue::Null };
    assert_eq!(transcode_with(&tree, None), None);
    assert_eq!(transcode_with(&tree, Some("[]".to_string())), named("object_chunk", "[]"));
    let text = StreamEvent::TextChunk { request_id: "r".to_string(), chunk: "c".to_string() };
    assert_eq!(transcode_with(&text, None), Some(SseEvent::text("c".to_string())));
    assert_eq!(SseEvent::named("e", "d".to_string()), named("e", "d").unwrap());
    let broken = StreamEvent::ObjectTree {
        request_id: "r".to_string(),
        data: JsonValue::Array(vec![JsonValue::Number("1x".to_string())]),
    };
    assert_eq!(transcode(&broken), None);
}
