use gm::stop::{
    begin_stream, cancel_path, end_stream, record_request_id, stop, stop_requested, ChatSession, StopOutcome,
    StopRequest,
};
use gm::store::Store;

#[test]
fn a_stop_without_a_session_is_401() {
    let mut registry: Store<ChatSession> = Store::new();
    assert_eq!(
        stop(&mut registry, None),
        StopOutcome { status: 401, message: "no session", cancel_path: None }
    );
}

#[test]
fn a_stop_for_a_session_that_does_not_stream_is_404_every_time() {
    let mut registry: Store<ChatSession> = Store::new();
    record_request_id(&mut registry, "other", "r0");
    for _ in 0..2 {
        assert_eq!(
            stop(&mut registry, Some("s1")),
            StopOutcome { status: 404, message: "session not found", cancel_path: None }
        );
    }
    assert!(!registry.contains("s1"));
    assert!(!stop_requested(&registry, "other"));
}

#[test]
fn a_stop_sets_the_flag_and_names_the_request_to_cancel() {
    let mut registry: Store<ChatSession> = Store::new();
    record_request_id(&mut registry, "s1", "req-7");
    record_request_id(&mut registry, "s2", "req-8");
    assert!(!stop_requested(&registry, "s1"));
    let request = StopRequest { session_id: "s1".to_string() };
    assert_eq!(
        stop(&mut registry, Some(&request.session_id)),
        StopOutcome {
            status: 200,
            message: "stopped",
            cancel_path: Some("/agent/chat/cancel/req-7".to_string()),
        }
    );
    assert!(stop_requested(&registry, "s1"));
    assert!(!stop_requested(&registry, "s2"));
    assert_eq!(registry.get("s1").unwrap().request_id.as_deref(), Some("req-7"));
}

#[test]
fn a_stop_before_any_request_is_known_cancels_nothing_upstream() {
    let mut registry: Store<ChatSession> = Store::new();
    registry.upsert("s1", ChatSession { request_id: None, stop_requested: false });
    assert_eq!(
        stop(&mut registry, Some("s1")),
        StopOutcome { status: 200, message: "stopped", cancel_path: None }
    );
    assert!(stop_requested(&registry, "s1"));
}

#[test]
fn a_new_request_identifier_keeps_the_flag() {
    let mut registry: Store<ChatSession> = Store::new();
    record_request_id(&mut registry, "s1", "r1");
    stop(&mut registry, Some("s1"));
    record_request_id(&mut registry, "s1", "r2");
    assert_eq!(
        registry.get("s1"),
        Some(&ChatSession { request_id: Some("r2".to_string()), stop_requested: true })
    );
}

#[test]
fn the_entry_goes_when_the_stream_ends() {
    let mut registry: Store<ChatSession> = Store::new();
    record_request_id(&mut registry, "s1", "r1");
    end_stream(&mut registry, "s1");
    end_stream(&mut registry, "s1");
    assert!(!registry.contains("s1"));
    assert!(!stop_requested(&registry, "s1"));
    assert_eq!(stop(&mut registry, Some("s1")).status, 404);
}

#[test]
fn the_cancel_path_ends_with_the_request_identifier() {
    assert_eq!(cancel_path("abc"), "/agent/chat/cancel/abc");
    assert_eq!(cancel_path(""), "/agent/chat/cancel/");
}

#[test]
fn a_stream_that_starts_can_be_stopped_before_any_event() {
    let mut registry: Store<ChatSession> = Store::new();
    begin_stream(&mut registry, "s1");
    assert_eq!(
        registry.get("s1"),
        Some(&ChatSession { request_id: None, stop_requested: false })
    );
    assert_eq!(stop(&mut registry, Some("s1")).status, 200);
    assert!(stop_requested(&registry, "s1"));
    record_request_id(&mut registry, "s1", "r1");
    begin_stream(&mut registry, "s1");
    assert_eq!(
        registry.get("s1"),
        Some(&ChatSession { request_id: None, stop_requested: false })
    );
}
