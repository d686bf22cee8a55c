use gm::components::chat::{
    append_or_create_llm_message, may_submit, extend_last_llm_message, extract_objects_html,
    process_sse_event, Message, MessageRole, SseReader, SseRecord,
};
use gm::json::parse_json;

fn message(id: &str, role: MessageRole, content: &str) -> Message {
    Message { id: id.to_string(), role, content: content.to_string() }
}

fn record(event: Option<&str>, data: &str) -> SseRecord {
    SseRecord { event: event.map(String::from), data: data.to_string() }
}

#[test]
fn roles_have_names_and_styles() {
    assert_eq!(MessageRole::User.css_class(), "message user");
    assert_eq!(MessageRole::Llm.css_class(), "message bot");
    assert_eq!(MessageRole::System.css_class(), "message system");
    assert_eq!(MessageRole::Error.css_class(), "message error");
    assert_eq!(MessageRole::User.as_str(), "user");
    assert_eq!(MessageRole::Llm.as_str(), "llm");
    assert_eq!(MessageRole::System.as_str(), "system");
    assert_eq!(MessageRole::Error.as_str(), "error");
    assert_eq!(
        Message::new("1".to_string(), MessageRole::User, "hi".to_string()),
        message("1", MessageRole::User, "hi")
    );
}

#[test]
fn text_goes_to_the_answer_that_is_being_written() {
    let mut history = vec![message("1", MessageRole::User, "hi")];
    append_or_create_llm_message(&mut history, "Hel".to_string(), "2".to_string());
    append_or_create_llm_message(&mut history, "lo".to_string(), "3".to_string());
    assert_eq!(
        history,
        vec![message("1", MessageRole::User, "hi"), message("2", MessageRole::Llm, "Hello")]
    );
    let mut empty = Vec::new();
    append_or_create_llm_message(&mut empty, "x".to_string(), "9".to_string());
    assert_eq!(empty, vec![message("9", MessageRole::Llm, "x")]);
    assert!(extend_last_llm_message(&mut empty, "y"));
    assert_eq!(empty, vec![message("9", MessageRole::Llm, "xy")]);
    let mut other = vec![message("1", MessageRole::System, "s")];
    assert!(!extend_last_llm_message(&mut other, "y"));
    assert_eq!(other, vec![message("1", MessageRole::System, "s")]);
    assert!(!extend_last_llm_message(&mut Vec::new(), "y"));
}

#[test]
fn objects_are_shown_as_a_list() {
    let doc = parse_json(
        r#"{"objects": [[["name", "cup"], ["size", 3], ["only"], {"url": "http://x/i.png"}, {"other": 1}, 5], "skipped", []]}"#,
    )
    .unwrap();
    assert_eq!(
        extract_objects_html(&doc),
        Some(
            "<ul><li><strong>name:</strong> \"cup\"</li><li><strong>size:</strong> 3</li><li><img src=\"http://x/i.png\"/></li></ul>"
                .to_string()
        )
    );
    let doc = parse_json(r#"{"objects": [[[1, {"a": [true, null]}, "more"]]]}"#).unwrap();
    assert_eq!(
        extract_objects_html(&doc),
        Some("<ul><li><strong>:</strong> {\"a\":[true,null]}</li></ul>".to_string())
    );
    assert_eq!(extract_objects_html(&parse_json(r#"{"objects": []}"#).unwrap()), Some("<ul></ul>".to_string()));
    assert_eq!(extract_objects_html(&parse_json(r#"{"objects": {}}"#).unwrap()), None);
    assert_eq!(extract_objects_html(&parse_json(r#"{"text": "x"}"#).unwrap()), None);
    assert_eq!(extract_objects_html(&parse_json("[]").unwrap()), None);
}

#[test]
fn text_records_extend_the_history() {
    let mut history = Vec::new();
    for event in [None, Some("chunk"), Some("replay")] {
        assert!(!process_sse_event(event, "ab", &mut history, "1".to_string()));
    }
    assert_eq!(history, vec![message("1", MessageRole::Llm, "ababab")]);
    assert!(!process_sse_event(None, "", &mut history, "2".to_string()));
    let mut empty = Vec::new();
    assert!(!process_sse_event(Some("chunk"), "", &mut empty, "2".to_string()));
    assert_eq!(empty, vec![]);
}

#[test]
fn a_json_record_adds_its_objects_to_the_answer() {
    let mut history = vec![message("1", MessageRole::Llm, "See: ")];
    let data = r#"{"objects": [[["k", "v"]]]}"#;
    assert!(!process_sse_event(Some("json"), data, &mut history, "2".to_string()));
    assert_eq!(
        history,
        vec![message("1", MessageRole::Llm, "See: <ul><li><strong>k:</strong> \"v\"</li></ul>")]
    );
    assert!(!process_sse_event(Some("json"), "{broken", &mut history, "2".to_string()));
    assert!(!process_sse_event(Some("json"), r#"{"text": "t"}"#, &mut history, "2".to_string()));
    assert_eq!(history.len(), 1);
    let mut user_last = vec![message("1", MessageRole::User, "q")];
    assert!(!process_sse_event(Some("json"), data, &mut user_last, "2".to_string()));
    assert_eq!(user_last, vec![message("1", MessageRole::User, "q")]);
}

#[test]
fn the_answer_ends_on_complete_stop_and_error() {
    let mut history = vec![message("1", MessageRole::Llm, "a")];
    assert!(process_sse_event(Some("on_complete"), "", &mut history, "2".to_string()));
    assert_eq!(history.len(), 1);
    assert!(process_sse_event(Some("on_stop"), "max_tokens", &mut history, "3".to_string()));
    assert!(process_sse_event(Some("error"), "boom", &mut history, "4".to_string()));
    assert_eq!(
        history,
        vec![
            message("1", MessageRole::Llm, "a"),
            message("3", MessageRole::System, "<i>⏹ Chat stopped: max_tokens</i>"),
            message("4", MessageRole::Error, "❌ boom"),
        ]
    );
    assert!(!process_sse_event(Some("started"), "r1", &mut history, "5".to_string()));
    assert!(!process_sse_event(Some(""), "x", &mut history, "5".to_string()));
    assert_eq!(history.len(), 3);
}

#[test]
fn the_reader_pairs_event_names_with_data() {
    let mut reader = SseReader::new();
    assert_eq!(reader.feed("event: started\ndata: r1\n\ndata: Hel"), vec![record(Some("started"), "r1")]);
    assert_eq!(reader.buffer, "data: Hel");
    assert_eq!(reader.current_event, None);
    assert_eq!(reader.feed("lo\n"), vec![record(None, "Hello")]);
    assert_eq!(reader.feed("event: on_stop\n"), vec![]);
    assert_eq!(reader.current_event.as_deref(), Some("on_stop"));
    assert_eq!(reader.feed("\n: ping\n  data: max_tokens  \r\ndata: x\n"), vec![
        record(Some("on_stop"), "max_tokens"),
        record(None, "x"),
    ]);
    assert_eq!(reader.buffer, "");
}

#[test]
fn the_reader_trims_lines_and_skips_the_rest() {
    let mut reader = SseReader::new();
    assert_eq!(reader.feed("data:\ndata: \ndata:  a\nevent:x\nevent: \nid: 1\n"), vec![record(None, " a")]);
    assert_eq!(reader.current_event, None);
    assert_eq!(reader.feed("event: a\nevent: b\ndata: 1\ndata: 2\n"), vec![
        record(Some("b"), "1"),
        record(None, "2"),
    ]);
    assert_eq!(reader.feed(""), vec![]);
    assert_eq!(reader.feed("data: Grüße"), vec![]);
    assert_eq!(reader.feed(" 世界\n"), vec![record(None, "Grüße 世界")]);
}

#[test]
fn a_prompt_is_sent_when_it_says_something_and_nothing_is_running() {
    assert!(may_submit("hi", false));
    assert!(may_submit("  hi \n", false));
    assert!(!may_submit("hi", true));
    assert!(!may_submit("", false));
    assert!(!may_submit(" \t\n\u{a0}", false));
    assert!(!may_submit("", true));
}
