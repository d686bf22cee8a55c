use gm::chunk_assembler::{ChunkAssembler, UiChunk};
use gm::json::JsonValue;

#[test]
fn extract_text_from_incomplete_json() {
    let mut a = ChunkAssembler::new();
    a.response_buffer = r#"{ "text": "Hello"#.to_string();
    assert_eq!(a.extract_text_from_buffer(), Some("Hello".to_string()));
}

#[test]
fn streams_text_incrementally() {
    let mut a = ChunkAssembler::new();

    let chunks1 = a.push_sse_line(r#"{"response":"{ \"text\": \"H","done":false}"#);
    assert_eq!(chunks1.len(), 1);
    assert!(matches!(&chunks1[0], UiChunk::Text(t) if t == "H"));

    let chunks2 = a.push_sse_line(r#"{"response":"ello","done":false}"#);
    assert_eq!(chunks2.len(), 1);
    assert!(matches!(&chunks2[0], UiChunk::Text(t) if t == "ello"));
}

#[test]
fn handles_escape_sequences() {
    let mut a = ChunkAssembler::new();
    a.response_buffer = r#"{ "text": "line1\nline2"#.to_string();
    let text = a.extract_text_from_buffer().unwrap();
    assert_eq!(text, "line1\nline2");
}

#[test]
fn decodes_every_known_escape_of_an_unterminated_value() {
    let mut a = ChunkAssembler::new();
    a.response_buffer = r#"{"text": "a\nb\tc\\d\"e"#.to_string();
    assert_eq!(a.extract_text_from_buffer(), Some("a\nb\tc\\d\"e".to_string()));
}

#[test]
fn keeps_an_unknown_escape_as_written() {
    let mut a = ChunkAssembler::new();
    a.response_buffer = r#"{"text": "a\qb\rc"#.to_string();
    assert_eq!(a.extract_text_from_buffer(), Some("a\\qb\rc".to_string()));
}

#[test]
fn a_backslash_at_the_end_waits_for_its_character() {
    let mut a = ChunkAssembler::new();
    a.response_buffer = "{\"text\": \"ab\\".to_string();
    assert_eq!(a.extract_text_from_buffer(), Some("ab".to_string()));
    a.response_buffer.push('n');
    assert_eq!(a.extract_text_from_buffer(), Some("ab\n".to_string()));
}

#[test]
fn stops_at_the_closing_quote() {
    let mut a = ChunkAssembler::new();
    a.response_buffer = r#"{"text": "done", "other": "x"}"#.to_string();
    assert_eq!(a.extract_text_from_buffer(), Some("done".to_string()));
}

#[test]
fn finds_no_text_without_key_colon_or_quote() {
    let mut a = ChunkAssembler::new();
    assert_eq!(a.extract_text_from_buffer(), None);
    a.response_buffer = r#"{"tex"#.to_string();
    assert_eq!(a.extract_text_from_buffer(), None);
    a.response_buffer = r#"{"text""#.to_string();
    assert_eq!(a.extract_text_from_buffer(), None);
    a.response_buffer = r#"{"text":   "#.to_string();
    assert_eq!(a.extract_text_from_buffer(), None);
    a.response_buffer = r#"{"text": 12"#.to_string();
    assert_eq!(a.extract_text_from_buffer(), None);
    a.response_buffer = r#"{"text": ""#.to_string();
    assert_eq!(a.extract_text_from_buffer(), Some(String::new()));
}

#[test]
fn counts_characters_not_bytes() {
    let mut a = ChunkAssembler::new();
    let first = a.push_sse_line(r#"{"response":"{\"text\": \"Grüße","done":false}"#);
    assert_eq!(first, vec![UiChunk::Text("Grüße".to_string())]);
    let second = a.push_sse_line(r#"{"response":" 世界","done":false}"#);
    assert_eq!(second, vec![UiChunk::Text(" 世界".to_string())]);
    assert_eq!(a.text_buffer, "Grüße 世界");
}

#[test]
fn a_blank_line_changes_nothing() {
    let mut a = ChunkAssembler::new();
    a.push_sse_line(r#"{"response":"{ \"text\": \"H","done":false}"#);
    for line in ["", "   ", "\t\n", "\u{a0}\u{2003}"] {
        assert_eq!(a.push_sse_line(line), vec![]);
        assert_eq!(a.response_buffer, "{ \"text\": \"H");
        assert_eq!(a.text_buffer, "H");
    }
}

#[test]
fn a_line_that_is_not_json_is_dropped() {
    let mut a = ChunkAssembler::new();
    a.push_sse_line(r#"{"response":"{ \"text\": \"H","done":false}"#);
    assert_eq!(a.push_sse_line("{not json"), vec![]);
    assert_eq!(a.response_buffer, "{ \"text\": \"H");
    assert_eq!(a.text_buffer, "H");
}

#[test]
fn a_whole_stream_gives_the_text_and_then_one_document() {
    let mut a = ChunkAssembler::new();
    let mut text = String::new();
    let mut documents = Vec::new();
    let lines = [
        r#"{"response":"{ \"te","done":false}"#,
        r#"{"response":"xt\": \"Hel","done":false}"#,
        r#"{"response":"lo\\nwor","done":false}"#,
        r#"{"response":"ld\", \"n\": 1}","done":true}"#,
    ];
    for line in lines {
        for chunk in a.push_sse_line(line) {
            match chunk {
                UiChunk::Text(t) => {
                    assert!(documents.is_empty());
                    text.push_str(&t);
                }
                UiChunk::Json(v) => documents.push(v),
                UiChunk::Markdown(_) => unreachable!(),
            }
        }
    }
    assert_eq!(text, "Hello\nworld");
    assert_eq!(
        documents,
        vec![JsonValue::Object(vec![
            ("n".to_string(), JsonValue::Number("1".to_string())),
            ("text".to_string(), JsonValue::String("Hello\nworld".to_string())),
        ])]
    );
    assert_eq!(a.response_buffer, "");
    assert_eq!(a.text_buffer, "");
}

#[test]
fn done_with_a_broken_document_gives_no_document_and_clears() {
    let mut a = ChunkAssembler::new();
    let out = a.push_sse_line(r#"{"response":"{ \"text\": \"Hi","done":true}"#);
    assert_eq!(out, vec![UiChunk::Text("Hi".to_string())]);
    assert_eq!(a.response_buffer, "");
    assert_eq!(a.text_buffer, "");
}

#[test]
fn done_without_anything_buffered_gives_nothing() {
    let mut a = ChunkAssembler::new();
    assert_eq!(a.push_sse_line(r#"{"done":true}"#), vec![]);
    assert_eq!(a.push_sse_line(r#"{"response":"","done":true}"#), vec![]);
}

#[test]
fn done_counts_only_as_the_boolean_true() {
    let mut a = ChunkAssembler::new();
    assert_eq!(a.push_sse_line(r#"{"response":"1","done":"true"}"#), vec![]);
    assert_eq!(a.response_buffer, "1");
    assert_eq!(
        a.push_sse_line(r#"{"response":"2","done":true}"#),
        vec![UiChunk::Json(JsonValue::Number("12".to_string()))]
    );
}

#[test]
fn a_response_that_is_no_string_is_not_appended() {
    let mut a = ChunkAssembler::new();
    assert_eq!(a.push_sse_line(r#"{"response":5,"done":false}"#), vec![]);
    assert_eq!(a.response_buffer, "");
}

#[test]
fn push_fragment_and_push_value_agree_with_push_sse_line() {
    let mut a = ChunkAssembler::new();
    assert_eq!(
        a.push_fragment(Some("{\"text\": \"ab"), false),
        vec![UiChunk::Text("ab".to_string())]
    );
    let line = JsonValue::Object(vec![
        ("response".to_string(), JsonValue::String("c\"}".to_string())),
        ("done".to_string(), JsonValue::Bool(true)),
    ]);
    assert_eq!(
        a.push_value(&line),
        vec![
            UiChunk::Text("c".to_string()),
            UiChunk::Json(JsonValue::Object(vec![(
                "text".to_string(),
                JsonValue::String("abc".to_string())
            )])),
        ]
    );
}

#[test]
fn absorb_returns_the_delta_and_finish_clears() {
    let mut a = ChunkAssembler::default();
    assert_eq!(a.absorb("{\"text\""), None);
    assert_eq!(a.absorb(": \"x"), Some("x".to_string()));
    assert_eq!(a.absorb(""), None);
    assert_eq!(a.absorb("y\" "), Some("y".to_string()));
    assert_eq!(a.absorb("z"), None);
    assert_eq!(a.finish(None), None);
    assert_eq!(a.response_buffer, "");
    assert_eq!(a.finish(Some(JsonValue::Null)), Some(UiChunk::Json(JsonValue::Null)));
}
