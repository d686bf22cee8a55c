use gm::sse::split_payloads;

fn split(buf: &str) -> (Vec<String>, String) {
    split_payloads(buf)
}

fn strings(items: &[&str]) -> Vec<String> {
    items.iter().map(|s| s.to_string()).collect()
}

#[test]
fn complete_records_give_their_data_and_the_rest_stays() {
    assert_eq!(split("data: a\n\ndata: b\n\ndata: c"), (strings(&["a", "b"]), "data: c".to_string()));
    assert_eq!(split("data: a\n\n"), (strings(&["a"]), String::new()));
    assert_eq!(split("data: a\n"), (strings(&[]), "data: a\n".to_string()));
    assert_eq!(split(""), (strings(&[]), String::new()));
    assert_eq!(split("\n\n"), (strings(&[]), String::new()));
    assert_eq!(split("\n\n\n"), (strings(&[]), "\n".to_string()));
}

#[test]
fn only_data_lines_count() {
    assert_eq!(
        split("event: x\ndata: 1\nid: 7\ndata: 2\n: comment\n\nretry: 5\n\n"),
        (strings(&["1", "2"]), String::new())
    );
    assert_eq!(split("data:a\n\n"), (strings(&[]), String::new()));
    assert_eq!(split(" data: a\n\n"), (strings(&[]), String::new()));
    assert_eq!(split("data: \n\n"), (strings(&[""]), String::new()));
    assert_eq!(split("data:  a \n\n"), (strings(&[" a "]), String::new()));
    assert_eq!(split("DATA: a\n\n"), (strings(&[]), String::new()));
}

#[test]
fn a_carriage_return_at_the_end_of_a_line_is_dropped() {
    assert_eq!(split("data: a\r\ndata: b\r\n\n"), (strings(&["a", "b"]), String::new()));
    assert_eq!(split("data: a\r\n\r\n"), (strings(&[]), "data: a\r\n\r\n".to_string()));
    assert_eq!(split("data: a\rb\n\n"), (strings(&["a\rb"]), String::new()));
}

#[test]
fn data_of_any_script() {
    assert_eq!(split("data: Grüße 世界\n\nä"), (strings(&["Grüße 世界"]), "ä".to_string()));
}
