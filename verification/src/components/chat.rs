//! The state of the chat window: the history of messages and what each
//! record of the stream from the server does to it.

use crate::json::{json_document, json_text, parse_json, to_json_text, JsonValue};
use crate::sse::data_prefix;
use crate::text::{
    all_spaces, chars_of, has_prefix, index_of, index_of_exec, lemma_index_of, lemma_trim_empty,
    slice_of, str_eq, string_of, tail_of, trim, trim_chars,
};
use vstd::prelude::*;
use vstd::string::StringExecFns;

verus! {

/// Who wrote a message.
#[derive(Clone, Copy, Debug, PartialEq, Eq, Structural)]
pub enum MessageRole {
    User,
    Llm,
    System,
    Error,
}

impl MessageRole {
    /// The style classes of a message of this role.
    pub fn css_class(&self) -> (r: &'static str)
        ensures
            r@ == match self {
                MessageRole::User => "message user"@,
                MessageRole::Llm => "message bot"@,
                MessageRole::System => "message system"@,
                MessageRole::Error => "message error"@,
            },
    {
        match self {
            MessageRole::User => "message user",
            MessageRole::Llm => "message bot",
            MessageRole::System => "message system",
            MessageRole::Error => "message error",
        }
    }

    /// The name of the role.
    pub fn as_str(&self) -> (r: &'static str)
        ensures
            r@ == match self {
                MessageRole::User => "user"@,
                MessageRole::Llm => "llm"@,
                MessageRole::System => "system"@,
                MessageRole::Error => "error"@,
            },
    {
        match self {
            MessageRole::User => "user",
            MessageRole::Llm => "llm",
            MessageRole::System => "system",
            MessageRole::Error => "error",
        }
    }
}

/// One message of the history.
#[derive(Clone, Debug, PartialEq, Eq)]
pub struct Message {
    pub id: String,
    pub role: MessageRole,
    pub content: String,
}

/// A [`Message`] with its strings as character sequences.
pub struct MessageView {
    pub id: Seq<char>,
    pub role: MessageRole,
    pub content: Seq<char>,
}

impl View for Message {
    type V = MessageView;

    open spec fn view(&self) -> MessageView {
        MessageView { id: self.id@, role: self.role, content: self.content@ }
    }
}

impl Message {
    /// A message with the identifier given; the caller draws a new one for
    /// each message.
    pub fn new(id: String, role: MessageRole, content: String) -> (r: Message)
        ensures
            r@ == (MessageView { id: id@, role, content: content@ }),
    {
        Message { id, role, content }
    }
}

/// The views of a history.
pub open spec fn message_views(history: Seq<Message>) -> Seq<MessageView> {
    history.map_values(|m: Message| m@)
}

/// The history with `content` added to its last message, where that is an
/// answer.
pub open spec fn extended(history: Seq<MessageView>, content: Seq<char>) -> Seq<MessageView> {
    if history.len() > 0 && history.last().role == MessageRole::Llm {
        history.drop_last().push(
            MessageView { content: history.last().content + content, ..history.last() },
        )
    } else {
        history
    }
}

/// The history with `content` added to the answer that is being written:
/// to the last message, where that is an answer, and else as a new answer
/// with identifier `id`.
pub open spec fn appended(history: Seq<MessageView>, content: Seq<char>, id: Seq<char>) -> Seq<
    MessageView,
> {
    if history.len() > 0 && history.last().role == MessageRole::Llm {
        extended(history, content)
    } else {
        history.push(MessageView { id, role: MessageRole::Llm, content })
    }
}

/// Adds `content` to the last message, where that is an answer; says whether
/// it did.
pub fn extend_last_llm_message(history: &mut Vec<Message>, content: &str) -> (r: bool)
    ensures
        r == (old(history)@.len() > 0 && old(history)@.last().role == MessageRole::Llm),
        message_views(final(history)@) == extended(message_views(old(history)@), content@),
{
    if history.len() == 0 || history[history.len() - 1].role != MessageRole::Llm {
        return false;
    }
    match history.pop() {
        Some(last) => {
            let mut last = last;
            last.content.append(content);
            history.push(last);
            true
        },
        None => false,
    }
}

/// Adds `content` to the answer that is being written; `id` is the
/// identifier for a new message, used where one is started.
pub fn append_or_create_llm_message(history: &mut Vec<Message>, content: String, id: String)
    ensures
        message_views(final(history)@) == appended(message_views(old(history)@), content@, id@),
{
    if !extend_last_llm_message(history, content.as_str()) {
        history.push(Message::new(id, MessageRole::Llm, content));
    }
}

/// The text that a value is shown as: its JSON text.
pub open spec fn shown(v: JsonValue) -> Seq<char> {
    match json_text(v) {
        Some(t) => t,
        None => Seq::empty(),
    }
}

/// The list item for one element of a group: a pair of key and value is
/// shown as such, an object with an address as an image, anything else not
/// at all.
pub open spec fn item_html(item: JsonValue) -> Seq<char> {
    match item.elements() {
        Some(pair) => if pair.len() >= 2 {
            "<li><strong>"@ + (match pair[0].text() {
                Some(key) => key,
                None => Seq::empty(),
            }) + ":</strong> "@ + shown(pair[1]) + "</li>"@
        } else {
            Seq::empty()
        },
        None => match item.text_member("url"@) {
            Some(url) => "<li><img src=\""@ + url + "\"/></li>"@,
            None => Seq::empty(),
        },
    }
}

/// The list items for the first `n` elements of a group.
pub open spec fn items_html(items: Seq<JsonValue>, n: int) -> Seq<char>
    decreases n,
{
    if n <= 0 {
        Seq::empty()
    } else {
        items_html(items, n - 1) + item_html(items[n - 1])
    }
}

/// The list items for a group: those of its elements, where it is an array.
pub open spec fn group_html(group: JsonValue) -> Seq<char> {
    match group.elements() {
        Some(items) => items_html(items, items.len() as int),
        None => Seq::empty(),
    }
}

/// The list items for the first `n` groups.
pub open spec fn groups_html(groups: Seq<JsonValue>, n: int) -> Seq<char>
    decreases n,
{
    if n <= 0 {
        Seq::empty()
    } else {
        groups_html(groups, n - 1) + group_html(groups[n - 1])
    }
}

/// The list that shows the objects of a document: its member `objects` is
/// an array of groups. `None` for a document without such a member.
pub open spec fn objects_html(parsed: JsonValue) -> Option<Seq<char>> {
    match parsed.member("objects"@) {
        Some(objects) => match objects.elements() {
            Some(groups) => Some(
                "<ul>"@ + groups_html(groups, groups.len() as int) + "</ul>"@,
            ),
            None => None,
        },
        None => None,
    }
}

/// Appends the list item for one element of a group.
fn push_item_html(html: &mut String, item: &JsonValue)
    ensures
        final(html)@ == old(html)@ + item_html(*item),
{
    match item.as_array() {
        Some(pair) => {
            if pair.len() >= 2 {
                let key = match pair[0].as_str() {
                    Some(k) => k,
                    None => "",
                };
                let value = match to_json_text(&pair[1]) {
                    Some(t) => t,
                    None => String::new(),
                };
                proof {
                    reveal_strlit("");
                }
                html.append("<li><strong>");
                html.append(key);
                html.append(":</strong> ");
                html.append(value.as_str());
                html.append("</li>");
            }
        },
        None => {
            let url = match item.get("url") {
                Some(u) => u.as_str(),
                None => None,
            };
            match url {
                Some(u) => {
                    html.append("<li><img src=\"");
                    html.append(u);
                    html.append("\"/></li>");
                },
                None => {
                },
            }
        },
    }
}

/// Appends the list items for a group.
fn push_group_html(html: &mut String, group: &JsonValue)
    ensures
        final(html)@ == old(html)@ + group_html(*group),
{
    match group.as_array() {
        Some(items) => {
            let mut i: usize = 0;
            while i < items.len()
                invariant
                    i <= items.len(),
                    html@ == old(html)@ + items_html(items@, i as int),
                decreases items.len() - i,
            {
                push_item_html(html, &items[i]);
                i += 1;
            }
        },
        None => {
        },
    }
}

/// The list that shows the objects of a document.
pub fn extract_objects_html(parsed: &JsonValue) -> (r: Option<String>)
    ensures
        match r {
            Some(h) => Some(h@),
            None => None,
        } == objects_html(*parsed),
{
    let groups = match parsed.get("objects") {
        Some(objects) => match objects.as_array() {
            Some(groups) => groups,
            None => { return None; },
        },
        None => { return None; },
    };
    let mut html = "<ul>".to_owned();
    let mut i: usize = 0;
    while i < groups.len()
        invariant
            i <= groups.len(),
            html@ == "<ul>"@ + groups_html(groups@, i as int),
        decreases groups.len() - i,
    {
        push_group_html(&mut html, &groups[i]);
        i += 1;
    }
    html.append("</ul>");
    Some(html)
}

/// What a record of the stream does to the chat window: the history after
/// it, and whether the answer has ended.
///
/// A record without a name, or named `chunk` or `replay`, adds its data to
/// the answer that is being written. A record named `json` adds the list of
/// the objects in its data to that answer, where there is one. `on_complete`
/// ends the answer, `on_stop` and `error` end it with a message of their
/// own, and any other record does nothing. `id` is the identifier for a new
/// message, and `html` the list for the data of a `json` record.
pub open spec fn after_record(
    history: Seq<MessageView>,
    event: Option<Seq<char>>,
    data: Seq<char>,
    id: Seq<char>,
    html: Option<Seq<char>>,
) -> (Seq<MessageView>, bool) {
    if event is None || event == Some("chunk"@) || event == Some("replay"@) {
        (
            if data.len() > 0 {
                appended(history, data, id)
            } else {
                history
            },
            false,
        )
    } else if event == Some("json"@) {
        (
            match html {
                Some(h) => extended(history, h),
                None => history,
            },
            false,
        )
    } else if event == Some("on_complete"@) {
        (history, true)
    } else if event == Some("on_stop"@) {
        (
            history.push(
                MessageView {
                    id,
                    role: MessageRole::System,
                    content: "<i>\u{23f9} Chat stopped: "@ + data + "</i>"@,
                },
            ),
            true,
        )
    } else if event == Some("error"@) {
        (
            history.push(
                MessageView { id, role: MessageRole::Error, content: "\u{274c} "@ + data },
            ),
            true,
        )
    } else {
        (history, false)
    }
}

/// The list for the data of a `json` record.
pub open spec fn html_of_data(data: Seq<char>) -> Option<Seq<char>> {
    match json_document(data) {
        Some(parsed) => objects_html(parsed),
        None => None,
    }
}

/// Applies a record of the stream to the history and says whether the
/// answer has ended.
pub fn process_sse_event(event: Option<&str>, data: &str, history: &mut Vec<Message>, id: String) -> (r:
    bool)
    ensures
        (message_views(final(history)@), r) == after_record(
            message_views(old(history)@),
            match event {
                Some(e) => Some(e@),
                None => None,
            },
            data@,
            id@,
            html_of_data(data@),
        ),
{
    let name = match event {
        Some(e) => e,
        None => {
            if data.unicode_len() > 0 {
                append_or_create_llm_message(history, data.to_owned(), id);
            }
            return false;
        },
    };
    if str_eq(name, "chunk") || str_eq(name, "replay") {
        if data.unicode_len() > 0 {
            append_or_create_llm_message(history, data.to_owned(), id);
        }
        false
    } else if str_eq(name, "json") {
        let html = match parse_json(data) {
            Some(parsed) => extract_objects_html(&parsed),
            None => None,
        };
        if let Some(h) = html {
            let _ = extend_last_llm_message(history, h.as_str());
        }
        false
    } else if str_eq(name, "on_complete") {
        true
    } else if str_eq(name, "on_stop") {
        let mut content = "<i>\u{23f9} Chat stopped: ".to_owned();
        content.append(data);
        content.append("</i>");
        history.push(Message::new(id, MessageRole::System, content));
        true
    } else if str_eq(name, "error") {
        let mut content = "\u{274c} ".to_owned();
        content.append(data);
        history.push(Message::new(id, MessageRole::Error, content));
        true
    } else {
        false
    }
}

/// One record read from the stream: the name of its event, if it had one,
/// and its data.
#[derive(Clone, Debug, PartialEq, Eq)]
pub struct SseRecord {
    pub event: Option<String>,
    pub data: String,
}

/// An [`SseRecord`] with its strings as character sequences.
pub struct RecordView {
    pub event: Option<Seq<char>>,
    pub data: Seq<char>,
}

impl View for SseRecord {
    type V = RecordView;

    open spec fn view(&self) -> RecordView {
        RecordView {
            event: match self.event {
                Some(e) => Some(e@),
                None => None,
            },
            data: self.data@,
        }
    }
}

/// The views of a list of records.
pub open spec fn record_views(records: Seq<SseRecord>) -> Seq<RecordView> {
    records.map_values(|r: SseRecord| r@)
}

/// The prefix of a line that names an event.
pub open spec fn event_prefix() -> Seq<char> {
    seq!['e', 'v', 'e', 'n', 't', ':', ' ']
}

/// What reading a buffer gives: the records of its complete lines, the
/// event name that waits for its data, and what is left behind the last
/// line feed.
pub struct Reading {
    pub records: Seq<RecordView>,
    pub current: Option<Seq<char>>,
    pub rest: Seq<char>,
}

/// Reads the lines of `buf` from index `from` on; `current` is the event
/// name that waits for its data.
///
/// Each line is trimmed. A line that starts with `event: ` names the event
/// of the data that follows. A line that starts with `data: ` is a record,
/// under the name that waits, which is used up by it. Any other line is
/// skipped.
pub open spec fn reading(buf: Seq<char>, from: int, current: Option<Seq<char>>) -> Reading
    decreases buf.len() - from,
{
    match index_of(buf, '\n', from) {
        Some(end) => if 0 <= from <= end < buf.len() {
            let line = trim(buf.subrange(from, end));
            if event_prefix().is_prefix_of(line) {
                reading(buf, end + 1, Some(line.skip(7)))
            } else if data_prefix().is_prefix_of(line) {
                let later = reading(buf, end + 1, None);
                Reading {
                    records: seq![RecordView { event: current, data: line.skip(6) }]
                        + later.records,
                    ..later
                }
            } else {
                reading(buf, end + 1, current)
            }
        } else {
            Reading { records: Seq::empty(), current, rest: buf.skip(from) }
        },
        None => Reading { records: Seq::empty(), current, rest: buf.skip(from) },
    }
}

/// The reader of the stream in the browser: what has arrived of a line
/// that is not complete, and the event name that waits for its data.
#[derive(Debug)]
pub struct SseReader {
    pub current_event: Option<String>,
    pub buffer: String,
}

fn event_prefix_chars() -> (v: Vec<char>)
    ensures
        v@ == event_prefix(),
{
    let mut v: Vec<char> = Vec::new();
    v.push('e');
    v.push('v');
    v.push('e');
    v.push('n');
    v.push('t');
    v.push(':');
    v.push(' ');
    v
}

fn data_prefix_chars() -> (v: Vec<char>)
    ensures
        v@ == data_prefix(),
{
    let mut v: Vec<char> = Vec::new();
    v.push('d');
    v.push('a');
    v.push('t');
    v.push('a');
    v.push(':');
    v.push(' ');
    v
}

impl SseReader {
    /// A reader that has read nothing.
    pub fn new() -> (r: SseReader)
        ensures
            r.current_event is None,
            r.buffer@ == Seq::<char>::empty(),
    {
        SseReader { current_event: None, buffer: String::new() }
    }

    /// Takes a piece of the stream and returns the records that are
    /// complete with it.
    pub fn feed(&mut self, text: &str) -> (out: Vec<SseRecord>)
        ensures
            ({
                let read = reading(
                    old(self).buffer@ + text@,
                    0,
                    match old(self).current_event {
                        Some(e) => Some(e@),
                        None => None,
                    },
                );
                &&& record_views(out@) == read.records
                &&& final(self).buffer@ == read.rest
                &&& (match final(self).current_event {
                    Some(e) => Some(e@),
                    None => None,
                }) == read.current
            }),
    {
        self.buffer.append(text);
        let v = chars_of(self.buffer.as_str());
        let event_mark = event_prefix_chars();
        let data_mark = data_prefix_chars();
        let ghost total = reading(
            v@,
            0,
            match old(self).current_event {
                Some(e) => Some(e@),
                None => None,
            },
        );
        let mut out: Vec<SseRecord> = Vec::new();
        let mut at: usize = 0;
        loop
            invariant_except_break
                at <= v.len(),
                event_mark@ == event_prefix(),
                data_mark@ == data_prefix(),
                ({
                    let left = reading(
                        v@,
                        at as int,
                        match self.current_event {
                            Some(e) => Some(e@),
                            None => None,
                        },
                    );
                    &&& total.records == record_views(out@) + left.records
                    &&& total.current == left.current
                    &&& total.rest == left.rest
                }),
            ensures
                at <= v.len(),
                total.records == record_views(out@),
                total.current == (match self.current_event {
                    Some(e) => Some(e@),
                    None => None,
                }),
                total.rest == v@.skip(at as int),
            decreases v.len() - at,
        {
            match index_of_exec(&v, '\n', at) {
                Some(end) => {
                    proof {
                        lemma_index_of(v@, '\n', at as int);
                    }
                    let line = trim_chars(&slice_of(&v, at, end));
                    if has_prefix(&line, &event_mark) {
                        self.current_event = Some(string_of(&tail_of(&line, 7)));
                    } else if has_prefix(&line, &data_mark) {
                        let record = SseRecord {
                            event: self.current_event.take(),
                            data: string_of(&tail_of(&line, 6)),
                        };
                        out.push(record);
                    }
                    at = end + 1;
                },
                None => {
                    break;
                },
            }
        }
        self.buffer = string_of(&tail_of(&v, at));
        out
    }
}

/// Whether a prompt may be sent: it is more than whitespace, and no answer
/// is being written.
pub fn may_submit(prompt: &str, is_loading: bool) -> (r: bool)
    ensures
        r == (!all_spaces(prompt@) && !is_loading),
{
    proof {
        lemma_trim_empty(prompt@);
    }
    trim_chars(&chars_of(prompt)).len() > 0 && !is_loading
}

} // verus!
