//! Incremental extraction of the `"text"` field from a JSON document that
//! arrives in fragments.

use crate::json::{json_document, parse_json, JsonValue};
use crate::text::{
    all_spaces, chars_of, find, find_exec, find_from, index_of, index_of_exec, is_space,
    lemma_find_from,
    lemma_index_of, lemma_skip_spaces_bounds, lemma_trim_empty, occurs_at, skip_spaces,
    skip_spaces_exec, slice_of, string_of, trim, trim_chars,
};
use vstd::prelude::*;
use vstd::string::StringExecFns;

verus! {

/// One piece of output for the user interface.
#[derive(Debug, Clone, PartialEq, Eq)]
pub enum UiChunk {
    Text(String),
    Markdown(String),
    Json(JsonValue),
}

/// What a [`UiChunk`] holds, with strings as character sequences.
pub enum ChunkView {
    Text(Seq<char>),
    Markdown(Seq<char>),
    Json(JsonValue),
}

impl View for UiChunk {
    type V = ChunkView;

    open spec fn view(&self) -> ChunkView {
        match self {
            UiChunk::Text(s) => ChunkView::Text(s@),
            UiChunk::Markdown(s) => ChunkView::Markdown(s@),
            UiChunk::Json(v) => ChunkView::Json(*v),
        }
    }
}

/// The views of a list of chunks.
pub open spec fn chunk_views(chunks: Seq<UiChunk>) -> Seq<ChunkView> {
    chunks.map_values(|c: UiChunk| c@)
}

/// The key whose value is extracted: `"text"`, quotes included.
pub open spec fn text_key() -> Seq<char> {
    seq!['"', 't', 'e', 'x', 't', '"']
}

/// What an escape sequence stands for: `c` is the character after the
/// backslash. An unknown escape is kept as it was written.
pub open spec fn unescape(c: char) -> Seq<char> {
    if c == 'n' {
        seq!['\n']
    } else if c == 't' {
        seq!['\t']
    } else if c == 'r' {
        seq!['\r']
    } else if c == '\\' {
        seq!['\\']
    } else if c == '"' {
        seq!['"']
    } else {
        seq!['\\', c]
    }
}

/// The characters of a JSON string whose body starts at `s[i]`, decoded up to
/// the closing quote or, where there is none yet, up to the end of `s`.
/// `escaped` says that the character before `s[i]` was an unescaped backslash.
pub open spec fn decode(s: Seq<char>, i: int, escaped: bool) -> Seq<char>
    decreases s.len() - i,
{
    if i < 0 || i >= s.len() {
        Seq::empty()
    } else if escaped {
        unescape(s[i]) + decode(s, i + 1, false)
    } else if s[i] == '\\' {
        decode(s, i + 1, true)
    } else if s[i] == '"' {
        Seq::empty()
    } else {
        seq![s[i]] + decode(s, i + 1, false)
    }
}

/// Index of the first character of the text value's body: after the first
/// `"text"`, the first colon behind it, optional whitespace and an opening
/// quote. `None` where the buffer does not hold all of these yet, or holds
/// something else than a quote there.
pub open spec fn value_start(buf: Seq<char>) -> Option<int> {
    match find(buf, text_key()) {
        None => None,
        Some(k) => match index_of(buf, ':', k + 6) {
            None => None,
            Some(c) => {
                let q = skip_spaces(buf, c + 1);
                if q < buf.len() && buf[q] == '"' {
                    Some(q + 1)
                } else {
                    None
                }
            },
        },
    }
}

/// The text value decoded from as much of the document as `buf` holds.
pub open spec fn extract_text(buf: Seq<char>) -> Option<Seq<char>> {
    match value_start(buf) {
        Some(q) => Some(decode(buf, q, false)),
        None => None,
    }
}

/// The decoded text, empty where there is none yet.
pub open spec fn decoded_text(buf: Seq<char>) -> Seq<char> {
    match extract_text(buf) {
        Some(t) => t,
        None => Seq::empty(),
    }
}

/// The characters of [`text_key`].
fn text_key_chars() -> (v: Vec<char>)
    ensures
        v@ == text_key(),
{
    let mut v: Vec<char> = Vec::new();
    v.push('"');
    v.push('t');
    v.push('e');
    v.push('x');
    v.push('t');
    v.push('"');
    v
}

/// Appends to `out` what the escape sequence with character `c` stands for.
fn push_unescaped(out: &mut Vec<char>, c: char)
    ensures
        final(out)@ == old(out)@ + unescape(c),
{
    if c == 'n' {
        out.push('\n');
    } else if c == 't' {
        out.push('\t');
    } else if c == 'r' {
        out.push('\r');
    } else if c == '\\' {
        out.push('\\');
    } else if c == '"' {
        out.push('"');
    } else {
        out.push('\\');
        out.push(c);
    }
}

/// Decodes the string body that starts at `v[start]`.
pub fn decode_chars(v: &Vec<char>, start: usize) -> (r: Vec<char>)
    requires
        start <= v.len(),
    ensures
        r@ == decode(v@, start as int, false),
{
    let mut out: Vec<char> = Vec::new();
    let mut escaped: bool = false;
    let mut i: usize = start;
    while i < v.len()
        invariant_except_break
            start <= i <= v.len(),
            decode(v@, start as int, false) == out@ + decode(v@, i as int, escaped),
        ensures
            decode(v@, start as int, false) == out@,
        decreases v.len() - i,
    {
        let c = v[i];
        if escaped {
            push_unescaped(&mut out, c);
            escaped = false;
        } else if c == '\\' {
            escaped = true;
        } else if c == '"' {
            break;
        } else {
            out.push(c);
        }
        i += 1;
    }
    out
}

/// Executable [`value_start`].
pub fn find_value_start(v: &Vec<char>) -> (r: Option<usize>)
    ensures
        match r {
            Some(q) => value_start(v@) == Some(q as int) && q <= v.len(),
            None => value_start(v@) is None,
        },
{
    let key = text_key_chars();
    match find_exec(v, &key, 0) {
        None => None,
        Some(k) => {
            proof {
                lemma_find_from(v@, key@, 0);
                assert(k + 6 <= v.len());
            }
            match index_of_exec(v, ':', k + 6) {
                None => None,
                Some(c) => {
                    proof {
                        lemma_index_of(v@, ':', k + 6);
                    }
                    let q = skip_spaces_exec(v, c + 1);
                    if q < v.len() && v[q] == '"' {
                        Some(q + 1)
                    } else {
                        None
                    }
                },
            }
        },
    }
}

/// Executable [`extract_text`] on the characters of a buffer.
pub fn extract_chars(v: &Vec<char>) -> (r: Option<Vec<char>>)
    ensures
        match r {
            Some(t) => extract_text(v@) == Some(t@),
            None => extract_text(v@) is None,
        },
{
    match find_value_start(v) {
        Some(q) => Some(decode_chars(v, q)),
        None => None,
    }
}

/// An occurrence that was found stays the first one when the text grows.
pub proof fn lemma_find_extends(hay: Seq<char>, more: Seq<char>, needle: Seq<char>, from: int)
    requires
        0 <= from,
        find_from(hay, needle, from) is Some,
    ensures
        find_from(hay + more, needle, from) == find_from(hay, needle, from),
    decreases hay.len() - from + 1,
{
    if from + needle.len() <= hay.len() {
        assert((hay + more).subrange(from, from + needle.len()) =~= hay.subrange(
            from,
            from + needle.len(),
        ));
        if !occurs_at(hay, needle, from) {
            lemma_find_extends(hay, more, needle, from + 1);
        }
    }
}

/// A character that was found stays the first one when the text grows.
pub proof fn lemma_index_of_extends(s: Seq<char>, more: Seq<char>, c: char, from: int)
    requires
        0 <= from,
        index_of(s, c, from) is Some,
    ensures
        index_of(s + more, c, from) == index_of(s, c, from),
    decreases s.len() - from,
{
    if from < s.len() {
        if s[from] != c {
            lemma_index_of_extends(s, more, c, from + 1);
        }
    }
}

/// Whitespace that ended inside the text ends at the same place when the text
/// grows.
pub proof fn lemma_skip_spaces_extends(s: Seq<char>, more: Seq<char>, from: int)
    requires
        0 <= from <= s.len(),
        skip_spaces(s, from) < s.len(),
    ensures
        skip_spaces(s + more, from) == skip_spaces(s, from),
    decreases s.len() - from,
{
    if from < s.len() {
        if is_space(s[from]) {
            lemma_skip_spaces_extends(s, more, from + 1);
        }
    }
}

/// What was decoded stays when the text grows: the old result is a prefix of
/// the new one.
pub proof fn lemma_decode_extends(s: Seq<char>, more: Seq<char>, i: int, escaped: bool)
    requires
        0 <= i,
    ensures
        decode(s, i, escaped).is_prefix_of(decode(s + more, i, escaped)),
    decreases s.len() - i,
{
    if i < s.len() {
        if escaped {
            lemma_decode_extends(s, more, i + 1, false);
        } else if s[i] == '\\' {
            lemma_decode_extends(s, more, i + 1, true);
        } else if s[i] != '"' {
            lemma_decode_extends(s, more, i + 1, false);
        }
    }
}

/// The text decoded from a buffer is a prefix of the text decoded from any
/// extension of that buffer; once a text value has started it never goes
/// away.
pub proof fn lemma_extract_extends(buf: Seq<char>, more: Seq<char>)
    ensures
        extract_text(buf) is Some ==> extract_text(buf + more) is Some,
        decoded_text(buf).is_prefix_of(decoded_text(buf + more)),
{
    if let Some(k) = find(buf, text_key()) {
        lemma_find_extends(buf, more, text_key(), 0);
        if let Some(c) = index_of(buf, ':', k + 6) {
            lemma_index_of(buf, ':', k + 6);
            lemma_index_of_extends(buf, more, ':', k + 6);
            let q = skip_spaces(buf, c + 1);
            lemma_skip_spaces_bounds(buf, c + 1);
            if q < buf.len() && buf[q] == '"' {
                lemma_skip_spaces_extends(buf, more, c + 1);
                lemma_decode_extends(buf, more, q + 1, false);
            }
        }
    }
}

/// The delta to emit: what the newly decoded text adds to the text seen so
/// far, where it is strictly longer.
pub open spec fn delta(seen: Seq<char>, current: Option<Seq<char>>) -> Option<Seq<char>> {
    match current {
        Some(t) => if t.len() > seen.len() {
            Some(t.skip(seen.len() as int))
        } else {
            None
        },
        None => None,
    }
}

/// The characters of an optional string slice.
pub open spec fn opt_chars(s: Option<&str>) -> Option<Seq<char>> {
    match s {
        Some(x) => Some(x@),
        None => None,
    }
}

/// The response buffer once an optional fragment is appended.
pub open spec fn grown(buf: Seq<char>, response: Option<Seq<char>>) -> Seq<char> {
    match response {
        Some(f) => buf + f,
        None => buf,
    }
}

/// The text chunk that a push emits: the delta of the decoded text, where a
/// fragment came and made the text longer.
pub open spec fn text_part(seen: Seq<char>, buf: Seq<char>, response: Option<Seq<char>>) -> Seq<
    ChunkView,
> {
    match response {
        Some(f) => match delta(seen, extract_text(buf + f)) {
            Some(d) => seq![ChunkView::Text(d)],
            None => Seq::empty(),
        },
        None => Seq::empty(),
    }
}

/// The JSON chunk that a push emits: the parsed document, where the push is
/// the last one, the buffer is not empty and the document could be parsed.
/// `parsed` is the outcome of parsing the grown buffer.
pub open spec fn json_part(buf: Seq<char>, done: bool, parsed: Option<JsonValue>) -> Seq<
    ChunkView,
> {
    if done && buf.len() > 0 {
        match parsed {
            Some(v) => seq![ChunkView::Json(v)],
            None => Seq::empty(),
        }
    } else {
        Seq::empty()
    }
}

/// All chunks of one push, in order.
pub open spec fn step_chunks(
    seen: Seq<char>,
    buf: Seq<char>,
    response: Option<Seq<char>>,
    done: bool,
    parsed: Option<JsonValue>,
) -> Seq<ChunkView> {
    text_part(seen, buf, response) + json_part(grown(buf, response), done, parsed)
}

/// The response buffer after a push.
pub open spec fn step_response(buf: Seq<char>, response: Option<Seq<char>>, done: bool) -> Seq<
    char,
> {
    if done {
        Seq::empty()
    } else {
        grown(buf, response)
    }
}

/// The text buffer after a push.
pub open spec fn step_text(
    seen: Seq<char>,
    buf: Seq<char>,
    response: Option<Seq<char>>,
    done: bool,
) -> Seq<char> {
    if done {
        Seq::empty()
    } else {
        match response {
            Some(f) => match delta(seen, extract_text(buf + f)) {
                Some(_) => extract_text(buf + f).unwrap(),
                None => seen,
            },
            None => seen,
        }
    }
}

/// What a line says once it is read as JSON: the response fragment, if it
/// has one, and whether it is the last line. `None` for a line of whitespace
/// only and for one that is not a JSON document.
pub open spec fn line_content(line: Seq<char>) -> Option<(Option<Seq<char>>, bool)> {
    if trim(line).len() == 0 {
        None
    } else {
        match json_document(trim(line)) {
            Some(val) => Some(
                (val.text_member("response"@), val.truth_member("done"@) == Some(true)),
            ),
            None => None,
        }
    }
}

/// The chunks that a line yields.
pub open spec fn line_chunks(seen: Seq<char>, buf: Seq<char>, line: Seq<char>) -> Seq<ChunkView> {
    match line_content(line) {
        Some((response, done)) => step_chunks(
            seen,
            buf,
            response,
            done,
            json_document(grown(buf, response)),
        ),
        None => Seq::empty(),
    }
}

/// The response buffer after a line.
pub open spec fn line_response(buf: Seq<char>, line: Seq<char>) -> Seq<char> {
    match line_content(line) {
        Some((response, done)) => step_response(buf, response, done),
        None => buf,
    }
}

/// The text buffer after a line.
pub open spec fn line_text(seen: Seq<char>, buf: Seq<char>, line: Seq<char>) -> Seq<char> {
    match line_content(line) {
        Some((response, done)) => step_text(seen, buf, response, done),
        None => seen,
    }
}

/// State of the extraction for one stream.
///
/// `response_buffer` holds every response fragment received since the last
/// completed document; `text_buffer` holds the longest text decoded from it so
/// far.
#[derive(Debug)]
pub struct ChunkAssembler {
    pub response_buffer: String,
    pub text_buffer: String,
}

impl Default for ChunkAssembler {
    fn default() -> (r: Self)
        ensures
            r.response_buffer@ == Seq::<char>::empty(),
            r.text_buffer@ == Seq::<char>::empty(),
            r.wf(),
    {
        ChunkAssembler::new()
    }
}

impl ChunkAssembler {
    /// The invariant between the two buffers: the text seen so far is the text
    /// that the response buffer decodes to.
    pub open spec fn wf(&self) -> bool {
        self.text_buffer@ == decoded_text(self.response_buffer@)
    }

    /// An assembler with empty buffers.
    pub fn new() -> (r: Self)
        ensures
            r.response_buffer@ == Seq::<char>::empty(),
            r.text_buffer@ == Seq::<char>::empty(),
            r.wf(),
    {
        let r = ChunkAssembler { response_buffer: String::new(), text_buffer: String::new() };
        r
    }

    /// Extracts the text value from the response buffer as far as it has
    /// arrived.
    pub fn extract_text_from_buffer(&self) -> (r: Option<String>)
        ensures
            match r {
                Some(t) => extract_text(self.response_buffer@) == Some(t@),
                None => extract_text(self.response_buffer@) is None,
            },
    {
        let v = chars_of(self.response_buffer.as_str());
        match extract_chars(&v) {
            Some(t) => Some(string_of(&t)),
            None => None,
        }
    }

    /// Appends a response fragment and returns the text that it adds, if any.
    pub fn absorb(&mut self, fragment: &str) -> (r: Option<String>)
        ensures
            final(self).response_buffer@ == old(self).response_buffer@ + fragment@,
            match delta(old(self).text_buffer@, extract_text(final(self).response_buffer@)) {
                Some(d) => r is Some && r.unwrap()@ == d && final(self).text_buffer@
                    == extract_text(final(self).response_buffer@).unwrap(),
                None => r is None && final(self).text_buffer@ == old(self).text_buffer@,
            },
            old(self).wf() ==> final(self).wf() && old(self).text_buffer@ + (match r {
                Some(d) => d@,
                None => Seq::empty(),
            }) == final(self).text_buffer@,
    {
        self.response_buffer.append(fragment);
        let v = chars_of(self.response_buffer.as_str());
        let seen: usize = self.text_buffer.as_str().unicode_len();
        proof {
            lemma_extract_extends(old(self).response_buffer@, fragment@);
        }
        match extract_chars(&v) {
            Some(current) => {
                if current.len() > seen {
                    let added = slice_of(&current, seen, current.len());
                    self.text_buffer = string_of(&current);
                    Some(string_of(&added))
                } else {
                    assert(old(self).wf() ==> old(self).text_buffer@ =~= current@);
                    None
                }
            },
            None => {
                None
            },
        }
    }

    /// Ends the document: empties both buffers and returns the chunk for the
    /// parsed document, where there is one.
    pub fn finish(&mut self, parsed: Option<JsonValue>) -> (r: Option<UiChunk>)
        ensures
            final(self).response_buffer@ == Seq::<char>::empty(),
            final(self).text_buffer@ == Seq::<char>::empty(),
            final(self).wf(),
            match parsed {
                Some(v) => r is Some && r.unwrap()@ == ChunkView::Json(v),
                None => r is None,
            },
    {
        self.response_buffer = String::new();
        self.text_buffer = String::new();
        match parsed {
            Some(v) => Some(UiChunk::Json(v)),
            None => None,
        }
    }

    /// Takes one decoded line: an optional response fragment and the marker
    /// of the last line.
    pub fn push_fragment(&mut self, response: Option<&str>, done: bool) -> (out: Vec<UiChunk>)
        ensures
            chunk_views(out@) == step_chunks(
                old(self).text_buffer@,
                old(self).response_buffer@,
                opt_chars(response),
                done,
                json_document(grown(old(self).response_buffer@, opt_chars(response))),
            ),
            final(self).response_buffer@ == step_response(
                old(self).response_buffer@,
                opt_chars(response),
                done,
            ),
            final(self).text_buffer@ == step_text(
                old(self).text_buffer@,
                old(self).response_buffer@,
                opt_chars(response),
                done,
            ),
            old(self).wf() ==> final(self).wf(),
    {
        let mut out: Vec<UiChunk> = Vec::new();
        if let Some(fragment) = response {
            if let Some(added) = self.absorb(fragment) {
                out.push(UiChunk::Text(added));
            }
        }
        if done {
            let parsed = if self.response_buffer.as_str().unicode_len() > 0 {
                parse_json(self.response_buffer.as_str())
            } else {
                None
            };
            if let Some(chunk) = self.finish(parsed) {
                out.push(chunk);
            }
        }
        out
    }

    /// Takes one line as a JSON value: its string member `response`, if any,
    /// is the fragment, and the line is the last one where its member `done`
    /// is the boolean `true`.
    pub fn push_value(&mut self, val: &JsonValue) -> (out: Vec<UiChunk>)
        ensures
            chunk_views(out@) == step_chunks(
                old(self).text_buffer@,
                old(self).response_buffer@,
                val.text_member("response"@),
                val.truth_member("done"@) == Some(true),
                json_document(
                    grown(old(self).response_buffer@, val.text_member("response"@)),
                ),
            ),
            final(self).response_buffer@ == step_response(
                old(self).response_buffer@,
                val.text_member("response"@),
                val.truth_member("done"@) == Some(true),
            ),
            final(self).text_buffer@ == step_text(
                old(self).text_buffer@,
                old(self).response_buffer@,
                val.text_member("response"@),
                val.truth_member("done"@) == Some(true),
            ),
            old(self).wf() ==> final(self).wf(),
    {
        let response: Option<&str> = match val.get("response") {
            Some(v) => v.as_str(),
            None => None,
        };
        let done: bool = match val.get("done") {
            Some(v) => match v.as_bool() {
                Some(b) => b,
                None => false,
            },
            None => false,
        };
        self.push_fragment(response, done)
    }

    /// Takes the data of one line of the stream and returns the chunks that
    /// are ready.
    ///
    /// A line of whitespace only, and a line that is not a JSON document,
    /// changes nothing and yields nothing.
    pub fn push_sse_line(&mut self, line: &str) -> (out: Vec<UiChunk>)
        ensures
            all_spaces(line@) ==> *final(self) == *old(self) && out@.len() == 0,
            line_content(line@) is None ==> *final(self) == *old(self) && out@.len() == 0,
            chunk_views(out@) == line_chunks(
                old(self).text_buffer@,
                old(self).response_buffer@,
                line@,
            ),
            final(self).response_buffer@ == line_response(old(self).response_buffer@, line@),
            final(self).text_buffer@ == line_text(
                old(self).text_buffer@,
                old(self).response_buffer@,
                line@,
            ),
            old(self).wf() ==> final(self).wf(),
    {
        let trimmed = trim_chars(&chars_of(line));
        proof {
            lemma_trim_empty(line@);
        }
        if trimmed.len() == 0 {
            let out: Vec<UiChunk> = Vec::new();
            return out;
        }
        let text = string_of(&trimmed);
        match parse_json(text.as_str()) {
            Some(val) => self.push_value(&val),
            None => {
                let out: Vec<UiChunk> = Vec::new();
                out
            },
        }
    }
}

/// The fragments of a stream, joined.
pub open spec fn concat(frags: Seq<Seq<char>>) -> Seq<char>
    decreases frags.len(),
{
    if frags.len() == 0 {
        Seq::empty()
    } else {
        frags[0] + concat(frags.drop_first())
    }
}

/// The text that a list of chunks carries: what its text chunks hold, joined.
pub open spec fn emitted_text(chunks: Seq<ChunkView>) -> Seq<char>
    decreases chunks.len(),
{
    if chunks.len() == 0 {
        Seq::empty()
    } else {
        (match chunks[0] {
            ChunkView::Text(t) => t,
            _ => Seq::empty(),
        }) + emitted_text(chunks.drop_first())
    }
}

/// Whether every chunk of a list is a text chunk.
pub open spec fn all_text(chunks: Seq<ChunkView>) -> bool {
    forall|i: int| 0 <= i < chunks.len() ==> (#[trigger] chunks[i]) is Text
}

/// The chunks that come out when the fragments are pushed one after another,
/// the last of them marked as done, into an assembler whose buffers hold
/// `buf` and `seen`.
pub open spec fn stream_chunks(seen: Seq<char>, buf: Seq<char>, frags: Seq<Seq<char>>) -> Seq<
    ChunkView,
>
    decreases frags.len(),
{
    if frags.len() == 0 {
        Seq::empty()
    } else {
        let done = frags.len() == 1;
        step_chunks(seen, buf, Some(frags[0]), done, json_document(buf + frags[0]))
            + stream_chunks(
            step_text(seen, buf, Some(frags[0]), done),
            step_response(buf, Some(frags[0]), done),
            frags.drop_first(),
        )
    }
}

proof fn lemma_emitted_text_concat(a: Seq<ChunkView>, b: Seq<ChunkView>)
    ensures
        emitted_text(a + b) == emitted_text(a) + emitted_text(b),
    decreases a.len(),
{
    if a.len() > 0 {
        assert((a + b).drop_first() =~= a.drop_first() + b);
        lemma_emitted_text_concat(a.drop_first(), b);
    }
}

/// One push into a well-formed assembler emits exactly what the decoded text
/// gained.
proof fn lemma_text_part(seen: Seq<char>, buf: Seq<char>, f: Seq<char>)
    requires
        seen == decoded_text(buf),
    ensures
        seen + emitted_text(text_part(seen, buf, Some(f))) == decoded_text(buf + f),
        all_text(text_part(seen, buf, Some(f))),
        step_text(seen, buf, Some(f), false) == decoded_text(buf + f),
{
    lemma_extract_extends(buf, f);
    let part = text_part(seen, buf, Some(f));
    if part.len() > 0 {
        assert(emitted_text(part.drop_first()) =~= Seq::<char>::empty());
    }
}

proof fn lemma_stream(seen: Seq<char>, buf: Seq<char>, frags: Seq<Seq<char>>)
    requires
        seen == decoded_text(buf),
        frags.len() > 0,
    ensures
        ({
            let whole = buf + concat(frags);
            let out = stream_chunks(seen, buf, frags);
            &&& seen + emitted_text(out) == decoded_text(whole)
            &&& match json_document(whole) {
                Some(doc) => if whole.len() > 0 {
                    out.len() > 0 && out.last() == ChunkView::Json(doc) && all_text(
                        out.drop_last(),
                    )
                } else {
                    all_text(out)
                },
                None => all_text(out),
            }
        }),
    decreases frags.len(),
{
    let f = frags[0];
    let rest = frags.drop_first();
    let whole = buf + concat(frags);
    let out = stream_chunks(seen, buf, frags);
    let texts = text_part(seen, buf, Some(f));
    lemma_text_part(seen, buf, f);
    if frags.len() == 1 {
        let json = json_part(buf + f, true, json_document(buf + f));
        assert(stream_chunks(Seq::empty(), Seq::empty(), rest) =~= Seq::<ChunkView>::empty());
        lemma_emitted_text_concat(texts, json);
        assert(emitted_text(json) =~= Seq::<char>::empty()) by {
            if json.len() > 0 {
                assert(json.drop_first() =~= Seq::<ChunkView>::empty());
            }
        }
    } else {
        let next_buf = buf + f;
        let next_seen = decoded_text(next_buf);
        assert(whole =~= next_buf + concat(rest));
        lemma_stream(next_seen, next_buf, rest);
        let tail = stream_chunks(next_seen, next_buf, rest);
        lemma_emitted_text_concat(texts, tail);
        if tail.len() > 0 && tail.last() is Json {
            assert(out.drop_last() =~= texts + tail.drop_last());
        }
    }
}

/// A stream of fragments pushed into a new assembler, the last one marked as
/// done, emits text deltas that join to the text value decoded from the
/// joined fragments. Where the joined fragments are a JSON document, the
/// deltas are followed by exactly one JSON chunk, which holds that document;
/// otherwise nothing but text is emitted.
pub proof fn law_stream_text_then_json(frags: Seq<Seq<char>>)
    requires
        frags.len() > 0,
    ensures
        ({
            let whole = concat(frags);
            let out = stream_chunks(Seq::empty(), Seq::empty(), frags);
            &&& emitted_text(out) == decoded_text(whole)
            &&& match json_document(whole) {
                Some(doc) => if whole.len() > 0 {
                    out.len() > 0 && out.last() == ChunkView::Json(doc) && all_text(
                        out.drop_last(),
                    )
                } else {
                    all_text(out)
                },
                None => all_text(out),
            }
        }),
{
    let nothing = Seq::<char>::empty();
    lemma_stream(nothing, nothing, frags);
}

} // verus!
