//! Framing of an event stream: records end with a blank line, and within a
//! record the lines that start with `data: ` carry the payload.

use crate::text::{
    chars_of, find_exec, find_from, index_of, index_of_exec, lemma_find_from, lemma_index_of,
    slice_of, string_of, string_views, without_return,
};
use vstd::prelude::*;

verus! {

/// The mark that ends a record: two line feeds.
pub open spec fn record_end() -> Seq<char> {
    seq!['\n', '\n']
}

/// The prefix of a line that carries data.
pub open spec fn data_prefix() -> Seq<char> {
    seq!['d', 'a', 't', 'a', ':', ' ']
}

/// The payload of a line: what follows `data: `, for a line that starts with
/// it. A carriage return at the end of the line is not part of the payload.
pub open spec fn line_payload(line: Seq<char>) -> Option<Seq<char>> {
    let l = without_return(line);
    if data_prefix().is_prefix_of(l) {
        Some(l.skip(6))
    } else {
        None
    }
}

/// The payloads of the lines of `record` from index `from` on, in order.
pub open spec fn payloads_from(record: Seq<char>, from: int) -> Seq<Seq<char>>
    decreases record.len() - from,
{
    if from < 0 || from > record.len() {
        Seq::empty()
    } else {
        match index_of(record, '\n', from) {
            Some(end) => if from <= end < record.len() {
                payload_list(record.subrange(from, end)) + payloads_from(record, end + 1)
            } else {
                Seq::empty()
            },
            None => payload_list(record.subrange(from, record.len() as int)),
        }
    }
}

/// The payload of a line as a list of one element or none.
pub open spec fn payload_list(line: Seq<char>) -> Seq<Seq<char>> {
    match line_payload(line) {
        Some(p) => seq![p],
        None => Seq::empty(),
    }
}

/// The payloads of the complete records of `buf` from index `from` on, in
/// order.
pub open spec fn buffer_payloads(buf: Seq<char>, from: int) -> Seq<Seq<char>>
    decreases buf.len() - from,
{
    match find_from(buf, record_end(), from) {
        Some(p) => if from <= p && p + 2 <= buf.len() {
            payloads_from(buf.subrange(from, p), 0) + buffer_payloads(buf, p + 2)
        } else {
            Seq::empty()
        },
        None => Seq::empty(),
    }
}

/// What is left of `buf` behind its last complete record, looking from index
/// `from` on.
pub open spec fn buffer_rest(buf: Seq<char>, from: int) -> Seq<char>
    decreases buf.len() - from,
{
    match find_from(buf, record_end(), from) {
        Some(p) => if from <= p && p + 2 <= buf.len() {
            buffer_rest(buf, p + 2)
        } else {
            buf.skip(from)
        },
        None => buf.skip(from),
    }
}

fn record_end_chars() -> (v: Vec<char>)
    ensures
        v@ == record_end(),
{
    let mut v: Vec<char> = Vec::new();
    v.push('\n');
    v.push('\n');
    v
}

/// Whether `v[from..to]` starts with `data: `.
fn has_data_prefix(v: &Vec<char>, from: usize, to: usize) -> (r: bool)
    requires
        from <= to <= v.len(),
    ensures
        r == data_prefix().is_prefix_of(v@.subrange(from as int, to as int)),
{
    if to - from < 6 {
        return false;
    }
    v[from] == 'd' && v[from + 1] == 'a' && v[from + 2] == 't' && v[from + 3] == 'a' && v[from
        + 4] == ':' && v[from + 5] == ' '
}

/// Appends the payload of the line `v[from..to]`, if it has one.
fn push_line_payload(out: &mut Vec<String>, v: &Vec<char>, from: usize, to: usize)
    requires
        from <= to <= v.len(),
    ensures
        string_views(final(out)@) == string_views(old(out)@) + payload_list(
            v@.subrange(from as int, to as int),
        ),
{
    let ghost line = v@.subrange(from as int, to as int);
    let end: usize = if to > from && v[to - 1] == '\r' {
        to - 1
    } else {
        to
    };
    if has_data_prefix(v, from, end) {
        let payload = string_of(&slice_of(v, from + 6, end));
        assert(payload@ =~= without_return(line).skip(6));
        out.push(payload);
    }
}

/// Appends the payloads of the lines of the record `v[from..to]`.
fn push_record_payloads(out: &mut Vec<String>, v: &Vec<char>, from: usize, to: usize)
    requires
        from <= to <= v.len(),
    ensures
        string_views(final(out)@) == string_views(old(out)@) + payloads_from(
            v@.subrange(from as int, to as int),
            0,
        ),
{
    let record = slice_of(v, from, to);
    let mut at: usize = 0;
    loop
        invariant_except_break
            at <= record.len(),
            record@ == v@.subrange(from as int, to as int),
            string_views(out@) + payloads_from(record@, at as int) == string_views(old(out)@)
                + payloads_from(record@, 0),
        ensures
            string_views(out@) == string_views(old(out)@) + payloads_from(record@, 0),
        decreases record.len() - at,
    {
        match index_of_exec(&record, '\n', at) {
            Some(end) => {
                proof {
                    lemma_index_of(record@, '\n', at as int);
                }
                push_line_payload(out, &record, at, end);
                at = end + 1;
            },
            None => {
                push_line_payload(out, &record, at, record.len());
                break;
            },
        }
    }
}

/// Splits a buffer into the payloads of its complete records and the rest
/// that is left behind them.
pub fn split_payloads(buf: &str) -> (r: (Vec<String>, String))
    ensures
        string_views(r.0@) == buffer_payloads(buf@, 0),
        r.1@ == buffer_rest(buf@, 0),
{
    let v = chars_of(buf);
    let mark = record_end_chars();
    let mut out: Vec<String> = Vec::new();
    let mut at: usize = 0;
    loop
        invariant_except_break
            at <= v.len(),
            v@ == buf@,
            mark@ == record_end(),
            string_views(out@) + buffer_payloads(v@, at as int) == buffer_payloads(v@, 0),
            buffer_rest(v@, at as int) == buffer_rest(v@, 0),
        ensures
            at <= v.len(),
            v@ == buf@,
            string_views(out@) == buffer_payloads(v@, 0),
            v@.skip(at as int) == buffer_rest(v@, 0),
        decreases v.len() - at,
    {
        match find_exec(&v, &mark, at) {
            Some(p) => {
                proof {
                    lemma_find_from(v@, mark@, at as int);
                }
                push_record_payloads(&mut out, &v, at, p);
                at = p + 2;
            },
            None => {
                break;
            },
        }
    }
    let rest = string_of(&slice_of(&v, at, v.len()));
    (out, rest)
}

} // verus!
