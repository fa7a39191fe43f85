//! The hand-off of a finished job's trace to the external trace store: the
//! request body, the endpoint, the configuration and how a reply is read.
use vstd::prelude::*;
use crate::decoder::{StreamEvent, EventView, events_view};

verus! {

/// How serde_json writes one char inside a string literal: `"`, `\`,
/// backspace, form feed, newline, carriage return and tab as two-char
/// escapes, other chars below U+0020 as `\u00xx` in lowercase hex, every
/// other char as itself.
pub open spec fn json_char_escape(c: char) -> Seq<char> {
    let hex = "0123456789abcdef"@;
    if c == '"' {
        seq!['\\', '"']
    } else if c == '\\' {
        seq!['\\', '\\']
    } else if c == '\u{8}' {
        seq!['\\', 'b']
    } else if c == '\u{c}' {
        seq!['\\', 'f']
    } else if c == '\n' {
        seq!['\\', 'n']
    } else if c == '\r' {
        seq!['\\', 'r']
    } else if c == '\t' {
        seq!['\\', 't']
    } else if (c as u32) < 0x20 {
        seq!['\\', 'u', '0', '0', hex[(c as u32) as int / 16], hex[(c as u32) as int % 16]]
    } else {
        seq![c]
    }
}

/// The escaped chars of `s`, in order.
pub open spec fn json_escaped(s: Seq<char>) -> Seq<char>
    decreases s.len(),
{
    if s.len() == 0 {
        Seq::empty()
    } else {
        json_escaped(s.drop_last()) + json_char_escape(s.last())
    }
}

/// The JSON string literal of `s`: its escaped chars between double quotes.
pub open spec fn json_quoted(s: Seq<char>) -> Seq<char> {
    seq!['"'] + json_escaped(s) + seq!['"']
}

/// Relies on serde_json's `Display` for `Value::String`, which writes the
/// compact string literal through `format_escaped_str_contents`.
#[verifier::external_body]
fn quote_json(s: &str) -> (r: String)
    ensures
        r@ == json_quoted(s@),
{
    serde_json::Value::String(s.to_string()).to_string()
}

/// The JSON text of one event: ordinary output becomes a `Stdout` object,
/// a structured event is its own payload.
pub open spec fn event_json_of(e: EventView) -> Seq<char> {
    match e {
        EventView::Stdout(c) => "{\"type\":\"Stdout\",\"content\":"@ + json_quoted(c) + "}"@,
        EventView::Runtime(p) => p,
    }
}

/// The events' JSON texts, separated by commas.
pub open spec fn joined_json(es: Seq<EventView>) -> Seq<char>
    decreases es.len(),
{
    if es.len() == 0 {
        Seq::empty()
    } else if es.len() == 1 {
        event_json_of(es[0])
    } else {
        joined_json(es.drop_last()) + ","@ + event_json_of(es.last())
    }
}

/// The upload body: the job id and the trace as a JSON array.
pub open spec fn envelope_of(job_id: Seq<char>, es: Seq<EventView>) -> Seq<char> {
    "{\"job_id\":"@ + json_quoted(job_id) + ",\"trace_data\":["@ + joined_json(es) + "]}"@
}

/// A row of the trace store's `execution_traces` table as the guest tracer
/// describes one executed line.
pub struct TraceEvent {
    pub line: i32,
    pub function: String,
    pub locals: serde_json::Value,
    pub memory_curr: u64,
    pub memory_peak: u64,
    pub stack_depth: i32,
    pub kind: String,
}

/// The JSON text of one event.
pub fn event_json(e: &StreamEvent) -> (r: String)
    ensures
        r@ == event_json_of(e@),
{
    match e {
        StreamEvent::Stdout { content } => {
            let mut s = "{\"type\":\"Stdout\",\"content\":".to_string();
            let q = quote_json(content.as_str());
            s.append(q.as_str());
            s.append("}");
            s
        },
        StreamEvent::Runtime { payload, .. } => payload.clone(),
    }
}

/// The request body that uploads `events` as the trace of job `job_id`.
pub fn trace_envelope(job_id: &str, events: &Vec<StreamEvent>) -> (r: String)
    ensures
        r@ == envelope_of(job_id@, events_view(events@)),
{
    let mut s = "{\"job_id\":".to_string();
    let q = quote_json(job_id);
    s.append(q.as_str());
    s.append(",\"trace_data\":[");
    let mut i: usize = 0;
    let ghost head = s@;
    while i < events.len()
        invariant
            i <= events@.len(),
            s@ == head + joined_json(events_view(events@.subrange(0, i as int))),
        decreases events@.len() - i,
    {
        let ghost prev = events_view(events@.subrange(0, i as int));
        let ghost cur = events_view(events@.subrange(0, i as int + 1));
        assert(cur.drop_last() =~= prev);
        assert(cur.last() == events@[i as int]@);
        if i > 0 {
            s.append(",");
        }
        let t = event_json(&events[i]);
        s.append(t.as_str());
        assert(s@ =~= head + joined_json(cur));
        i = i + 1;
    }
    assert(events@.subrange(0, events@.len() as int) =~= events@);
    s.append("]}");
    s
}

pub open spec fn endpoint_of(base: Seq<char>) -> Seq<char> {
    base + "/rest/v1/execution_traces"@
}

/// The trace store's upload endpoint under the base URL `base`.
pub fn traces_endpoint(base: &str) -> (r: String)
    ensures
        r@ == endpoint_of(base@),
{
    let mut s = base.to_string();
    s.append("/rest/v1/execution_traces");
    s
}

/// A setting read under two names: the first that is set wins.
pub fn first_setting(primary: Option<String>, fallback: Option<String>) -> (r: Option<String>)
    ensures
        r == (if primary is Some { primary } else { fallback }),
{
    match primary {
        Some(p) => Some(p),
        None => fallback,
    }
}

/// Reads the store's reply: a success status is an accepted upload, any
/// other status fails with the reply's text.
pub fn upload_outcome(job_id: &str, success: bool, reply: &str) -> (r: Result<String, String>)
    ensures
        success ==> r is Ok && r->Ok_0@ == "Trace uploaded for job "@ + job_id@,
        !success ==> r is Err && r->Err_0@ == "Supabase upload failed: "@ + reply@,
{
    if success {
        let mut s = "Trace uploaded for job ".to_string();
        s.append(job_id);
        Ok(s)
    } else {
        let mut s = "Supabase upload failed: ".to_string();
        s.append(reply);
        Err(s)
    }
}

} // verus!
