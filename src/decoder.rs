//! The guest event protocol: a container's combined output is split into
//! lines; a line holding the sentinel marker carries one JSON value after the
//! marker, every other non-empty line is ordinary program output.
use vstd::prelude::*;

verus! {

/// serde_json's `Value`, carried opaque as the parsed form of an event.
#[verifier::external_type_specification]
#[verifier::external_body]
pub struct ExJsonValue(serde_json::Value);

/// The sentinel that introduces a structured event on a line of guest output.
pub const EVENT_MARKER: &'static str = "__SYSCORE_EVENT__";

pub open spec fn marker() -> Seq<char> {
    "__SYSCORE_EVENT__"@
}

/// Whether `s` is JSON text that `serde_json` accepts as a value.
pub uninterp spec fn json_valid(s: Seq<char>) -> bool;

/// The text that lossy UTF-8 decoding makes of `b`.
pub uninterp spec fn utf8_lossy(b: Seq<u8>) -> Seq<char>;

/// One decoded event of a job's trace.
#[derive(Debug)]
pub enum StreamEvent {
    /// A line of ordinary program output.
    Stdout { content: String },
    /// A structured event: the text after the marker and its parsed value.
    Runtime { payload: String, value: serde_json::Value },
}

/// What an event says, without the parsed value.
pub enum EventView {
    Stdout(Seq<char>),
    Runtime(Seq<char>),
}

impl View for StreamEvent {
    type V = EventView;

    open spec fn view(&self) -> EventView {
        match self {
            StreamEvent::Stdout { content } => EventView::Stdout(content@),
            StreamEvent::Runtime { payload, .. } => EventView::Runtime(payload@),
        }
    }
}

pub open spec fn events_view(v: Seq<StreamEvent>) -> Seq<EventView> {
    v.map_values(|e: StreamEvent| e@)
}

/// First position at or after `k` where the marker starts in `l`.
pub open spec fn find_marker_from(l: Seq<char>, k: nat) -> Option<nat>
    decreases l.len() - k,
{
    if k >= l.len() || k + marker().len() > l.len() {
        None
    } else if l.subrange(k as int, (k + marker().len()) as int) == marker() {
        Some(k)
    } else {
        find_marker_from(l, k + 1)
    }
}

/// The events a single line yields: none for an empty line or a marker line
/// whose payload is not JSON, one otherwise.
pub open spec fn line_events(l: Seq<char>) -> Seq<EventView> {
    if l.len() == 0 {
        Seq::empty()
    } else {
        match find_marker_from(l, 0) {
            Some(k) => {
                let p = l.subrange((k + marker().len()) as int, l.len() as int);
                if json_valid(p) {
                    seq![EventView::Runtime(p)]
                } else {
                    Seq::empty()
                }
            },
            None => seq![EventView::Stdout(l)],
        }
    }
}

/// The pieces of `s` between newlines, as `str::split('\n')` yields them.
pub open spec fn lines_of(s: Seq<char>) -> Seq<Seq<char>>
    decreases s.len(),
{
    if s.len() == 0 {
        seq![Seq::empty()]
    } else {
        let r = lines_of(s.drop_last());
        if s.last() == '\n' {
            r.push(Seq::empty())
        } else {
            r.update(r.len() - 1, r.last().push(s.last()))
        }
    }
}

pub open spec fn events_of_lines(ls: Seq<Seq<char>>) -> Seq<EventView>
    decreases ls.len(),
{
    if ls.len() == 0 {
        Seq::empty()
    } else {
        events_of_lines(ls.drop_last()) + line_events(ls.last())
    }
}

/// The events that a piece of output text decodes to, in line order.
pub open spec fn decode_spec(s: Seq<char>) -> Seq<EventView> {
    events_of_lines(lines_of(s))
}

pub proof fn lemma_lines_nonempty(s: Seq<char>)
    ensures
        lines_of(s).len() >= 1,
    decreases s.len(),
{
    if s.len() > 0 {
        lemma_lines_nonempty(s.drop_last());
    }
}

pub proof fn lemma_find_marker_bounds(l: Seq<char>, k: nat)
    ensures
        find_marker_from(l, k) matches Some(j) ==> k <= j < l.len(),
    decreases l.len() - k,
{
    if !(k >= l.len() || k + marker().len() > l.len()) && l.subrange(k as int, (k + marker().len()) as int) != marker() {
        lemma_find_marker_bounds(l, k + 1);
    }
}

pub proof fn lemma_events_of_concat(a: Seq<Seq<char>>, b: Seq<Seq<char>>)
    ensures
        events_of_lines(a + b) == events_of_lines(a) + events_of_lines(b),
    decreases b.len(),
{
    if b.len() == 0 {
        assert(a + b =~= a);
        assert(events_of_lines(a) + events_of_lines(b) =~= events_of_lines(a));
    } else {
        lemma_events_of_concat(a, b.drop_last());
        assert((a + b).drop_last() =~= a + b.drop_last());
        assert(events_of_lines(a) + events_of_lines(b) =~= events_of_lines(a) + events_of_lines(
            b.drop_last(),
        ) + line_events(b.last()));
    }
}

/// A marker line whose payload is not JSON is dropped without a trace:
/// the lines around it decode exactly as they would without it.
pub proof fn lemma_malformed_line_dropped(
    before: Seq<Seq<char>>,
    bad: Seq<char>,
    after: Seq<Seq<char>>,
)
    requires
        find_marker_from(bad, 0) matches Some(k) && !json_valid(
            bad.subrange((k + marker().len()) as int, bad.len() as int),
        ),
    ensures
        events_of_lines(before + seq![bad] + after) == events_of_lines(before + after),
{
    lemma_events_of_concat(before + seq![bad], after);
    lemma_events_of_concat(before, seq![bad]);
    lemma_events_of_concat(before, after);
    lemma_find_marker_bounds(bad, 0);
    assert(bad.len() > 0);
    assert(line_events(bad) =~= Seq::<EventView>::empty());
    let one = seq![bad];
    assert(one.drop_last() =~= Seq::<Seq<char>>::empty());
    assert(one.last() == bad);
    assert(events_of_lines(one.drop_last()) =~= Seq::<EventView>::empty());
    assert(events_of_lines(one) =~= Seq::<EventView>::empty());
    assert(events_of_lines(before) + Seq::<EventView>::empty() =~= events_of_lines(before));
}

/// Relies on serde_json::from_str: parses `s` as a JSON value, `None` where
/// it is not JSON text.
#[verifier::external_body]
fn parse_json(s: &str) -> (r: Option<serde_json::Value>)
    ensures
        r.is_some() == json_valid(s@),
{
    serde_json::from_str::<serde_json::Value>(s).ok()
}

/// Relies on String::from_utf8_lossy: decodes bytes, replacing invalid
/// sequences with U+FFFD.
#[verifier::external_body]
fn lossy_text(b: &[u8]) -> (r: String)
    ensures
        r@ == utf8_lossy(b@),
        b@.len() == 0 ==> r@.len() == 0,
{
    String::from_utf8_lossy(b).into_owned()
}

/// Whether the marker starts at char position `k` of `line`.
fn marker_starts_at(line: &str, n: usize, k: usize) -> (r: bool)
    requires
        n == line@.len(),
        k + marker().len() <= n,
    ensures
        r == (line@.subrange(k as int, k + marker().len()) == marker()),
{
    proof {
        reveal_strlit("__SYSCORE_EVENT__");
    }
    let m = EVENT_MARKER.unicode_len();
    let mut j: usize = 0;
    while j < m
        invariant
            m == marker().len(),
            j <= m,
            k + m <= n,
            n == line@.len(),
            forall|t: int| 0 <= t < j ==> line@[k + t] == marker()[t],
        decreases m - j,
    {
        if line.get_char(k + j) != EVENT_MARKER.get_char(j) {
            assert(line@.subrange(k as int, k + m)[j as int] != marker()[j as int]);
            return false;
        }
        j = j + 1;
    }
    assert(line@.subrange(k as int, k + m) =~= marker());
    true
}

/// Finds the first occurrence of the marker in `line`.
fn find_marker(line: &str) -> (r: Option<usize>)
    ensures
        match r {
            Some(k) => find_marker_from(line@, 0) == Some(k as nat) && k + marker().len()
                <= line@.len(),
            None => find_marker_from(line@, 0) is None,
        },
{
    proof {
        reveal_strlit("__SYSCORE_EVENT__");
    }
    let n = line.unicode_len();
    let m = EVENT_MARKER.unicode_len();
    let mut k: usize = 0;
    while k < n && m <= n - k
        invariant
            n == line@.len(),
            m == marker().len(),
            find_marker_from(line@, 0) == find_marker_from(line@, k as nat),
        decreases n - k,
    {
        if marker_starts_at(line, n, k) {
            return Some(k);
        }
        k = k + 1;
    }
    None
}

/// The runtime event for a marker line's `payload`, given what parsing it
/// as JSON gave: an event exactly where it parsed.
pub fn runtime_event(payload: &str, parsed: Option<serde_json::Value>) -> (r: Option<StreamEvent>)
    ensures
        r.is_some() == parsed.is_some(),
        r matches Some(e) ==> e@ == EventView::Runtime(payload@),
{
    match parsed {
        Some(value) => Some(StreamEvent::Runtime { payload: payload.to_string(), value }),
        None => None,
    }
}

/// Decodes one line of output.
pub fn decode_line(line: &str) -> (r: Option<StreamEvent>)
    ensures
        match r {
            Some(e) => line_events(line@) == seq![e@],
            None => line_events(line@) == Seq::<EventView>::empty(),
        },
{
    let n = line.unicode_len();
    if n == 0 {
        return None;
    }
    match find_marker(line) {
        Some(k) => {
            proof {
                reveal_strlit("__SYSCORE_EVENT__");
            }
            let payload = line.substring_char(k + EVENT_MARKER.unicode_len(), n);
            runtime_event(payload, parse_json(payload))
        },
        None => Some(StreamEvent::Stdout { content: line.to_string() }),
    }
}

/// Decodes a piece of output text: each line in order, as `decode_line`.
pub fn decode_text(text: &str) -> (r: Vec<StreamEvent>)
    ensures
        events_view(r@) == decode_spec(text@),
{
    let n = text.unicode_len();
    let mut out: Vec<StreamEvent> = Vec::new();
    let mut start: usize = 0;
    let mut i: usize = 0;
    let ghost mut done: Seq<Seq<char>> = Seq::empty();
    assert(lines_of(text@.subrange(0, 0)) =~~= done.push(text@.subrange(0, 0)));
    while i < n
        invariant
            n == text@.len(),
            start <= i <= n,
            lines_of(text@.subrange(0, i as int)) == done.push(text@.subrange(start as int, i as int)),
            events_view(out@) == events_of_lines(done),
        decreases n - i,
    {
        let c = text.get_char(i);
        let ghost pre = text@.subrange(0, i as int + 1);
        assert(pre.drop_last() =~= text@.subrange(0, i as int));
        assert(pre.last() == c);
        proof {
            lemma_lines_nonempty(pre.drop_last());
        }
        if c == '\n' {
            let line = text.substring_char(start, i);
            let ev = decode_line(line);
            proof {
                let d2 = done.push(line@);
                assert(d2.drop_last() =~= done);
                assert(events_of_lines(d2) == events_of_lines(done) + line_events(line@));
            }
            match ev {
                Some(e) => {
                    out.push(e);
                },
                None => {},
            }
            proof {
                let d2 = done.push(line@);
                assert(events_view(out@) =~= events_of_lines(d2));
                done = d2;
            }
            start = i + 1;
            assert(text@.subrange(start as int, i as int + 1) =~= Seq::<char>::empty());
            assert(lines_of(pre) =~= done.push(text@.subrange(start as int, i as int + 1)));
        } else {
            assert(text@.subrange(start as int, i as int + 1) =~= text@.subrange(start as int, i as int).push(c));
            assert(lines_of(pre) =~= done.push(text@.subrange(start as int, i as int + 1)));
        }
        i = i + 1;
    }
    let last = text.substring_char(start, n);
    let ev = decode_line(last);
    proof {
        let d2 = done.push(last@);
        assert(d2.drop_last() =~= done);
        assert(text@.subrange(0, n as int) =~= text@);
    }
    match ev {
        Some(e) => {
            out.push(e);
        },
        None => {},
    }
    proof {
        let d2 = done.push(last@);
        assert(events_view(out@) =~= events_of_lines(d2));
    }
    out
}

/// Decodes one chunk of raw output bytes.
pub fn decode_chunk(chunk: &[u8]) -> (r: Vec<StreamEvent>)
    ensures
        events_view(r@) == decode_spec(utf8_lossy(chunk@)),
{
    let text = lossy_text(chunk);
    decode_text(text.as_str())
}

} // verus!
