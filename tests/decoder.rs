use syscore::decoder::{decode_chunk, decode_line, decode_text, runtime_event, StreamEvent, EVENT_MARKER};

fn stdout_of(e: &StreamEvent) -> Option<&str> {
    match e {
        StreamEvent::Stdout { content } => Some(content.as_str()),
        StreamEvent::Runtime { .. } => None,
    }
}

#[test]
fn decodes_stdout_and_runtime_events_in_order() {
    let text = format!("line1\n{}{{\"type\":\"ProcessExit\",\"code\":0}}\nline2\n", EVENT_MARKER);
    let events = decode_chunk(text.as_bytes());
    assert_eq!(events.len(), 3);
    assert_eq!(stdout_of(&events[0]), Some("line1"));
    match &events[1] {
        StreamEvent::Runtime { payload, value } => {
            assert_eq!(payload, "{\"type\":\"ProcessExit\",\"code\":0}");
            assert_eq!(value["type"], "ProcessExit");
            assert_eq!(value["code"], 0);
        }
        StreamEvent::Stdout { .. } => panic!("expected a runtime event"),
    }
    assert_eq!(stdout_of(&events[2]), Some("line2"));
}

#[test]
fn malformed_payload_is_dropped() {
    let text = format!("before\n{}{{not json\nafter", EVENT_MARKER);
    let events = decode_text(&text);
    assert_eq!(events.len(), 2);
    assert_eq!(stdout_of(&events[0]), Some("before"));
    assert_eq!(stdout_of(&events[1]), Some("after"));
}

#[test]
fn empty_lines_are_skipped() {
    let events = decode_text("\n\na\n\n");
    assert_eq!(events.len(), 1);
    assert_eq!(stdout_of(&events[0]), Some("a"));
    assert!(decode_text("").is_empty());
}

#[test]
fn text_before_marker_is_ignored() {
    let line = format!("noise {}[1,2]", EVENT_MARKER);
    match decode_line(&line) {
        Some(StreamEvent::Runtime { payload, value }) => {
            assert_eq!(payload, "[1,2]");
            assert_eq!(value, serde_json::Value::from(vec![1, 2]));
        }
        _ => panic!("expected a runtime event"),
    }
}

#[test]
fn empty_line_decodes_to_nothing() {
    assert!(decode_line("").is_none());
}

#[test]
fn payload_runs_to_end_of_line() {
    let line = format!("{}\"a{}b\"", EVENT_MARKER, EVENT_MARKER);
    match decode_line(&line) {
        Some(StreamEvent::Runtime { payload, .. }) => {
            assert_eq!(payload, format!("\"a{}b\"", EVENT_MARKER));
        }
        _ => panic!("expected a runtime event"),
    }
}

#[test]
fn deterministic_output_decodes_the_same_every_time() {
    for _ in 0..3 {
        let events = decode_chunk(b"4\n");
        assert_eq!(events.len(), 1);
        assert_eq!(stdout_of(&events[0]), Some("4"));
    }
}

#[test]
fn invalid_utf8_is_replaced_not_rejected() {
    let events = decode_chunk(&[b'a', 0xff, b'b', b'\n']);
    assert_eq!(events.len(), 1);
    assert_eq!(stdout_of(&events[0]), Some("a\u{fffd}b"));
}

#[test]
fn carriage_returns_stay_in_the_line() {
    let events = decode_text("x\r\ny");
    assert_eq!(events.len(), 2);
    assert_eq!(stdout_of(&events[0]), Some("x\r"));
}

#[test]
fn runtime_event_only_for_parsed_payloads() {
    assert!(runtime_event("{}", None).is_none());
    match runtime_event("{}", Some(serde_json::Value::Null)) {
        Some(StreamEvent::Runtime { payload, .. }) => assert_eq!(payload, "{}"),
        _ => panic!("expected a runtime event"),
    }
}
