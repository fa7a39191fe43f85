use syscore::decoder::decode_text;
use syscore::trace::{event_json, first_setting, trace_envelope, traces_endpoint, upload_outcome};

#[test]
fn stdout_event_is_escaped_json() {
    let events = decode_text("say \"hi\"\\");
    assert_eq!(event_json(&events[0]), "{\"type\":\"Stdout\",\"content\":\"say \\\"hi\\\"\\\\\"}");
}

#[test]
fn envelope_holds_id_and_events_in_order() {
    let text = "a\n__SYSCORE_EVENT__ {\"type\":\"Line\",\"line\":3}\nb";
    let events = decode_text(text);
    let body = trace_envelope("id-7", &events);
    assert_eq!(
        body,
        "{\"job_id\":\"id-7\",\"trace_data\":[{\"type\":\"Stdout\",\"content\":\"a\"}, {\"type\":\"Line\",\"line\":3},{\"type\":\"Stdout\",\"content\":\"b\"}]}"
    );
    let parsed: serde_json::Value = serde_json::from_str(&body).unwrap();
    assert_eq!(parsed["job_id"], "id-7");
    assert_eq!(parsed["trace_data"].as_array().unwrap().len(), 3);
    assert_eq!(parsed["trace_data"][1]["line"], 3);
}

#[test]
fn empty_trace_envelope() {
    assert_eq!(trace_envelope("x", &Vec::new()), "{\"job_id\":\"x\",\"trace_data\":[]}");
}

#[test]
fn endpoint_and_settings() {
    assert_eq!(traces_endpoint("https://db.example"), "https://db.example/rest/v1/execution_traces");
    assert_eq!(first_setting(Some("a".to_string()), Some("b".to_string())), Some("a".to_string()));
    assert_eq!(first_setting(None, Some("b".to_string())), Some("b".to_string()));
    assert_eq!(first_setting(None, None), None);
}

#[test]
fn store_replies() {
    assert_eq!(upload_outcome("j1", true, ""), Ok("Trace uploaded for job j1".to_string()));
    assert_eq!(
        upload_outcome("j1", false, "denied"),
        Err("Supabase upload failed: denied".to_string())
    );
}

#[test]
fn control_chars_are_escaped() {
    let events = decode_text("a\tb\u{1}c\u{8}\u{c}\r\u{1f}é");
    assert_eq!(
        event_json(&events[0]),
        "{\"type\":\"Stdout\",\"content\":\"a\\tb\\u0001c\\b\\f\\r\\u001fé\"}"
    );
}
