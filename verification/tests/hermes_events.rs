use hermes_search_agent::error::SearchError;
use hermes_search_agent::hermes::{
    accept_run_id, capabilities_from, http_error, is_success, require_research_capabilities, split_sse_frames,
    terminal_event, CompletedRun, HermesApi, HermesCapabilities, SseEvent,
};
use hermes_search_agent::json::Json;

fn to_json(v: &serde_json::Value) -> Json {
    match v {
        serde_json::Value::Null => Json::Null,
        serde_json::Value::Bool(b) => Json::Bool(*b),
        serde_json::Value::Number(n) => Json::Number(n.to_string()),
        serde_json::Value::String(s) => Json::Str(s.clone()),
        serde_json::Value::Array(items) => Json::Array(items.iter().map(to_json).collect()),
        serde_json::Value::Object(map) => Json::Object(map.iter().map(|(k, v)| (k.clone(), to_json(v))).collect()),
    }
}

fn parse_terminal_event(body: &str) -> Result<CompletedRun, SearchError> {
    let events = split_sse_frames(body)
        .into_iter()
        .map(|frame| SseEvent {
            event: frame.event,
            payload: serde_json::from_str::<serde_json::Value>(&frame.data).ok().map(|v| to_json(&v)),
        })
        .collect();
    terminal_event(events)
}

#[test]
fn parses_completed_sse() {
    let body = "event: tool.started\ndata: {\"tool\":\"web_search\"}\n\n\
                event: run.completed\ndata: {\"event\":\"run.completed\",\"content\":\"answer\"}\n\n";
    let completed = parse_terminal_event(body).expect("completed run");
    assert_eq!(completed.content, "answer");
}

#[test]
fn parses_final_response_fallback() {
    let body = "event: run.completed\ndata: {\"event\":\"run.completed\",\"final_response\":\"answer\"}\n\n";
    let completed = parse_terminal_event(body).expect("completed run");
    assert_eq!(completed.content, "answer");
}

#[test]
fn rejects_failed_sse() {
    let body = "event: run.failed\ndata: {\"error\":\"boom\"}\n\n";
    let error = parse_terminal_event(body).err().expect("failed run");
    assert!(error.describe().contains("boom"));
}

#[test]
fn frames_join_data_lines_and_keep_last_event_name() {
    let frames = split_sse_frames("event: a\r\nevent: b\r\ndata: one\r\ndata:  two\r\n\r\n: comment only\n\n");
    assert_eq!(frames.len(), 1);
    assert_eq!(frames[0].event.as_deref(), Some("b"));
    assert_eq!(frames[0].data, "one\ntwo");
}

#[test]
fn event_name_falls_back_to_payload_event() {
    let body = "data: {\"event\":\"run.completed\",\"output\":[{\"text\":\"part one\"},{\"content\":\"part two\"}]}\n\n";
    let completed = parse_terminal_event(body).expect("completed run");
    assert_eq!(completed.content, "part one\npart two");
}

#[test]
fn last_assistant_message_is_the_answer() {
    let body = "event: run.completed\ndata: {\"messages\":[{\"role\":\"assistant\",\"content\":\"first\"},{\"role\":\"user\",\"content\":\"q\"},{\"role\":\"assistant\",\"content\":\"last\"}]}\n\n";
    let completed = parse_terminal_event(body).expect("completed run");
    assert_eq!(completed.content, "last");
}

#[test]
fn completed_without_text_is_a_protocol_error() {
    let body = "event: run.completed\ndata: {\"content\":\"   \"}\n\n";
    match parse_terminal_event(body) {
        Err(SearchError::HermesProtocol(m)) => assert_eq!(m, "run.completed did not contain a final assistant response"),
        _ => panic!("expected a protocol error"),
    }
}

#[test]
fn stream_without_terminal_event_is_a_protocol_error() {
    let body = "event: tool.started\ndata: {\"tool\":\"web_search\"}\n\ndata: not json\n\n";
    match parse_terminal_event(body) {
        Err(SearchError::HermesProtocol(m)) => assert_eq!(m, "Hermes event stream ended without a terminal run event"),
        _ => panic!("expected a protocol error"),
    }
}

#[test]
fn failure_without_error_reports_its_name_and_completion_wins() {
    match parse_terminal_event("event: run.cancelled\ndata: {}\n\n") {
        Err(SearchError::HermesRun(m)) => assert_eq!(m, "run.cancelled"),
        _ => panic!("expected a run error"),
    }
    let body = "event: run.failed\ndata: {\"error\":\"x\"}\n\nevent: run.completed\ndata: {\"content\":\"done\"}\n\n";
    assert_eq!(parse_terminal_event(body).expect("completed").content, "done");
}

#[test]
fn api_urls_drop_trailing_slashes() {
    let api = HermesApi::new("http://127.0.0.1:8643//", "key");
    assert_eq!(api.base_url, "http://127.0.0.1:8643");
    assert_eq!(api.url("/v1/capabilities"), "http://127.0.0.1:8643/v1/capabilities");
    assert_eq!(api.run_events_url("r1"), "http://127.0.0.1:8643/v1/runs/r1/events");
    assert_eq!(api.run_stop_url("r1"), "http://127.0.0.1:8643/v1/runs/r1/stop");
}

#[test]
fn capabilities_are_read_from_features() {
    let payload: serde_json::Value =
        serde_json::from_str("{\"features\":{\"run_submission\":true,\"run_events_sse\":true,\"run_stop\":\"yes\"}}").unwrap();
    let caps = capabilities_from(&to_json(&payload)).expect("features present");
    assert!(caps.run_submission && caps.run_events_sse && !caps.run_stop);
    match require_research_capabilities(caps) {
        Err(SearchError::HermesProtocol(m)) => assert_eq!(m, "Hermes is missing required capabilities: run_stop"),
        _ => panic!("run_stop is missing"),
    }
    let missing: serde_json::Value = serde_json::from_str("{\"features\":[]}").unwrap();
    match capabilities_from(&to_json(&missing)) {
        Err(SearchError::HermesProtocol(m)) => assert_eq!(m, "capabilities.features is missing"),
        _ => panic!("features must be an object"),
    }
}

#[test]
fn all_missing_capabilities_are_listed() {
    let none = HermesCapabilities { run_submission: false, run_events_sse: false, run_stop: false };
    match require_research_capabilities(none) {
        Err(e) => assert_eq!(
            e.describe(),
            "Hermes protocol error: Hermes is missing required capabilities: run_submission, run_events_sse, run_stop"
        ),
        Ok(_) => panic!("nothing is supported"),
    }
    let all = HermesCapabilities { run_submission: true, run_events_sse: true, run_stop: true };
    assert!(require_research_capabilities(all).is_ok());
}

#[test]
fn run_ids_and_statuses() {
    assert_eq!(accept_run_id("run_1".to_string()).unwrap(), "run_1");
    assert!(matches!(accept_run_id(" ".to_string()), Err(SearchError::HermesProtocol(_))));
    assert!(is_success(200) && is_success(299) && !is_success(300) && !is_success(199));
    assert_eq!(http_error(503, None).describe(), "Hermes API returned HTTP 503: <failed to read Hermes error body>");
    assert_eq!(http_error(401, Some("denied".into())).describe(), "Hermes API returned HTTP 401: denied");
}
