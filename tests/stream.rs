use openai_rust::decoder::chunk_payloads;
use openai_rust::stream::{deliverable, StreamDecoder, StreamState};
use openai_rust::types::{Choice, Delta, StreamResponse};

fn event(id: &str) -> StreamResponse {
    StreamResponse {
        id: id.to_string(),
        object: "chat.completion.chunk".to_string(),
        created: 1,
        model: "gpt-3.5-turbo".to_string(),
        choices: vec![Choice {
            index: 0,
            delta: Some(Delta { role: None, content: Some("hi".to_string()) }),
            finish_reason: None,
        }],
    }
}

fn is_json(text: &str) -> bool {
    serde_json::from_str::<serde_json::Value>(text).is_ok()
}

fn parse(text: &str) -> Option<StreamResponse> {
    let v: serde_json::Value = serde_json::from_str(text).ok()?;
    let id = v.get("id")?.as_str()?;
    Some(event(id))
}

fn run(chunks: &[&[u8]]) -> (Vec<StreamResponse>, StreamDecoder) {
    let mut dec = StreamDecoder::new();
    let mut out = Vec::new();
    for chunk in chunks {
        let texts = dec.on_chunk(chunk);
        let outcomes: Vec<Option<StreamResponse>> = texts.iter().map(|t| parse(t)).collect();
        out.extend(dec.on_parsed(outcomes));
    }
    dec.close();
    (out, dec)
}

#[test]
fn payloads_of_data_lines() {
    let r = chunk_payloads(b"data: {\"id\":\"1\"}\n\ndata: [DONE]\n");
    assert_eq!(r, vec!["{\"id\":\"1\"}".to_string()]);
}

#[test]
fn payload_starts_at_first_brace() {
    let r = chunk_payloads(b"x{y{z");
    assert_eq!(r, vec!["{y{z".to_string()]);
}

#[test]
fn payload_is_trimmed() {
    let r = chunk_payloads(b"data: {\"a\":1}  \r\n");
    assert_eq!(r, vec!["{\"a\":1}".to_string()]);
}

#[test]
fn payload_trims_unicode_white_space() {
    let r = chunk_payloads("data: {\"a\":1}\u{3000}\u{a0}\n".as_bytes());
    assert_eq!(r, vec!["{\"a\":1}".to_string()]);
}

#[test]
fn payload_decodes_lossily() {
    let r = chunk_payloads(b"data: {\"a\":\"\xff\"}\n");
    assert_eq!(r, vec!["{\"a\":\"\u{FFFD}\"}".to_string()]);
}

#[test]
fn empty_chunk_has_no_payload() {
    assert!(chunk_payloads(b"").is_empty());
    assert!(chunk_payloads(b"\n\n\n").is_empty());
}

#[test]
fn line_without_brace_yields_nothing() {
    let r = chunk_payloads(b": keep-alive\nevent: ping\ndata: [DONE]\n");
    assert!(r.is_empty());
    let r = chunk_payloads(b"data: {\"id\":\"1\"}\n: ping\ndata: {\"id\":\"2\"}\n");
    assert_eq!(r, vec!["{\"id\":\"1\"}".to_string(), "{\"id\":\"2\"}".to_string()]);
}

#[test]
fn invalid_line_skipped_others_kept() {
    let body: &[u8] = b"data: {\"id\":\"1\"}\ndata: {\"id\": oops\ndata: {\"id\":\"3\"}\n";
    let texts = chunk_payloads(body);
    assert_eq!(texts.len(), 3);
    assert!(!is_json(&texts[1]));
    let (events, dec) = run(&[body]);
    let ids: Vec<&str> = events.iter().map(|e| e.id.as_str()).collect();
    assert_eq!(ids, vec!["1", "3"]);
    assert_eq!(dec.delivered, 2);
    assert_eq!(dec.skipped, 1);
}

#[test]
fn chunking_at_line_boundaries_changes_nothing() {
    let whole: &[u8] = b"data: {\"id\":\"1\"}\ndata: {\"id\":\"2\"}\n: ping\ndata: {\"id\":\"3\"}\n";
    let all = chunk_payloads(whole);
    let mut parts = chunk_payloads(b"data: {\"id\":\"1\"}\ndata: ");
    parts.extend(chunk_payloads(b"{\"id\":\"2\"}\n: ping\n"));
    parts.extend(chunk_payloads(b"data: {\"id\":\"3\"}\n"));
    assert_eq!(all, parts);
}

#[test]
fn every_valid_line_delivered_in_order() {
    let chunks: [&[u8]; 3] = [
        b"data: {\"id\":\"1\"}\n",
        b"data: {\"id\":\"2\"}\ndata: {\"id\":\"3\"}\n",
        b"data: {\"id\":\"4\"}\n",
    ];
    let (events, dec) = run(&chunks);
    let ids: Vec<&str> = events.iter().map(|e| e.id.as_str()).collect();
    assert_eq!(ids, vec!["1", "2", "3", "4"]);
    assert_eq!(dec.delivered, 4);
    assert_eq!(dec.skipped, 0);
}

#[test]
fn object_split_across_chunks_is_dropped() {
    let chunks: [&[u8]; 3] = [
        b"data: {\"id\":\"1\",\"object\":\"x\"}\n",
        b"data: {\"id\":\"2\\",
        b"\",\"object\":\"x\"}\n",
    ];
    let mut dec = StreamDecoder::new();
    let first = dec.on_chunk(chunks[0]);
    assert_eq!(first.len(), 1);
    let second = dec.on_chunk(chunks[1]);
    assert_eq!(second, vec!["{\"id\":\"2\\".to_string()]);
    assert!(!is_json(&second[0]));
    let third = dec.on_chunk(chunks[2]);
    assert!(third.is_empty());
    let (events, dec) = run(&chunks);
    assert_eq!(events.len(), 1);
    assert_eq!(events[0].id, "1");
    assert_eq!(dec.skipped, 1);
}

#[test]
fn deliverable_keeps_parsed_in_order() {
    let r = deliverable(vec![Some(event("a")), None, Some(event("b")), None]);
    let ids: Vec<&str> = r.iter().map(|e| e.id.as_str()).collect();
    assert_eq!(ids, vec!["a", "b"]);
    assert!(deliverable(vec![]).is_empty());
}

#[test]
fn session_states() {
    let mut dec = StreamDecoder::new();
    assert_eq!(dec.state, StreamState::NotStarted);
    assert!(!dec.is_closed());
    let _ = dec.on_chunk(b": ping\n");
    assert_eq!(dec.state, StreamState::Streaming);
    dec.close();
    assert!(dec.is_closed());
    assert_eq!(dec.state, StreamState::Closed);
}

#[test]
fn body_error_closes_session() {
    let mut dec = StreamDecoder::new();
    let texts = dec.on_chunk(b"data: {\"id\":\"1\"}\n");
    assert_eq!(texts.len(), 1);
    dec.on_chunk_error();
    assert_eq!(dec.chunk_errors, 1);
    assert!(dec.is_closed());
    assert_eq!(dec.state, StreamState::Closed);
    assert_eq!(dec.delivered, 0);
}

#[test]
fn boundary_in_trailing_white_space_changes_nothing() {
    let whole: &[u8] = b"data: {\"id\":\"1\"} \t\r\ndata: {\"id\":\"2\"}\n";
    let all = chunk_payloads(whole);
    assert_eq!(all, vec!["{\"id\":\"1\"}".to_string(), "{\"id\":\"2\"}".to_string()]);
    let mut parts = chunk_payloads(b"data: {\"id\":\"1\"} ");
    parts.extend(chunk_payloads(b"\t\r\ndata: {\"id\":\"2\"}\n"));
    assert_eq!(all, parts);
    let chunks: [&[u8]; 3] = [b"data: {\"id\":\"1\"}", b"\ndata: {\"id\":\"2\"}", b"\n"];
    let (events, dec) = run(&chunks);
    let ids: Vec<&str> = events.iter().map(|e| e.id.as_str()).collect();
    assert_eq!(ids, vec!["1", "2"]);
    assert_eq!(dec.skipped, 0);
}
