use commitbot::error::LlmError;
use commitbot::json::JsonSlot;
use commitbot::stream::{
    classify_ndjson_chunk, classify_sse_chunk, decode_line, decode_ndjson_line, decode_sse_line,
    read_stream_to_string, StreamAccumulator, StreamFrame, StreamStatus, WireFormat,
};

fn lines(ls: &[&str]) -> Vec<String> {
    ls.iter().map(|l| l.to_string()).collect()
}

fn delta(s: &str) -> StreamFrame {
    StreamFrame::Delta(s.to_string())
}

fn is_decode_error<T>(r: &Result<T, LlmError>) -> bool {
    matches!(r, Err(LlmError::Decode { .. }))
}

const SSE: [&str; 3] = [
    r#"data: {"choices":[{"delta":{"content":"Fix"}}]}"#,
    r#"data: {"choices":[{"delta":{"content":" bug"}}]}"#,
    "data: [DONE]",
];

const NDJSON: [&str; 3] = [
    r#"{"message":{"role":"assistant","content":"Fix"}}"#,
    r#"{"message":{"role":"assistant","content":" bug"},"done":false}"#,
    r#"{"done":true}"#,
];

#[test]
fn openai_sse_scenario() {
    assert_eq!(decode_sse_line(SSE[0]), Ok(delta("Fix")));
    assert_eq!(decode_sse_line(SSE[1]), Ok(delta(" bug")));
    assert_eq!(decode_sse_line(SSE[2]), Ok(StreamFrame::End));
    assert_eq!(read_stream_to_string(WireFormat::Sse, &lines(&SSE)), Ok("Fix bug".to_string()));
}

#[test]
fn ollama_ndjson_scenario() {
    assert_eq!(decode_ndjson_line(NDJSON[0]), Ok(delta("Fix")));
    assert_eq!(decode_ndjson_line(NDJSON[1]), Ok(delta(" bug")));
    assert_eq!(decode_ndjson_line(NDJSON[2]), Ok(StreamFrame::End));
    assert_eq!(read_stream_to_string(WireFormat::Ndjson, &lines(&NDJSON)), Ok("Fix bug".to_string()));
}

#[test]
fn accumulating_frames_round_trip() {
    let mut acc = StreamAccumulator::new(WireFormat::Sse);
    assert_eq!(acc.push_frame(delta("Hello")), Some("Hello".to_string()));
    assert_eq!(acc.push_frame(delta(" world")), Some(" world".to_string()));
    assert_eq!(acc.push_frame(StreamFrame::End), None);
    assert_eq!(acc.status(), StreamStatus::Ended);
    assert_eq!(acc.push_frame(delta("ignored")), None);
    assert_eq!(acc.finish(), Ok("Hello world".to_string()));
}

#[test]
fn same_completed_stream_twice_gives_same_text() {
    let once = lines(&SSE);
    let first = read_stream_to_string(WireFormat::Sse, &once);
    let second = read_stream_to_string(WireFormat::Sse, &once);
    assert_eq!(first, second);
    let mut twice = once.clone();
    twice.extend(once.clone());
    assert_eq!(read_stream_to_string(WireFormat::Sse, &twice), first);
    let mut nd_twice = lines(&NDJSON);
    nd_twice.extend(lines(&NDJSON));
    assert_eq!(read_stream_to_string(WireFormat::Ndjson, &nd_twice), Ok("Fix bug".to_string()));
}

#[test]
fn malformed_json_mid_stream_discards_text() {
    let ls = lines(&[SSE[0], "data: {not json", SSE[1], SSE[2]]);
    assert!(is_decode_error(&read_stream_to_string(WireFormat::Sse, &ls)));
    let mut acc = StreamAccumulator::new(WireFormat::Ndjson);
    assert_eq!(acc.push_line(NDJSON[0]), Some("Fix".to_string()));
    assert_eq!(acc.push_line("{\"message\":"), None);
    assert_eq!(acc.status(), StreamStatus::Failed);
    assert!(!acc.is_open());
    assert_eq!(acc.push_line(NDJSON[1]), None);
    assert!(is_decode_error(&acc.finish()));
}

#[test]
fn stream_without_end_marker_keeps_text() {
    let ls = lines(&[SSE[0], "", ": keep-alive", SSE[1]]);
    assert_eq!(read_stream_to_string(WireFormat::Sse, &ls), Ok("Fix bug".to_string()));
    assert_eq!(read_stream_to_string(WireFormat::Sse, &Vec::new()), Ok(String::new()));
}

#[test]
fn lines_after_the_end_are_not_read() {
    let ls = lines(&["data: [DONE]", "data: {broken"]);
    assert_eq!(read_stream_to_string(WireFormat::Sse, &ls), Ok(String::new()));
}

#[test]
fn sse_framing_lines() {
    assert_eq!(decode_sse_line(""), Ok(StreamFrame::Skip));
    assert_eq!(decode_sse_line("event: message"), Ok(StreamFrame::Skip));
    assert_eq!(decode_sse_line("   data:   [DONE]  "), Ok(StreamFrame::End));
    assert_eq!(decode_sse_line(r#"data:{"choices":[]}"#), Ok(StreamFrame::Skip));
    assert_eq!(decode_sse_line(r#"data: {"choices":[{"delta":{}}]}"#), Ok(StreamFrame::Skip));
    assert_eq!(decode_sse_line(r#"data: {"choices":[{"delta":{"content":""}}]}"#), Ok(StreamFrame::Skip));
    assert_eq!(decode_sse_line(r#"data: {"choices":[{"delta":{"content":null}}]}"#), Ok(StreamFrame::Skip));
    assert!(is_decode_error(&decode_sse_line("data: [DONE")));
    assert!(is_decode_error(&decode_sse_line(r#"data: {"id":"x"}"#)));
    assert!(is_decode_error(&decode_sse_line(r#"data: {"choices":[{"delta":{"content":5}}]}"#)));
}

#[test]
fn ndjson_lines() {
    assert_eq!(decode_ndjson_line("   "), Ok(StreamFrame::Skip));
    assert_eq!(
        decode_ndjson_line(r#"{"message":{"role":"assistant","content":"late"},"done":true}"#),
        Ok(StreamFrame::End)
    );
    assert_eq!(decode_ndjson_line(r#"{"done":false}"#), Ok(StreamFrame::Skip));
    assert_eq!(decode_ndjson_line(r#"{"message":{"role":"assistant","content":""}}"#), Ok(StreamFrame::Skip));
    assert!(is_decode_error(&decode_ndjson_line("not json")));
    assert!(is_decode_error(&decode_ndjson_line(r#"{"message":{"role":"assistant"}}"#)));
    assert_eq!(decode_line(WireFormat::Ndjson, NDJSON[2]), Ok(StreamFrame::End));
    assert_eq!(decode_line(WireFormat::Sse, SSE[0]), Ok(delta("Fix")));
}

#[test]
fn classification_of_looked_up_values() {
    let text = |s: &str| JsonSlot::Text(s.to_string());
    assert_eq!(
        classify_sse_chunk(JsonSlot::Object, JsonSlot::Array(1), JsonSlot::Object, text("x")),
        Some(delta("x"))
    );
    assert_eq!(
        classify_sse_chunk(JsonSlot::Object, JsonSlot::Array(0), JsonSlot::Absent, JsonSlot::Absent),
        Some(StreamFrame::Skip)
    );
    assert_eq!(
        classify_sse_chunk(JsonSlot::Malformed, JsonSlot::Malformed, JsonSlot::Malformed, JsonSlot::Malformed),
        None
    );
    assert_eq!(
        classify_sse_chunk(JsonSlot::Object, JsonSlot::Array(2), JsonSlot::Null, JsonSlot::Absent),
        None
    );
    assert_eq!(
        classify_ndjson_chunk(JsonSlot::Object, JsonSlot::Bool(true), JsonSlot::Object, text("y")),
        Some(StreamFrame::End)
    );
    assert_eq!(
        classify_ndjson_chunk(JsonSlot::Object, JsonSlot::Absent, JsonSlot::Object, text("y")),
        Some(delta("y"))
    );
    assert_eq!(
        classify_ndjson_chunk(JsonSlot::Object, JsonSlot::Number, JsonSlot::Object, text("y")),
        None
    );
    assert_eq!(
        classify_ndjson_chunk(JsonSlot::Array(1), JsonSlot::Absent, JsonSlot::Absent, JsonSlot::Absent),
        None
    );
}
