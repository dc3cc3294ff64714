use fake_ollama::schema::ChatRecord;
use fake_ollama::transcoder::{classify_line, delta_text, StreamEvent, Transcoder};
use fake_ollama::json::JsonValue;

const SCENARIO: &str = "data: {\"choices\":[{\"delta\":{\"content\":\"Hello\"}}]}\n\ndata: {\"choices\":[{\"delta\":{\"content\":\" World\"}}]}\n\ndata: [DONE]\n";

fn run(chunks: &[&[u8]]) -> Vec<ChatRecord> {
    let mut t = Transcoder::new("llama2".to_string());
    let mut out = Vec::new();
    for c in chunks {
        out.extend(t.feed(c));
    }
    out.extend(t.finish_records());
    out
}

fn assert_content(r: &ChatRecord, content: &str) {
    assert_eq!(r.model, "llama2");
    assert_eq!(r.message.role, "assistant");
    assert_eq!(r.message.content, content);
    assert!(!r.done);
    assert_eq!(r.total_duration, None);
    assert_eq!(r.eval_count, None);
    assert!(!r.created_at.is_empty());
}

fn assert_terminal(r: &ChatRecord) {
    assert_eq!(r.model, "llama2");
    assert_eq!(r.message.content, "");
    assert!(r.done);
    assert_eq!(r.total_duration, Some(0));
    assert_eq!(r.load_duration, Some(0));
    assert_eq!(r.prompt_eval_count, Some(0));
    assert_eq!(r.prompt_eval_duration, Some(0));
    assert_eq!(r.eval_count, Some(0));
    assert_eq!(r.eval_duration, Some(0));
}

#[test]
fn scenario_two_deltas_then_done() {
    let out = run(&[SCENARIO.as_bytes()]);
    assert_eq!(out.len(), 3);
    assert_content(&out[0], "Hello");
    assert_content(&out[1], " World");
    assert_terminal(&out[2]);
}

#[test]
fn lines_split_across_chunks_are_reassembled() {
    let bytes = SCENARIO.as_bytes();
    let chunks: Vec<&[u8]> = bytes.chunks(1).collect();
    let out = run(&chunks);
    assert_eq!(out.len(), 3);
    assert_content(&out[0], "Hello");
    assert_content(&out[1], " World");
    assert_terminal(&out[2]);

    let (a, b) = bytes.split_at(17);
    let out = run(&[a, b]);
    assert_eq!(out.len(), 3);
    assert_content(&out[0], "Hello");
}

#[test]
fn nothing_after_the_sentinel() {
    let body = "data: [DONE]\ndata: {\"choices\":[{\"delta\":{\"content\":\"late\"}}]}\ndata: [DONE]\n";
    let out = run(&[body.as_bytes()]);
    assert_eq!(out.len(), 1);
    assert_terminal(&out[0]);
}

#[test]
fn empty_deltas_are_dropped() {
    let body = "data: {\"choices\":[{\"delta\":{\"content\":\"\"}}]}\ndata: {\"choices\":[{\"delta\":{\"content\":\"x\"}}]}\ndata: {\"choices\":[{\"delta\":{\"content\":\"\"}}]}\ndata: [DONE]\n";
    let out = run(&[body.as_bytes()]);
    assert_eq!(out.len(), 2);
    assert_content(&out[0], "x");
    assert_terminal(&out[1]);
}

#[test]
fn malformed_lines_are_skipped() {
    let body: &[u8] = b"data: {not json\n: keep-alive\ndata: {\"choices\":[]}\ndata: {\"choices\":[{\"delta\":{}}]}\ndata: {\"choices\":[{\"delta\":{\"content\":7}}]}\n\xff\xfe\ndata: {\"choices\":[{\"delta\":{\"content\":\"ok\"}}]}\ndata: [DONE]\n";
    let out = run(&[body]);
    assert_eq!(out.len(), 2);
    assert_content(&out[0], "ok");
    assert_terminal(&out[1]);
}

#[test]
fn no_terminal_without_sentinel() {
    let body = "data: {\"choices\":[{\"delta\":{\"content\":\"a\"}}]}\n";
    let out = run(&[body.as_bytes()]);
    assert_eq!(out.len(), 1);
    assert_content(&out[0], "a");
}

#[test]
fn last_line_without_newline_is_read_at_end() {
    let mut t = Transcoder::new("llama2".to_string());
    let first = t.feed(b"data: {\"choices\":[{\"delta\":{\"content\":\"a\"}}]}\ndata: [DO");
    assert_eq!(first.len(), 1);
    assert!(!t.is_terminated());
    let second = t.feed(b"NE]");
    assert!(second.is_empty());
    let last = t.finish_records();
    assert_eq!(last.len(), 1);
    assert_terminal(&last[0]);
}

#[test]
fn empty_stream_gives_nothing() {
    let out = run(&[]);
    assert!(out.is_empty());
    let out = run(&[b"\n\n\n"]);
    assert!(out.is_empty());
}

#[test]
fn sentinel_is_read_with_surrounding_space() {
    assert!(matches!(classify_line(b"data:   [DONE]  \r"), Some(StreamEvent::Terminal)));
    assert!(matches!(classify_line(b"[DONE]"), Some(StreamEvent::Terminal)));
    assert!(classify_line(b"data: [DONE]x").is_none());
    assert!(classify_line(b"").is_none());
    assert!(classify_line(b"data: ").is_none());
}

#[test]
fn delta_line_without_prefix_is_read() {
    match classify_line(b"{\"choices\":[{\"delta\":{\"content\":\"hi\"}}]}") {
        Some(StreamEvent::Delta(c)) => assert_eq!(c, "hi"),
        other => panic!("unexpected {:?}", other),
    }
}

#[test]
fn delta_text_reads_the_first_choice() {
    let delta = JsonValue::Object(vec![("content".to_string(), JsonValue::Str("abc".to_string()))]);
    let choice = JsonValue::Object(vec![("delta".to_string(), delta)]);
    let other = JsonValue::Object(vec![]);
    let v = JsonValue::Object(vec![
        ("id".to_string(), JsonValue::Number(Some(1))),
        ("choices".to_string(), JsonValue::Array(vec![choice, other])),
    ]);
    assert_eq!(delta_text(&v).map(|s| s.as_str()), Some("abc"));
    let empty = JsonValue::Object(vec![("choices".to_string(), JsonValue::Array(vec![]))]);
    assert_eq!(delta_text(&empty), None);
    assert_eq!(delta_text(&JsonValue::Null), None);
}

#[test]
fn same_input_gives_same_records_but_time() {
    let a = run(&[SCENARIO.as_bytes()]);
    let b = run(&[SCENARIO.as_bytes()]);
    assert_eq!(a.len(), b.len());
    for (x, y) in a.iter().zip(b.iter()) {
        assert_eq!(x.model, y.model);
        assert_eq!(x.message.content, y.message.content);
        assert_eq!(x.message.role, y.message.role);
        assert_eq!(x.done, y.done);
        assert_eq!(x.total_duration, y.total_duration);
        assert_eq!(x.eval_duration, y.eval_duration);
    }
}
