use fake_ollama::aggregator::{aggregate, AggregateError};
use fake_ollama::dispatch::{plan_response, transport_error_body, ResponsePlan};
use fake_ollama::schema::{
    backend_url, generate_to_chat, to_aggregated_response, to_backend_request, ChatRequest,
    GenerateRequest, Message, DEFAULT_TEMPERATURE_HUNDREDTHS, LOAD_DURATION,
};

#[test]
fn scenario_aggregated_answer() {
    let body = b"{\"choices\":[{\"message\":{\"content\":\"hi\"}}],\"usage\":{\"prompt_tokens\":3,\"completion_tokens\":2,\"total_tokens\":5}}";
    let r = aggregate(body, "llama2".to_string()).unwrap();
    assert_eq!(r.model, "llama2");
    assert_eq!(r.message.role, "assistant");
    assert_eq!(r.message.content, "hi");
    assert!(r.done);
    assert_eq!(r.prompt_eval_count, Some(3));
    assert_eq!(r.eval_count, Some(2));
    assert_eq!(r.total_duration, Some(500000));
    assert_eq!(r.load_duration, Some(1234567));
    assert_eq!(r.prompt_eval_duration, Some(300000));
    assert_eq!(r.eval_duration, Some(200000));
    assert!(!r.created_at.is_empty());
}

#[test]
fn aggregate_defaults_missing_fields() {
    let r = aggregate(b"{}", "m".to_string()).unwrap();
    assert_eq!(r.message.content, "");
    assert!(r.done);
    assert_eq!(r.prompt_eval_count, Some(0));
    assert_eq!(r.eval_count, Some(0));
    assert_eq!(r.total_duration, Some(0));
    assert_eq!(r.load_duration, Some(LOAD_DURATION));
    let r = aggregate(b"{\"usage\":{\"prompt_tokens\":-1,\"completion_tokens\":1.5,\"total_tokens\":\"9\"}}", "m".to_string()).unwrap();
    assert_eq!(r.prompt_eval_count, Some(0));
    assert_eq!(r.eval_count, Some(0));
    assert_eq!(r.total_duration, Some(0));
}

#[test]
fn aggregate_large_counts_do_not_overflow() {
    let body = format!("{{\"usage\":{{\"total_tokens\":{}}}}}", u64::MAX);
    let r = aggregate(body.as_bytes(), "m".to_string()).unwrap();
    assert_eq!(r.total_duration, Some(u64::MAX as u128 * 100000));
}

#[test]
fn aggregate_rejects_malformed_body() {
    assert_eq!(aggregate(b"not json", "m".to_string()).unwrap_err(), AggregateError::MalformedBody);
    assert_eq!(aggregate(b"", "m".to_string()).unwrap_err(), AggregateError::MalformedBody);
    assert_eq!(aggregate(b"\xff{}", "m".to_string()).unwrap_err(), AggregateError::MalformedBody);
}

#[test]
fn aggregated_timing_formula() {
    let r = to_aggregated_response("x".to_string(), "m".to_string(), 7, 11, 18, "t".to_string());
    assert_eq!(r.total_duration, Some(1800000));
    assert_eq!(r.prompt_eval_duration, Some(700000));
    assert_eq!(r.eval_duration, Some(1100000));
    assert_eq!(r.load_duration, Some(1234567));
    assert_eq!(r.created_at, "t");
}

#[test]
fn scenario_backend_error_passes_through() {
    assert_eq!(plan_response(401, true), ResponsePlan::PassThrough(401));
    assert_eq!(plan_response(500, false), ResponsePlan::PassThrough(500));
    assert_eq!(plan_response(199, false), ResponsePlan::PassThrough(199));
    assert_eq!(plan_response(300, true), ResponsePlan::PassThrough(300));
    assert_eq!(plan_response(200, true), ResponsePlan::Stream);
    assert_eq!(plan_response(299, false), ResponsePlan::Aggregate);
}

#[test]
fn scenario_transport_failure_body() {
    let body = transport_error_body("connection refused");
    assert_eq!(body, "Error forwarding request: connection refused");
    assert!(!transport_error_body("").is_empty());
}

#[test]
fn backend_request_mapping() {
    let req = ChatRequest {
        model: "llama2".to_string(),
        messages: vec![Message { role: "user".to_string(), content: "Hey there!".to_string() }],
        stream: true,
    };
    let b = to_backend_request(req);
    assert_eq!(b.model, "llama2");
    assert_eq!(b.messages.len(), 1);
    assert_eq!(b.messages[0].content, "Hey there!");
    assert!(b.stream);
    assert_eq!(b.temperature_hundredths, DEFAULT_TEMPERATURE_HUNDREDTHS);
    assert_eq!(b.temperature_hundredths, 70);
}

#[test]
fn generate_becomes_one_user_message() {
    let g = GenerateRequest { model: "mistral".to_string(), prompt: "why?".to_string(), stream: false };
    let c = generate_to_chat(g);
    assert_eq!(c.model, "mistral");
    assert!(!c.stream);
    assert_eq!(c.messages.len(), 1);
    assert_eq!(c.messages[0].role, "user");
    assert_eq!(c.messages[0].content, "why?");
}

#[test]
fn backend_url_appends_path() {
    assert_eq!(backend_url("http://127.0.0.1:8000"), "http://127.0.0.1:8000/v1/chat/completions");
}
