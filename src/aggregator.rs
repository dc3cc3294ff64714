//! The aggregator: one complete backend answer in, one native record out.

use crate::clock::now_rfc3339;
use crate::json::{count_of, first_element, get_first, get_member, json_of, member, parse_json, text_of, JsonValue};
use crate::schema::{is_aggregated_record, to_aggregated_response, ChatRecord};
use crate::text::decode_text;
use vstd::prelude::*;
use vstd::utf8::{decode_utf8, valid_utf8};

verus! {

/// The string at `choices[0].message.content` of a backend answer; empty
/// where there is none.
pub open spec fn message_content(v: JsonValue) -> Seq<char> {
    let content = match member(v, "choices"@) {
        Some(choices) => match first_element(choices) {
            Some(choice) => match member(choice, "message"@) {
                Some(message) => match member(message, "content"@) {
                    Some(c) => text_of(c),
                    None => None,
                },
                None => None,
            },
            None => None,
        },
        None => None,
    };
    match content {
        Some(c) => c,
        None => Seq::empty(),
    }
}

/// The count at `usage.<key>` of a backend answer; zero where there is none.
pub open spec fn usage_count(v: JsonValue, key: Seq<char>) -> u64 {
    let count = match member(v, "usage"@) {
        Some(usage) => match member(usage, key) {
            Some(n) => count_of(n),
            None => None,
        },
        None => None,
    };
    match count {
        Some(n) => n,
        None => 0,
    }
}

/// The JSON document that a backend body holds, if it holds one.
pub open spec fn body_json(body: Seq<u8>) -> Option<JsonValue> {
    if valid_utf8(body) {
        json_of(decode_utf8(body))
    } else {
        None
    }
}

/// Why a non-streamed backend answer could not be aggregated.
#[derive(Debug, PartialEq, Eq, Structural)]
pub enum AggregateError {
    /// The body is not one JSON document.
    MalformedBody,
}

/// The content of a parsed backend answer; empty where there is none.
pub fn message_text(v: &JsonValue) -> (r: String)
    ensures
        r@ == message_content(*v),
{
    let content = match get_member(v, "choices") {
        Some(choices) => match get_first(choices) {
            Some(choice) => match get_member(choice, "message") {
                Some(message) => get_member(message, "content"),
                None => None,
            },
            None => None,
        },
        None => None,
    };
    match content {
        Some(JsonValue::Str(s)) => s.clone(),
        _ => String::new(),
    }
}

/// The count `usage.<key>` of a parsed backend answer; zero where there is
/// none.
pub fn usage_value(v: &JsonValue, key: &str) -> (r: u64)
    ensures
        r == usage_count(*v, key@),
{
    let count = match get_member(v, "usage") {
        Some(usage) => get_member(usage, key),
        None => None,
    };
    match count {
        Some(JsonValue::Number(Some(n))) => *n,
        _ => 0,
    }
}

/// The native record of a parsed backend answer.
pub fn aggregate_value(v: &JsonValue, model: String, created_at: String) -> (r: ChatRecord)
    ensures
        is_aggregated_record(
            r,
            message_content(*v),
            model@,
            usage_count(*v, "prompt_tokens"@),
            usage_count(*v, "completion_tokens"@),
            usage_count(*v, "total_tokens"@),
        ),
        r.created_at == created_at,
{
    let content = message_text(v);
    let prompt_tokens = usage_value(v, "prompt_tokens");
    let completion_tokens = usage_value(v, "completion_tokens");
    let total_tokens = usage_value(v, "total_tokens");
    to_aggregated_response(content, model, prompt_tokens, completion_tokens, total_tokens, created_at)
}

/// Aggregates a complete backend body into the single native record of the
/// answer; fails exactly when the body is not one JSON document.
pub fn aggregate(body: &[u8], model: String) -> (r: Result<ChatRecord, AggregateError>)
    ensures
        r is Err <==> body_json(body@) is None,
        r is Err ==> r->Err_0 == AggregateError::MalformedBody,
        r is Ok ==> is_aggregated_record(
            r->Ok_0,
            message_content(body_json(body@)->0),
            model@,
            usage_count(body_json(body@)->0, "prompt_tokens"@),
            usage_count(body_json(body@)->0, "completion_tokens"@),
            usage_count(body_json(body@)->0, "total_tokens"@),
        ),
{
    let text = match decode_text(body) {
        Some(t) => t,
        None => return Err(AggregateError::MalformedBody),
    };
    match parse_json(text.as_str()) {
        Some(v) => Ok(aggregate_value(&v, model, now_rfc3339())),
        None => Err(AggregateError::MalformedBody),
    }
}

} // verus!
