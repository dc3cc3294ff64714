//! The request and response shapes of both surfaces, and the pure mappings
//! between them.

use vstd::prelude::*;

verus! {

/// Nanoseconds reported per token in the synthesized timing fields.
pub const DURATION_PER_TOKEN: u128 = 100000;

/// The load duration reported on every aggregated record.
pub const LOAD_DURATION: u128 = 1234567;

/// The sampling temperature sent to the backend, in hundredths (0.70).
pub const DEFAULT_TEMPERATURE_HUNDREDTHS: u32 = 70;

/// Path of the backend's chat-completion endpoint below its base URL.
pub const COMPLETIONS_PATH: &'static str = "/v1/chat/completions";

/// One turn of a conversation.
#[derive(Debug)]
pub struct Message {
    pub role: String,
    pub content: String,
}

/// A chat request of the native surface. Its optional temperature is not
/// carried: the backend always gets the default one.
#[derive(Debug)]
pub struct ChatRequest {
    pub model: String,
    pub messages: Vec<Message>,
    pub stream: bool,
}

/// A generate request of the native surface: one prompt.
#[derive(Debug)]
pub struct GenerateRequest {
    pub model: String,
    pub prompt: String,
    pub stream: bool,
}

/// A chat request of the backend surface.
#[derive(Debug)]
pub struct BackendRequest {
    pub model: String,
    pub messages: Vec<Message>,
    pub stream: bool,
    pub temperature_hundredths: u32,
}

/// One record of the native surface's answer. The six counters are `Some`
/// exactly on a terminal record.
#[derive(Debug)]
pub struct ChatRecord {
    pub model: String,
    pub created_at: String,
    pub message: Message,
    pub done: bool,
    pub total_duration: Option<u128>,
    pub load_duration: Option<u128>,
    pub prompt_eval_count: Option<u64>,
    pub prompt_eval_duration: Option<u128>,
    pub eval_count: Option<u64>,
    pub eval_duration: Option<u128>,
}

/// `r` is the non-terminal record that carries `content` for `model`,
/// whatever its timestamp.
pub open spec fn is_content_record(r: ChatRecord, content: Seq<char>, model: Seq<char>) -> bool {
    &&& r.model@ == model
    &&& r.message.role@ == "assistant"@
    &&& r.message.content@ == content
    &&& !r.done
    &&& r.total_duration is None
    &&& r.load_duration is None
    &&& r.prompt_eval_count is None
    &&& r.prompt_eval_duration is None
    &&& r.eval_count is None
    &&& r.eval_duration is None
}

/// `r` is the zero-filled terminal record of a stream for `model`, whatever
/// its timestamp.
pub open spec fn is_stream_terminal(r: ChatRecord, model: Seq<char>) -> bool {
    &&& r.model@ == model
    &&& r.message.role@ == "assistant"@
    &&& r.message.content@ == Seq::<char>::empty()
    &&& r.done
    &&& r.total_duration == Some(0u128)
    &&& r.load_duration == Some(0u128)
    &&& r.prompt_eval_count == Some(0u64)
    &&& r.prompt_eval_duration == Some(0u128)
    &&& r.eval_count == Some(0u64)
    &&& r.eval_duration == Some(0u128)
}

/// `r` is the single record of a non-streamed answer, whatever its timestamp.
pub open spec fn is_aggregated_record(
    r: ChatRecord,
    content: Seq<char>,
    model: Seq<char>,
    prompt_tokens: u64,
    completion_tokens: u64,
    total_tokens: u64,
) -> bool {
    &&& r.model@ == model
    &&& r.message.role@ == "assistant"@
    &&& r.message.content@ == content
    &&& r.done
    &&& r.total_duration == Some((total_tokens * DURATION_PER_TOKEN) as u128)
    &&& r.load_duration == Some(LOAD_DURATION)
    &&& r.prompt_eval_count == Some(prompt_tokens)
    &&& r.prompt_eval_duration == Some((prompt_tokens * DURATION_PER_TOKEN) as u128)
    &&& r.eval_count == Some(completion_tokens)
    &&& r.eval_duration == Some((completion_tokens * DURATION_PER_TOKEN) as u128)
}

/// Maps a native chat request to the backend's: model, messages and stream
/// flag carried over, the default temperature set.
pub fn to_backend_request(request: ChatRequest) -> (r: BackendRequest)
    ensures
        r.model == request.model,
        r.messages == request.messages,
        r.stream == request.stream,
        r.temperature_hundredths == DEFAULT_TEMPERATURE_HUNDREDTHS,
{
    BackendRequest {
        model: request.model,
        messages: request.messages,
        stream: request.stream,
        temperature_hundredths: DEFAULT_TEMPERATURE_HUNDREDTHS,
    }
}

/// Turns a generate request into a chat request of one user message that
/// holds the prompt.
pub fn generate_to_chat(request: GenerateRequest) -> (r: ChatRequest)
    ensures
        r.model == request.model,
        r.stream == request.stream,
        r.messages@.len() == 1,
        r.messages@[0].role@ == "user"@,
        r.messages@[0].content == request.prompt,
{
    let message = Message { role: "user".to_owned(), content: request.prompt };
    ChatRequest { model: request.model, messages: vec![message], stream: request.stream }
}

/// The backend's chat-completion URL below `base`.
pub fn backend_url(base: &str) -> (r: String)
    ensures
        r@ == base@ + COMPLETIONS_PATH@,
{
    let mut url: String = base.to_owned();
    url.append(COMPLETIONS_PATH);
    url
}

/// A non-terminal record that carries one content delta.
pub fn to_native_chunk(content: String, model: String, created_at: String) -> (r: ChatRecord)
    ensures
        is_content_record(r, content@, model@),
        r.created_at == created_at,
{
    ChatRecord {
        model,
        created_at,
        message: Message { role: "assistant".to_owned(), content },
        done: false,
        total_duration: None,
        load_duration: None,
        prompt_eval_count: None,
        prompt_eval_duration: None,
        eval_count: None,
        eval_duration: None,
    }
}

/// The terminal record of a stream: empty content, every counter zero.
pub fn to_terminal_chunk(model: String, created_at: String) -> (r: ChatRecord)
    ensures
        is_stream_terminal(r, model@),
        r.created_at == created_at,
{
    ChatRecord {
        model,
        created_at,
        message: Message { role: "assistant".to_owned(), content: String::new() },
        done: true,
        total_duration: Some(0),
        load_duration: Some(0),
        prompt_eval_count: Some(0),
        prompt_eval_duration: Some(0),
        eval_count: Some(0),
        eval_duration: Some(0),
    }
}

/// The single record of a non-streamed answer, with timing synthesized from
/// the token counts.
pub fn to_aggregated_response(
    content: String,
    model: String,
    prompt_tokens: u64,
    completion_tokens: u64,
    total_tokens: u64,
    created_at: String,
) -> (r: ChatRecord)
    ensures
        is_aggregated_record(r, content@, model@, prompt_tokens, completion_tokens, total_tokens),
        r.created_at == created_at,
{
    assert(total_tokens * DURATION_PER_TOKEN <= u128::MAX) by (nonlinear_arith)
        requires total_tokens <= u64::MAX;
    assert(prompt_tokens * DURATION_PER_TOKEN <= u128::MAX) by (nonlinear_arith)
        requires prompt_tokens <= u64::MAX;
    assert(completion_tokens * DURATION_PER_TOKEN <= u128::MAX) by (nonlinear_arith)
        requires completion_tokens <= u64::MAX;
    ChatRecord {
        model,
        created_at,
        message: Message { role: "assistant".to_owned(), content },
        done: true,
        total_duration: Some(total_tokens as u128 * DURATION_PER_TOKEN),
        load_duration: Some(LOAD_DURATION),
        prompt_eval_count: Some(prompt_tokens),
        prompt_eval_duration: Some(prompt_tokens as u128 * DURATION_PER_TOKEN),
        eval_count: Some(completion_tokens),
        eval_duration: Some(completion_tokens as u128 * DURATION_PER_TOKEN),
    }
}

} // verus!
