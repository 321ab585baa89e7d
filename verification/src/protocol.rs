//! The chat and completion messages that the library reads and writes, as plain data.
//!
//! Floating-point quantities are carried as the bits of their IEEE 754 representation: the
//! library moves them and does not compute with them.

use vstd::prelude::*;

verus! {

/// The identifier of a token.
pub type TokenIdType = u32;

/// The text of a token, where it has one.
pub type TokenType = Option<String>;

/// A single-precision number, by its bits.
#[derive(Clone, Copy, Debug, PartialEq, Eq, Structural)]
pub struct Float32 {
    pub bits: u32,
}

/// A double-precision number, by its bits.
#[derive(Clone, Copy, Debug, PartialEq, Eq, Structural)]
pub struct Float64 {
    pub bits: u64,
}

/// Who a message is from.
#[derive(Clone, Copy, Debug, PartialEq, Eq, Structural)]
pub enum Role {
    System,
    User,
    Assistant,
    Tool,
}

/// Why a choice of a chat response ended.
#[derive(Clone, Copy, Debug, PartialEq, Eq, Structural)]
pub enum FinishReason {
    Stop,
    Length,
    ToolCalls,
    ContentFilter,
    FunctionCall,
}

/// Why a choice of a completion ended.
#[derive(Clone, Copy, Debug, PartialEq, Eq, Structural)]
pub enum CompletionFinishReason {
    Stop,
    Length,
    ContentFilter,
}

/// Why the backend stopped generating.
#[derive(Clone, Debug, PartialEq, Eq)]
pub enum BackendFinishReason {
    EoS,
    Length,
    Stop,
    Error(String),
    Cancelled,
    ContentFilter,
}

/// What made the backend stop: a stop string or a stop token.
#[derive(Clone, Debug, PartialEq, Eq)]
pub enum StopReason {
    String(String),
    TokenId(u32),
}

/// What a [`StopReason`] holds.
pub enum StopReasonView {
    String(Seq<char>),
    TokenId(u32),
}

impl View for StopReason {
    type V = StopReasonView;

    open spec fn view(&self) -> StopReasonView {
        match self {
            StopReason::String(s) => StopReasonView::String(s@),
            StopReason::TokenId(id) => StopReasonView::TokenId(*id),
        }
    }
}

impl StopReason {
    /// A copy of the reason.
    pub fn copy(&self) -> (r: StopReason)
        ensures
            r@ == self@,
    {
        match self {
            StopReason::String(s) => StopReason::String(s.clone()),
            StopReason::TokenId(id) => StopReason::TokenId(*id),
        }
    }
}

/// What an optional stop reason holds.
pub open spec fn stop_reason_of(r: Option<StopReason>) -> Option<StopReasonView> {
    match r {
        Some(r) => Some(r@),
        None => None,
    }
}

/// The name of the reason.
pub open spec fn backend_reason_text(r: BackendFinishReason) -> Seq<char> {
    match r {
        BackendFinishReason::EoS => "eos"@,
        BackendFinishReason::Length => "length"@,
        BackendFinishReason::Stop => "stop"@,
        BackendFinishReason::Error(message) => "error: "@ + message@,
        BackendFinishReason::Cancelled => "cancelled"@,
        BackendFinishReason::ContentFilter => "content_filter"@,
    }
}

impl BackendFinishReason {
    /// The name of the reason, with the message of an error.
    pub fn text(&self) -> (r: String)
        ensures
            r@ == backend_reason_text(*self),
    {
        match self {
            BackendFinishReason::EoS => "eos".to_string(),
            BackendFinishReason::Length => "length".to_string(),
            BackendFinishReason::Stop => "stop".to_string(),
            BackendFinishReason::Error(message) => {
                let mut out: String = "error: ".to_string();
                out.append(message.as_str());
                out
            },
            BackendFinishReason::Cancelled => "cancelled".to_string(),
            BackendFinishReason::ContentFilter => "content_filter".to_string(),
        }
    }
}

/// What a streamed response says of its token usage.
#[derive(Clone, Copy, Debug, PartialEq, Eq, Structural)]
pub struct ChatCompletionStreamOptions {
    pub include_usage: bool,
    pub continuous_usage_stats: bool,
}

/// Details on prompt tokens.
#[derive(Clone, Copy, Debug, PartialEq, Eq, Structural)]
pub struct PromptTokensDetails {
    pub audio_tokens: Option<u32>,
    pub cached_tokens: Option<u32>,
}

/// Details on generated tokens.
#[derive(Clone, Copy, Debug, PartialEq, Eq, Structural)]
pub struct CompletionTokensDetails {
    pub accepted_prediction_tokens: Option<u32>,
    pub audio_tokens: Option<u32>,
    pub reasoning_tokens: Option<u32>,
    pub rejected_prediction_tokens: Option<u32>,
}

/// How many tokens a request took.
#[derive(Clone, Copy, Debug, PartialEq, Eq, Structural)]
pub struct CompletionUsage {
    pub prompt_tokens: u32,
    pub completion_tokens: u32,
    pub total_tokens: u32,
    pub prompt_tokens_details: Option<PromptTokensDetails>,
    pub completion_tokens_details: Option<CompletionTokensDetails>,
}

/// The tier that served a request.
#[derive(Clone, Copy, Debug, PartialEq, Eq, Structural)]
pub enum ServiceTierResponse {
    Scale,
    Default,
    Flex,
    Priority,
}

/// An alternative token with its logarithmic probability.
#[derive(Clone, Debug, PartialEq, Eq)]
pub struct TopLogprobs {
    pub token: String,
    pub logprob: Float32,
    pub bytes: Option<Vec<u8>>,
}

/// A token with its logarithmic probability and its alternatives.
#[derive(Clone, Debug, PartialEq, Eq)]
pub struct ChatCompletionTokenLogprob {
    pub token: String,
    pub logprob: Float32,
    pub bytes: Option<Vec<u8>>,
    pub top_logprobs: Vec<TopLogprobs>,
}

/// The logarithmic probabilities of the tokens of a choice.
#[derive(Clone, Debug, PartialEq, Eq)]
pub struct ChatChoiceLogprobs {
    pub content: Option<Vec<ChatCompletionTokenLogprob>>,
    pub refusal: Option<Vec<ChatCompletionTokenLogprob>>,
}

/// The content of a message: text, or parts that are no text.
#[derive(Clone, Debug, PartialEq, Eq)]
pub enum ChatCompletionMessageContent {
    Text(String),
    Parts,
}

/// The function of a tool call in a stream.
#[derive(Clone, Debug, PartialEq, Eq)]
pub struct FunctionCallStream {
    pub name: Option<String>,
    pub arguments: Option<String>,
}

/// A piece of a tool call in a stream.
#[derive(Clone, Debug, PartialEq, Eq)]
pub struct ChatCompletionMessageToolCallChunk {
    pub index: u32,
    pub id: Option<String>,
    pub function: Option<FunctionCallStream>,
}

/// What a chunk adds to a message.
#[derive(Clone, Debug, PartialEq, Eq)]
pub struct ChatCompletionStreamResponseDelta {
    pub content: Option<ChatCompletionMessageContent>,
    pub function_call: Option<FunctionCallStream>,
    pub tool_calls: Option<Vec<ChatCompletionMessageToolCallChunk>>,
    pub role: Option<Role>,
    pub refusal: Option<String>,
    pub reasoning_content: Option<String>,
}

/// What a chunk adds to one choice.
#[derive(Clone, Debug, PartialEq, Eq)]
pub struct ChatChoiceStream {
    pub index: u32,
    pub delta: ChatCompletionStreamResponseDelta,
    pub finish_reason: Option<FinishReason>,
    pub logprobs: Option<ChatChoiceLogprobs>,
}

/// A chunk of a streamed chat response.
#[derive(Clone, Debug, PartialEq, Eq)]
pub struct CreateChatCompletionStreamResponse {
    pub id: String,
    pub object: String,
    pub created: u32,
    pub model: String,
    pub system_fingerprint: Option<String>,
    pub choices: Vec<ChatChoiceStream>,
    pub usage: Option<CompletionUsage>,
    pub service_tier: Option<ServiceTierResponse>,
}

/// One choice of a completion.
#[derive(Clone, Debug, PartialEq, Eq)]
pub struct Choice {
    pub text: String,
    pub index: u32,
    pub finish_reason: Option<CompletionFinishReason>,
}

/// A completion.
#[derive(Clone, Debug, PartialEq, Eq)]
pub struct CreateCompletionResponse {
    pub id: String,
    pub object: String,
    pub created: u32,
    pub model: String,
    pub system_fingerprint: Option<String>,
    pub choices: Vec<Choice>,
    pub usage: Option<CompletionUsage>,
}

/// A message in a stream: data, or something about the stream.
#[derive(Clone, Debug, PartialEq, Eq)]
pub struct Annotated<T> {
    pub data: Option<T>,
    pub id: Option<String>,
    pub event: Option<String>,
    pub comment: Option<Vec<String>>,
    pub error: Option<String>,
}

/// Each reason of the backend has its own name, and the name of an error carries its message as
/// it is.
pub proof fn law_reasons_have_their_own_names(a: BackendFinishReason, b: BackendFinishReason)
    ensures
        a is EoS ==> backend_reason_text(a) == seq!['e', 'o', 's'],
        a is Stop ==> backend_reason_text(a) == seq!['s', 't', 'o', 'p'],
        a is Length ==> backend_reason_text(a) == seq!['l', 'e', 'n', 'g', 't', 'h'],
        a is Cancelled ==> backend_reason_text(a) == seq![
            'c',
            'a',
            'n',
            'c',
            'e',
            'l',
            'l',
            'e',
            'd',
        ],
        a matches BackendFinishReason::Error(message) ==> backend_reason_text(a) == seq![
            'e',
            'r',
            'r',
            'o',
            'r',
            ':',
            ' ',
        ] + message@,
        a is ContentFilter ==> backend_reason_text(a) == "content_filter"@,
        backend_reason_text(a) == backend_reason_text(b) ==> (a matches BackendFinishReason::Error(
            m,
        ) ==> b matches BackendFinishReason::Error(n) && m@ == n@),
{
    reveal_strlit("eos");
    reveal_strlit("stop");
    reveal_strlit("length");
    reveal_strlit("cancelled");
    reveal_strlit("content_filter");
    reveal_strlit("error: ");
    assert("eos"@ =~= seq!['e', 'o', 's']);
    assert("stop"@ =~= seq!['s', 't', 'o', 'p']);
    assert("length"@ =~= seq!['l', 'e', 'n', 'g', 't', 'h']);
    assert("cancelled"@ =~= seq!['c', 'a', 'n', 'c', 'e', 'l', 'l', 'e', 'd']);
    assert("error: "@ =~= seq!['e', 'r', 'r', 'o', 'r', ':', ' ']);
    if let BackendFinishReason::Error(m) = a {
        let x = backend_reason_text(a);
        let y = backend_reason_text(b);
        if x == y {
            assert(x[5] == ':' && x[0] == 'e' && x[1] == 'r');
            if let BackendFinishReason::Error(n) = b {
                assert(m@ =~= x.skip(7));
                assert(n@ =~= y.skip(7));
            } else {
                assert(y[0] == 'e' ==> y[1] == 'o');
            }
        }
    }
}

} // verus!
