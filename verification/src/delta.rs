//! Chunks of a streamed chat response, made from what the backend generates.

use vstd::prelude::*;

use crate::nvext;
use crate::nvext::{
    DisaggregatedParams, NvCreateChatCompletionStreamResponse, NvExt, NvExtResponse,
    NvExtResponseFieldSelection,
};
use crate::protocol::{
    BackendFinishReason, ChatChoiceLogprobs, ChatChoiceStream, ChatCompletionMessageContent,
    ChatCompletionStreamOptions, ChatCompletionStreamResponseDelta, ChatCompletionTokenLogprob,
    CompletionUsage, CreateChatCompletionStreamResponse, FinishReason, Float32, Role,
    ServiceTierResponse, StopReason, TokenIdType, TokenType, TopLogprobs,
};
use crate::text;
use crate::tracker::RequestTracker;

verus! {

/// What a chat request says of the response it wants.
#[derive(Clone, Debug, PartialEq, Eq)]
pub struct CreateChatCompletionRequest {
    pub model: String,
    pub stream: Option<bool>,
    pub stream_options: Option<ChatCompletionStreamOptions>,
    pub logprobs: Option<bool>,
    pub top_logprobs: Option<u8>,
}

/// A chat request with what it asks for beyond the chat protocol.
#[derive(Clone, Debug, PartialEq, Eq)]
pub struct NvCreateChatCompletionRequest {
    pub inner: CreateChatCompletionRequest,
    pub nvext: Option<NvExt>,
    pub return_tokens_as_token_ids: Option<bool>,
}

/// What a generator puts into its chunks.
#[derive(Clone, Copy, Debug, PartialEq, Eq, Structural)]
pub struct DeltaGeneratorOptions {
    /// Token usage is reported after the last chunk.
    pub enable_usage: bool,
    /// Token usage is reported with every chunk, where it is reported at all.
    pub continuous_usage_stats: bool,
    /// Logarithmic probabilities are reported.
    pub enable_logprobs: bool,
    /// Tokens are written as their identifiers.
    pub return_tokens_as_token_ids: bool,
    /// The extra fields that the request asks for.
    pub response_fields: NvExtResponseFieldSelection,
}

/// The options that a request's settings come to.
pub open spec fn options_of(
    stream_options: Option<ChatCompletionStreamOptions>,
    return_tokens_as_token_ids: Option<bool>,
    enable_logprobs: bool,
    nvext: Option<NvExt>,
) -> DeltaGeneratorOptions {
    DeltaGeneratorOptions {
        enable_usage: stream_options matches Some(o) && o.include_usage,
        continuous_usage_stats: stream_options matches Some(o) && o.continuous_usage_stats,
        enable_logprobs,
        return_tokens_as_token_ids: return_tokens_as_token_ids == Some(true),
        response_fields: nvext::selection_of(nvext),
    }
}

impl DeltaGeneratorOptions {
    /// The options that a request's settings come to.
    pub fn new(
        stream_options: Option<ChatCompletionStreamOptions>,
        return_tokens_as_token_ids: Option<bool>,
        enable_logprobs: bool,
        nvext: &Option<NvExt>,
    ) -> (r: Self)
        ensures
            r == options_of(stream_options, return_tokens_as_token_ids, enable_logprobs, *nvext),
    {
        let (enable_usage, continuous_usage_stats) = match stream_options {
            Some(o) => (o.include_usage, o.continuous_usage_stats),
            None => (false, false),
        };
        DeltaGeneratorOptions {
            enable_usage,
            continuous_usage_stats,
            enable_logprobs,
            return_tokens_as_token_ids: match return_tokens_as_token_ids {
                Some(b) => b,
                None => false,
            },
            response_fields: match nvext {
                Some(e) => NvExtResponseFieldSelection::of(Some(e)),
                None => NvExtResponseFieldSelection::of(None),
            },
        }
    }
}

/// The stream options of a request once usage is turned on for a response that is not
/// streamed. A streamed response keeps what its request says.
pub open spec fn with_usage(
    stream_options: Option<ChatCompletionStreamOptions>,
    original_stream_flag: bool,
) -> Option<ChatCompletionStreamOptions> {
    if original_stream_flag {
        stream_options
    } else {
        Some(
            ChatCompletionStreamOptions {
                include_usage: true,
                continuous_usage_stats: stream_options matches Some(o) && o.continuous_usage_stats,
            },
        )
    }
}

impl NvCreateChatCompletionRequest {
    /// Turns usage on where the response is not streamed.
    pub fn enable_usage_for_nonstreaming(&mut self, original_stream_flag: bool)
        ensures
            final(self).inner.stream_options == with_usage(
                old(self).inner.stream_options,
                original_stream_flag,
            ),
            final(self).inner.model == old(self).inner.model,
            final(self).inner.stream == old(self).inner.stream,
            final(self).inner.logprobs == old(self).inner.logprobs,
            final(self).inner.top_logprobs == old(self).inner.top_logprobs,
            final(self).nvext == old(self).nvext,
            final(self).return_tokens_as_token_ids == old(self).return_tokens_as_token_ids,
    {
        if !original_stream_flag {
            let continuous_usage_stats: bool = match self.inner.stream_options {
                Some(o) => o.continuous_usage_stats,
                None => false,
            };
            self.inner.stream_options = Some(
                ChatCompletionStreamOptions { include_usage: true, continuous_usage_stats },
            );
        }
    }

    /// The request asks for logarithmic probabilities.
    pub open spec fn wants_logprobs(&self) -> bool {
        self.inner.logprobs == Some(true) || (self.inner.top_logprobs matches Some(n) && n > 0)
    }

    /// A generator of the chunks of the response, which is created at the given time.
    pub fn response_generator(&self, request_id: String, created: u32) -> (r: DeltaGenerator)
        ensures
            r@ == new_generator(
                self.inner.model@,
                options_of(
                    self.inner.stream_options,
                    self.return_tokens_as_token_ids,
                    self.wants_logprobs(),
                    self.nvext,
                ),
                request_id@,
                created,
            ),
    {
        let logprobs: bool = match self.inner.logprobs {
            Some(b) => b,
            None => false,
        };
        let alternatives: u8 = match self.inner.top_logprobs {
            Some(n) => n,
            None => 0,
        };
        let options: DeltaGeneratorOptions = DeltaGeneratorOptions::new(
            self.inner.stream_options,
            self.return_tokens_as_token_ids,
            logprobs || alternatives > 0,
            &self.nvext,
        );
        DeltaGenerator::new(self.inner.model.clone(), options, request_id, created)
    }
}

/// What the backend generated.
#[derive(Clone, Debug, PartialEq, Eq)]
pub struct BackendOutput {
    pub token_ids: Vec<TokenIdType>,
    pub tokens: Vec<TokenType>,
    pub text: Option<String>,
    /// The logarithmic probabilities of the tokens.
    pub log_probs: Option<Vec<Float32>>,
    /// The alternatives to each token.
    pub top_logprobs: Option<Vec<Vec<TopLogprobs>>>,
    pub finish_reason: Option<BackendFinishReason>,
    pub stop_reason: Option<StopReason>,
    pub index: Option<u32>,
    pub completion_usage: Option<CompletionUsage>,
    pub disaggregated_params: Option<DisaggregatedParams>,
    /// Engine data, as JSON text.
    pub engine_data: Option<String>,
    /// The prompt probabilities that the engine data carries, as JSON text.
    pub prompt_logprobs: Option<String>,
}

/// A failure of the backend.
#[derive(Clone, Debug, PartialEq, Eq)]
pub struct BackendError {
    pub message: String,
}

/// Makes the chunks of a streamed chat response.
#[derive(Debug)]
pub struct DeltaGenerator {
    id: String,
    object: String,
    created: u32,
    model: String,
    system_fingerprint: Option<String>,
    service_tier: Option<ServiceTierResponse>,
    usage: CompletionUsage,
    msg_counter: u64,
    options: DeltaGeneratorOptions,
}

/// What a [`DeltaGenerator`] holds.
pub struct DeltaGeneratorView {
    pub id: Seq<char>,
    pub object: Seq<char>,
    pub created: u32,
    pub model: Seq<char>,
    pub system_fingerprint: Option<Seq<char>>,
    pub service_tier: Option<ServiceTierResponse>,
    pub usage: CompletionUsage,
    pub msg_counter: u64,
    pub options: DeltaGeneratorOptions,
}

impl View for DeltaGenerator {
    type V = DeltaGeneratorView;

    closed spec fn view(&self) -> DeltaGeneratorView {
        DeltaGeneratorView {
            id: self.id@,
            object: self.object@,
            created: self.created,
            model: self.model@,
            system_fingerprint: text::text_of(self.system_fingerprint),
            service_tier: self.service_tier,
            usage: self.usage,
            msg_counter: self.msg_counter,
            options: self.options,
        }
    }
}

/// No token was used.
pub open spec fn no_usage() -> CompletionUsage {
    CompletionUsage {
        prompt_tokens: 0,
        completion_tokens: 0,
        total_tokens: 0,
        prompt_tokens_details: None,
        completion_tokens_details: None,
    }
}

/// A generator before its first chunk.
pub open spec fn new_generator(
    model: Seq<char>,
    options: DeltaGeneratorOptions,
    request_id: Seq<char>,
    created: u32,
) -> DeltaGeneratorView {
    DeltaGeneratorView {
        id: "chatcmpl-"@ + request_id,
        object: "chat.completion.chunk"@,
        created,
        model,
        system_fingerprint: None,
        service_tier: None,
        usage: no_usage(),
        msg_counter: 0,
        options,
    }
}

/// The usage with its total, which stops at the largest number that it can hold.
pub open spec fn totaled(usage: CompletionUsage) -> CompletionUsage {
    CompletionUsage {
        total_tokens: if usage.prompt_tokens + usage.completion_tokens > u32::MAX {
            u32::MAX
        } else {
            (usage.prompt_tokens + usage.completion_tokens) as u32
        },
        ..usage
    }
}

/// The text that stands for a token.
pub open spec fn token_text(token: TokenType, id: TokenIdType, as_id: bool) -> Seq<char> {
    if as_id {
        "token_id:"@ + text::decimal(id as nat)
    } else {
        match token {
            Some(t) => t@,
            None => ""@,
        }
    }
}

/// The entry of a token: its text, its probability, the bytes of its text and its
/// alternatives.
pub open spec fn is_entry(
    entry: ChatCompletionTokenLogprob,
    token: TokenType,
    id: TokenIdType,
    logprob: Float32,
    alternatives: Vec<TopLogprobs>,
    as_id: bool,
) -> bool {
    &&& entry.token@ == token_text(token, id, as_id)
    &&& entry.logprob == logprob
    &&& entry.bytes matches Some(bytes) && bytes@ == vstd::utf8::encode_utf8(entry.token@)
    &&& entry.top_logprobs == alternatives
}

/// The smaller of two numbers.
pub open spec fn smaller(a: nat, b: nat) -> nat {
    if a < b {
        a
    } else {
        b
    }
}

/// The logarithmic probabilities that a chunk reports. They are reported where they are
/// enabled and the backend gives them, and list the tokens for which the backend gives all
/// that an entry needs; without alternatives there is no list.
pub open spec fn are_logprobs(
    r: Option<ChatChoiceLogprobs>,
    options: DeltaGeneratorOptions,
    tokens: Seq<TokenType>,
    token_ids: Seq<TokenIdType>,
    logprobs: Option<Vec<Float32>>,
    top_logprobs: Option<Vec<Vec<TopLogprobs>>>,
) -> bool {
    match logprobs {
        None => r is None,
        Some(lps) => if !options.enable_logprobs {
            r is None
        } else {
            &&& r matches Some(out)
            &&& out.refusal is None
            &&& match top_logprobs {
                None => out.content is None,
                Some(top) => {
                    &&& out.content matches Some(content)
                    &&& content@.len() == smaller(
                        smaller(tokens.len(), token_ids.len()),
                        smaller(lps@.len(), top@.len()),
                    )
                    &&& forall|k: int|
                        0 <= k < content@.len() ==> is_entry(
                            #[trigger] content@[k],
                            tokens[k],
                            token_ids[k],
                            lps@[k],
                            top@[k],
                            options.return_tokens_as_token_ids,
                        )
                },
            }
        },
    }
}

/// The smaller of two lengths.
fn least(a: usize, b: usize) -> (r: usize)
    ensures
        r == smaller(a as nat, b as nat),
{
    if a < b {
        a
    } else {
        b
    }
}

impl DeltaGenerator {
    /// A generator before its first chunk.
    pub fn new(
        model: String,
        options: DeltaGeneratorOptions,
        request_id: String,
        created: u32,
    ) -> (r:
        Self)
        ensures
            r@ == new_generator(model@, options, request_id@, created),
    {
        let mut id: String = "chatcmpl-".to_string();
        id.append(request_id.as_str());
        DeltaGenerator {
            id,
            object: "chat.completion.chunk".to_string(),
            created,
            model,
            system_fingerprint: None,
            service_tier: None,
            usage: CompletionUsage {
                prompt_tokens: 0,
                completion_tokens: 0,
                total_tokens: 0,
                prompt_tokens_details: None,
                completion_tokens_details: None,
            },
            msg_counter: 0,
            options,
        }
    }

    /// Sets the number of prompt tokens.
    pub fn update_isl(&mut self, isl: u32)
        ensures
            final(self)@ == (DeltaGeneratorView {
                usage: CompletionUsage { prompt_tokens: isl, ..old(self)@.usage },
                ..old(self)@
            }),
    {
        self.usage.prompt_tokens = isl;
    }

    /// The logarithmic probabilities that a chunk reports.
    pub fn create_logprobs(
        &self,
        tokens: &Vec<TokenType>,
        token_ids: &Vec<TokenIdType>,
        logprobs: Option<Vec<Float32>>,
        top_logprobs: Option<Vec<Vec<TopLogprobs>>>,
    ) -> (r: Option<ChatChoiceLogprobs>)
        ensures
            are_logprobs(r, self@.options, tokens@, token_ids@, logprobs, top_logprobs),
    {
        if !self.options.enable_logprobs {
            return None;
        }
        let lps: Vec<Float32> = match logprobs {
            Some(lps) => lps,
            None => {
                return None;
            },
        };
        let top: Vec<Vec<TopLogprobs>> = match top_logprobs {
            Some(top) => top,
            None => {
                return Some(ChatChoiceLogprobs { content: None, refusal: None });
            },
        };
        let as_id: bool = self.options.return_tokens_as_token_ids;
        let n: usize = least(least(tokens.len(), token_ids.len()), least(lps.len(), top.len()));
        let ghost given = top@;
        let mut top: Vec<Vec<TopLogprobs>> = top;
        top.truncate(n);
        let ghost kept = top@;
        let mut content: Vec<ChatCompletionTokenLogprob> = Vec::new();
        let mut i: usize = 0;
        for alternatives in it: top.into_iter()
            invariant
                it.seq() == kept,
                kept == given.take(n as int),
                n <= tokens@.len(),
                n <= token_ids@.len(),
                n <= lps@.len(),
                n <= given.len(),
                i == it.index(),
                i <= n,
                content@.len() == i,
                forall|k: int|
                    0 <= k < i ==> is_entry(
                        #[trigger] content@[k],
                        tokens@[k],
                        token_ids@[k],
                        lps@[k],
                        given[k],
                        as_id,
                    ),
        {
            let token: String = if as_id {
                let mut out: String = "token_id:".to_string();
                let number: String = text::decimal_text(token_ids[i] as u64);
                out.append(number.as_str());
                out
            } else {
                match &tokens[i] {
                    Some(t) => t.clone(),
                    None => "".to_string(),
                }
            };
            let bytes: Vec<u8> = token.as_str().as_bytes_vec();
            content.push(
                ChatCompletionTokenLogprob {
                    token,
                    logprob: lps[i],
                    bytes: Some(bytes),
                    top_logprobs: alternatives,
                },
            );
            i = i + 1;
        }
        Some(ChatChoiceLogprobs { content: Some(content), refusal: None })
    }
}

/// The head of a chunk is that of its generator.
pub open spec fn is_chunk_of(
    inner: CreateChatCompletionStreamResponse,
    g: DeltaGeneratorView,
) -> bool {
    &&& inner.id@ == g.id
    &&& inner.object@ == g.object
    &&& inner.created == g.created
    &&& inner.model@ == g.model
    &&& text::text_of(inner.system_fingerprint) == g.system_fingerprint
    &&& inner.service_tier == g.service_tier
}

/// The usage that a chunk with a choice reports: none, unless usage is reported with every
/// chunk.
pub open spec fn chunk_usage(g: DeltaGeneratorView) -> Option<CompletionUsage> {
    if g.options.enable_usage && g.options.continuous_usage_stats {
        Some(totaled(g.usage))
    } else {
        None
    }
}

/// What a chunk adds to a choice, where it adds text alone.
pub open spec fn is_text_delta(
    d: ChatCompletionStreamResponseDelta,
    text: Option<String>,
    g: DeltaGeneratorView,
) -> bool {
    &&& d.content == match text {
        Some(t) => Some(ChatCompletionMessageContent::Text(t)),
        None => None,
    }
    &&& d.role == if g.msg_counter == 0 {
        Some(Role::Assistant)
    } else {
        None
    }
    &&& d.function_call is None
    &&& d.tool_calls is None
    &&& d.refusal is None
    &&& d.reasoning_content is None
}

/// A chunk that carries one choice.
pub open spec fn is_choice_chunk(
    inner: CreateChatCompletionStreamResponse,
    g: DeltaGeneratorView,
    index: u32,
    text: Option<String>,
    finish_reason: Option<FinishReason>,
) -> bool {
    &&& is_chunk_of(inner, g)
    &&& inner.usage == chunk_usage(g)
    &&& inner.choices@.len() == 1
    &&& inner.choices@[0].index == index
    &&& inner.choices@[0].finish_reason == finish_reason
    &&& is_text_delta(inner.choices@[0].delta, text, g)
}

/// The finish reason that a chunk reports for that of the backend.
pub open spec fn reported_reason(reason: Option<BackendFinishReason>) -> Option<FinishReason> {
    match reason {
        Some(BackendFinishReason::EoS) => Some(FinishReason::Stop),
        Some(BackendFinishReason::Stop) => Some(FinishReason::Stop),
        Some(BackendFinishReason::Cancelled) => Some(FinishReason::Stop),
        Some(BackendFinishReason::Length) => Some(FinishReason::Length),
        Some(BackendFinishReason::ContentFilter) => Some(FinishReason::ContentFilter),
        Some(BackendFinishReason::Error(_)) => None,
        None => None,
    }
}

/// The usage after what the backend generated: its tokens are added, and what it says of
/// the prompt is taken over.
pub open spec fn usage_after(usage: CompletionUsage, output: BackendOutput) -> CompletionUsage {
    CompletionUsage {
        completion_tokens: (usage.completion_tokens + output.token_ids@.len()) as u32,
        prompt_tokens: match output.completion_usage {
            Some(u) => u.prompt_tokens,
            None => usage.prompt_tokens,
        },
        prompt_tokens_details: match output.completion_usage {
            Some(u) => match u.prompt_tokens_details {
                Some(details) => Some(details),
                None => usage.prompt_tokens_details,
            },
            None => usage.prompt_tokens_details,
        },
        ..usage
    }
}

/// All that there is to report beyond the chat protocol.
pub open spec fn all_extras(output: BackendOutput, tracker: RequestTracker) -> NvExtResponse {
    NvExtResponse {
        worker_id: tracker.worker,
        token_ids: match output.disaggregated_params {
            Some(p) => p.token_ids,
            None => None,
        },
        timing: Some(tracker.timing),
        routed_experts: match output.disaggregated_params {
            Some(p) => p.routed_experts,
            None => None,
        },
        engine_data: output.engine_data,
        stop_reason: output.stop_reason,
        completion_token_ids: Some(output.token_ids),
        prompt_logprobs: output.prompt_logprobs,
    }
}

/// The extra fields are those of `all` that were asked for; where there are none, there is
/// no list of them.
pub open spec fn are_extras(
    r: Option<NvExtResponse>,
    selection: NvExtResponseFieldSelection,
    finished: bool,
    all: NvExtResponse,
) -> bool {
    let asked = selection.selected(finished, all);
    match r {
        Some(n) => n == asked && !nvext::carries_nothing(asked),
        None => nvext::carries_nothing(asked),
    }
}

/// The chunk that a generator makes of what the backend generated.
pub open spec fn is_response_to(
    r: NvCreateChatCompletionStreamResponse,
    g: DeltaGeneratorView,
    output: BackendOutput,
    tracker: RequestTracker,
) -> bool {
    let finish_reason = reported_reason(output.finish_reason);
    &&& is_choice_chunk(
        r.inner,
        g,
        match output.index {
            Some(i) => i,
            None => 0,
        },
        output.text,
        finish_reason,
    )
    &&& are_logprobs(
        r.inner.choices@[0].logprobs,
        g.options,
        output.tokens@,
        output.token_ids@,
        output.log_probs,
        output.top_logprobs,
    )
    &&& are_extras(
        r.nvext,
        g.options.response_fields,
        finish_reason is Some,
        all_extras(output, tracker),
    )
}

/// Whether the request is finished by what the backend generated, so that its tracker has to
/// record the end before it reports.
pub fn records_finish(output: &BackendOutput) -> (r: bool)
    ensures
        r == (reported_reason(output.finish_reason) is Some),
{
    match &output.finish_reason {
        Some(BackendFinishReason::Error(_)) => false,
        Some(_) => true,
        None => false,
    }
}

impl DeltaGenerator {
    /// A chunk with neither choices nor usage.
    fn bare_chunk(&self) -> (r: CreateChatCompletionStreamResponse)
        ensures
            is_chunk_of(r, self@),
            r.choices@.len() == 0,
            r.usage is None,
    {
        CreateChatCompletionStreamResponse {
            id: self.id.clone(),
            object: self.object.clone(),
            created: self.created,
            model: self.model.clone(),
            system_fingerprint: match &self.system_fingerprint {
                Some(s) => Some(s.clone()),
                None => None,
            },
            choices: Vec::new(),
            usage: None,
            service_tier: self.service_tier,
        }
    }

    /// A chunk that carries one choice. Usage is left out unless it is reported with every
    /// chunk: a chunk of its own reports it in the end.
    pub fn create_choice(
        &mut self,
        index: u32,
        text: Option<String>,
        finish_reason: Option<FinishReason>,
        logprobs: Option<ChatChoiceLogprobs>,
    ) -> (r: NvCreateChatCompletionStreamResponse)
        ensures
            final(self)@ == old(self)@,
            is_choice_chunk(r.inner, old(self)@, index, text, finish_reason),
            r.inner.choices@[0].logprobs == logprobs,
            r.nvext is None,
    {
        let delta: ChatCompletionStreamResponseDelta = ChatCompletionStreamResponseDelta {
            content: match text {
                Some(t) => Some(ChatCompletionMessageContent::Text(t)),
                None => None,
            },
            function_call: None,
            tool_calls: None,
            role: if self.msg_counter == 0 {
                Some(Role::Assistant)
            } else {
                None
            },
            refusal: None,
            reasoning_content: None,
        };
        let choice: ChatChoiceStream = ChatChoiceStream { index, delta, finish_reason, logprobs };
        let mut inner: CreateChatCompletionStreamResponse = self.bare_chunk();
        inner.choices.push(choice);
        if self.options.enable_usage && self.options.continuous_usage_stats {
            inner.usage = Some(self.get_usage());
        }
        NvCreateChatCompletionStreamResponse { inner, nvext: None }
    }

    /// The chunk that reports usage after the last choice. It carries no choice.
    pub fn create_usage_chunk(&self) -> (r: NvCreateChatCompletionStreamResponse)
        ensures
            is_chunk_of(r.inner, self@),
            r.inner.choices@.len() == 0,
            r.inner.usage == Some(totaled(self@.usage)),
            r.nvext is None,
    {
        let mut inner: CreateChatCompletionStreamResponse = self.bare_chunk();
        inner.usage = Some(self.get_usage());
        NvCreateChatCompletionStreamResponse { inner, nvext: None }
    }

    /// Whether usage is reported.
    pub fn is_usage_enabled(&self) -> (r: bool)
        ensures
            r == self@.options.enable_usage,
    {
        self.options.enable_usage
    }

    /// Whether usage is reported with every chunk.
    pub fn is_continuous_usage_enabled(&self) -> (r: bool)
        ensures
            r == self@.options.continuous_usage_stats,
    {
        self.options.continuous_usage_stats
    }

    /// The usage so far, with its total.
    pub fn get_usage(&self) -> (r: CompletionUsage)
        ensures
            r == totaled(self@.usage),
    {
        let mut usage: CompletionUsage = self.usage;
        usage.total_tokens = usage.prompt_tokens.saturating_add(usage.completion_tokens);
        usage
    }

    /// The number of prompt tokens.
    pub fn get_isl(&self) -> (r: Option<u32>)
        ensures
            r == Some(self@.usage.prompt_tokens),
    {
        Some(self.usage.prompt_tokens)
    }

    /// Makes a chunk of what the backend generated. Its tokens count even where the backend
    /// reports an error, which is handed on. `tracker` is what the tracker of the request
    /// reports once it has recorded the end, if this is the end.
    pub fn choice_from_postprocessor(
        &mut self,
        output: BackendOutput,
        tracker: &RequestTracker,
    ) -> (r:
        Result<NvCreateChatCompletionStreamResponse, BackendError>)
        requires
            old(self)@.usage.completion_tokens + output.token_ids@.len() <= u32::MAX,
        ensures
            final(self)@ == (DeltaGeneratorView {
                usage: usage_after(old(self)@.usage, output),
                ..old(self)@
            }),
            r matches Err(e) ==> output.finish_reason == Some(
                BackendFinishReason::Error(e.message),
            ),
            r matches Ok(response) ==> !(output.finish_reason matches Some(
                BackendFinishReason::Error(_),
            )) && is_response_to(response, final(self)@, output, *tracker),
    {
        let ghost given = output;
        self.usage.completion_tokens = self.usage.completion_tokens + output.token_ids.len() as u32;
        if let Some(usage) = output.completion_usage {
            self.usage.prompt_tokens = usage.prompt_tokens;
            if let Some(details) = usage.prompt_tokens_details {
                self.usage.prompt_tokens_details = Some(details);
            }
        }
        let logprobs: Option<ChatChoiceLogprobs> = self.create_logprobs(
            &output.tokens,
            &output.token_ids,
            output.log_probs,
            output.top_logprobs,
        );
        let finish_reason: Option<FinishReason> = match output.finish_reason {
            Some(BackendFinishReason::EoS) => Some(FinishReason::Stop),
            Some(BackendFinishReason::Stop) => Some(FinishReason::Stop),
            Some(BackendFinishReason::Length) => Some(FinishReason::Length),
            Some(BackendFinishReason::Cancelled) => Some(FinishReason::Stop),
            Some(BackendFinishReason::ContentFilter) => Some(FinishReason::ContentFilter),
            Some(BackendFinishReason::Error(message)) => {
                return Err(BackendError { message });
            },
            None => None,
        };
        let index: u32 = match output.index {
            Some(i) => i,
            None => 0,
        };
        let mut response: NvCreateChatCompletionStreamResponse = self.create_choice(
            index,
            output.text,
            finish_reason,
            logprobs,
        );
        let (token_ids, routed_experts) = match output.disaggregated_params {
            Some(p) => (p.token_ids, p.routed_experts),
            None => (None, None),
        };
        let all: NvExtResponse = NvExtResponse {
            worker_id: tracker.worker,
            token_ids,
            timing: Some(tracker.timing),
            routed_experts,
            engine_data: output.engine_data,
            stop_reason: output.stop_reason,
            completion_token_ids: Some(output.token_ids),
            prompt_logprobs: output.prompt_logprobs,
        };
        assert(all == all_extras(given, *tracker));
        response.nvext = self.options.response_fields.build_response_nvext(
            finish_reason.is_some(),
            all,
        );
        Ok(response)
    }
}

/// Turning usage on twice is turning it on once, and it is on afterwards unless the response
/// is streamed.
pub proof fn law_usage_turned_on_once(
    stream_options: Option<ChatCompletionStreamOptions>,
    original_stream_flag: bool,
)
    ensures
        with_usage(with_usage(stream_options, original_stream_flag), original_stream_flag)
            == with_usage(stream_options, original_stream_flag),
        !original_stream_flag ==> options_of(
            with_usage(stream_options, original_stream_flag),
            None,
            false,
            None,
        ).enable_usage,
{
}

/// The tokens of all chunks add up, in the order of the chunks or another, as long as they
/// can be counted.
pub proof fn law_usage_adds_up(usage: CompletionUsage, a: BackendOutput, b: BackendOutput)
    requires
        usage.completion_tokens + a.token_ids@.len() + b.token_ids@.len() <= u32::MAX,
    ensures
        usage_after(usage_after(usage, a), b).completion_tokens == usage.completion_tokens
            + a.token_ids@.len() + b.token_ids@.len(),
        usage_after(usage_after(usage, a), b).completion_tokens == usage_after(
            usage_after(usage, b),
            a,
        ).completion_tokens,
{
}

/// Texts run together.
pub open spec fn run_together(texts: Seq<Seq<char>>) -> Seq<char>
    decreases texts.len(),
{
    if texts.len() == 0 {
        seq![]
    } else {
        run_together(texts.drop_last()) + texts.last()
    }
}

/// The entries of a chunk report the tokens of the backend in their order. Where tokens are
/// written as text, the token of an entry is exactly the text that the backend gave, white space
/// included, and empty where it gave none; so the tokens of the entries run together to the texts
/// that the backend gave. Where tokens are written as identifiers, an entry names its identifier.
/// The bytes of an entry are those of its token, and its probability and alternatives are those
/// that the backend gave for the token.
pub proof fn law_entries_report_the_tokens_of_the_backend(
    content: Seq<ChatCompletionTokenLogprob>,
    options: DeltaGeneratorOptions,
    tokens: Seq<TokenType>,
    token_ids: Seq<TokenIdType>,
    lps: Vec<Float32>,
    top: Vec<Vec<TopLogprobs>>,
    r: Option<ChatChoiceLogprobs>,
    list: Vec<ChatCompletionTokenLogprob>,
)
    requires
        are_logprobs(r, options, tokens, token_ids, Some(lps), Some(top)),
        r matches Some(out) && out.content == Some(list),
        content == list@,
    ensures
        options.enable_logprobs,
        content.len() <= tokens.len(),
        content.len() <= token_ids.len(),
        content.len() <= lps@.len(),
        content.len() <= top@.len(),
        content.len() == tokens.len() || content.len() == token_ids.len() || content.len()
            == lps@.len() || content.len() == top@.len(),
        forall|k: int|
            0 <= k < content.len() ==> {
                &&& !options.return_tokens_as_token_ids && tokens[k] is Some ==> (
                #[trigger] content[k]).token@ == tokens[k].unwrap()@
                &&& !options.return_tokens_as_token_ids && tokens[k] is None
                    ==> content[k].token@.len() == 0
                &&& options.return_tokens_as_token_ids ==> content[k].token@ == "token_id:"@
                    + text::decimal(token_ids[k] as nat)
                &&& content[k].logprob == lps@[k]
                &&& content[k].top_logprobs == top@[k]
                &&& content[k].bytes matches Some(bytes) && bytes@ == vstd::utf8::encode_utf8(
                    content[k].token@,
                )
            },
        !options.return_tokens_as_token_ids && content.len() == tokens.len() ==> run_together(
            Seq::new(content.len(), |k: int| content[k].token@),
        ) == run_together(
            Seq::new(
                tokens.len(),
                |k: int|
                    if tokens[k] is Some {
                        tokens[k].unwrap()@
                    } else {
                        Seq::empty()
                    },
            ),
        ),
{
    reveal_strlit("");
    assert forall|k: int| 0 <= k < content.len() implies is_entry(
        #[trigger] content[k],
        tokens[k],
        token_ids[k],
        lps@[k],
        top@[k],
        options.return_tokens_as_token_ids,
    ) by {
    }
    if !options.return_tokens_as_token_ids && content.len() == tokens.len() {
        let a = Seq::new(content.len(), |k: int| content[k].token@);
        let b = Seq::new(
            tokens.len(),
            |k: int|
                if tokens[k] is Some {
                    tokens[k].unwrap()@
                } else {
                    Seq::empty()
                },
        );
        assert forall|k: int| 0 <= k < a.len() implies a[k] == b[k] by {
            assert(is_entry(
                content[k],
                tokens[k],
                token_ids[k],
                lps@[k],
                top@[k],
                options.return_tokens_as_token_ids,
            ));
            assert(a[k] =~= b[k]);
        }
        assert(a =~= b);
    }
}

/// Probabilities are reported exactly where they are enabled and the backend gives them; the
/// tokens are listed exactly where it also gives alternatives, and nothing is said of a refusal.
pub proof fn law_probabilities_are_reported_where_given(
    r: Option<ChatChoiceLogprobs>,
    options: DeltaGeneratorOptions,
    tokens: Seq<TokenType>,
    token_ids: Seq<TokenIdType>,
    logprobs: Option<Vec<Float32>>,
    top_logprobs: Option<Vec<Vec<TopLogprobs>>>,
)
    requires
        are_logprobs(r, options, tokens, token_ids, logprobs, top_logprobs),
    ensures
        r is Some <==> options.enable_logprobs && logprobs is Some,
        r matches Some(out) ==> out.refusal is None && (out.content is Some <==> top_logprobs
            is Some),
{
}

/// The options of a generator are those that the request sets: usage is reported where it is to
/// be included, with every chunk where that is asked for, and tokens are written as identifiers
/// where that is asked for; what the request leaves out is off.
pub proof fn law_options_are_what_the_request_sets(
    stream_options: Option<ChatCompletionStreamOptions>,
    return_tokens_as_token_ids: Option<bool>,
    enable_logprobs: bool,
    nvext: Option<NvExt>,
)
    ensures
        ({
            let o = options_of(stream_options, return_tokens_as_token_ids, enable_logprobs, nvext);
            &&& stream_options matches Some(s) ==> o.enable_usage == s.include_usage
                && o.continuous_usage_stats == s.continuous_usage_stats
            &&& stream_options is None ==> !o.enable_usage && !o.continuous_usage_stats
            &&& return_tokens_as_token_ids matches Some(b) ==> o.return_tokens_as_token_ids == b
            &&& return_tokens_as_token_ids is None ==> !o.return_tokens_as_token_ids
            &&& o.enable_logprobs == enable_logprobs
            &&& o.response_fields == nvext::selection_of(nvext)
        }),
{
}

/// Usage is turned on for a response that is not streamed, and whether it comes with every chunk
/// stays as the request says; a streamed response keeps what its request says.
pub proof fn law_usage_is_turned_on_for_what_is_not_streamed(
    stream_options: Option<ChatCompletionStreamOptions>,
)
    ensures
        with_usage(stream_options, true) == stream_options,
        with_usage(stream_options, false) matches Some(o) && o.include_usage && (
        stream_options matches Some(s) ==> o.continuous_usage_stats == s.continuous_usage_stats) && (
        stream_options is None ==> !o.continuous_usage_stats),
{
}

/// A request wants probabilities where it asks for them, or for alternatives.
pub proof fn law_probabilities_are_wanted_where_asked_for(request: NvCreateChatCompletionRequest)
    ensures
        request.inner.logprobs == Some(true) ==> request.wants_logprobs(),
        request.inner.top_logprobs matches Some(n) ==> (n > 0 ==> request.wants_logprobs()),
        request.inner.logprobs != Some(true) && (request.inner.top_logprobs matches Some(n) ==> n
            == 0) ==> !request.wants_logprobs(),
{
}

/// A new generator has counted nothing, names the request in its identifier, and keeps the model
/// and the options that it was given.
pub proof fn law_new_generator_has_counted_nothing(
    model: Seq<char>,
    options: DeltaGeneratorOptions,
    request_id: Seq<char>,
    created: u32,
)
    ensures
        ({
            let g = new_generator(model, options, request_id, created);
            &&& g.id == "chatcmpl-"@ + request_id
            &&& g.object == "chat.completion.chunk"@
            &&& g.model == model
            &&& g.created == created
            &&& g.options == options
            &&& g.usage.prompt_tokens == 0
            &&& g.usage.completion_tokens == 0
            &&& g.usage.prompt_tokens_details is None
            &&& g.usage.completion_tokens_details is None
            &&& g.system_fingerprint is None
            &&& g.service_tier is None
            &&& g.msg_counter == 0
        }),
{
}

/// The total of a usage is the sum of its parts, or the largest number where the sum is larger;
/// nothing else changes.
pub proof fn law_total_is_the_sum(usage: CompletionUsage)
    ensures
        usage.prompt_tokens + usage.completion_tokens <= u32::MAX ==> totaled(usage).total_tokens
            == usage.prompt_tokens + usage.completion_tokens,
        usage.prompt_tokens + usage.completion_tokens > u32::MAX ==> totaled(usage).total_tokens
            == u32::MAX,
        totaled(usage).prompt_tokens == usage.prompt_tokens,
        totaled(usage).completion_tokens == usage.completion_tokens,
        totaled(usage).prompt_tokens_details == usage.prompt_tokens_details,
        totaled(usage).completion_tokens_details == usage.completion_tokens_details,
{
}

/// What the backend says of the prompt is taken over, and what it leaves out stays; its tokens
/// are added to those that were counted.
pub proof fn law_usage_follows_the_backend(usage: CompletionUsage, output: BackendOutput)
    requires
        usage.completion_tokens + output.token_ids@.len() <= u32::MAX,
    ensures
        ({
            let after = usage_after(usage, output);
            &&& after.completion_tokens == usage.completion_tokens + output.token_ids@.len()
            &&& output.completion_usage is None ==> after.prompt_tokens == usage.prompt_tokens
                && after.prompt_tokens_details == usage.prompt_tokens_details
            &&& output.completion_usage matches Some(u) ==> after.prompt_tokens == u.prompt_tokens
                && (u.prompt_tokens_details is Some ==> after.prompt_tokens_details
                == u.prompt_tokens_details) && (u.prompt_tokens_details is None
                ==> after.prompt_tokens_details == usage.prompt_tokens_details)
            &&& after.completion_tokens_details == usage.completion_tokens_details
            &&& after.total_tokens == usage.total_tokens
        }),
{
}

/// A chunk with a choice reports usage exactly where usage is reported and comes with every
/// chunk.
pub proof fn law_chunk_reports_usage_where_continuous(g: DeltaGeneratorView)
    ensures
        chunk_usage(g) is Some <==> g.options.enable_usage && g.options.continuous_usage_stats,
        chunk_usage(g) matches Some(usage) ==> usage == totaled(g.usage),
{
}

/// A chunk carries one choice, with the index, the text as it is, and the finish reason that it
/// was made with, under the identifier and the model of its generator.
pub proof fn law_chunk_carries_its_choice(
    inner: CreateChatCompletionStreamResponse,
    g: DeltaGeneratorView,
    index: u32,
    text: Option<String>,
    finish_reason: Option<FinishReason>,
)
    requires
        is_choice_chunk(inner, g, index, text, finish_reason),
    ensures
        inner.choices@.len() == 1,
        inner.choices@[0].index == index,
        inner.choices@[0].finish_reason == finish_reason,
        text matches Some(t) ==> (
        inner.choices@[0].delta.content matches Some(ChatCompletionMessageContent::Text(said))
            && said@ == t@),
        text is None ==> inner.choices@[0].delta.content is None,
        g.msg_counter == 0 ==> inner.choices@[0].delta.role == Some(Role::Assistant),
        inner.choices@[0].delta.tool_calls is None,
        inner.choices@[0].delta.function_call is None,
        inner.choices@[0].delta.refusal is None,
        inner.choices@[0].delta.reasoning_content is None,
        inner.id@ == g.id,
        inner.model@ == g.model,
        inner.created == g.created,
        inner.object@ == g.object,
        inner.usage is Some <==> g.options.enable_usage && g.options.continuous_usage_stats,
{
}

/// The reason that a chunk reports: the end of a sequence, a stop and a cancellation are a stop;
/// a length and a content filter stay what they are. An error is not reported as a reason, and
/// nothing is reported where the backend has not finished.
pub proof fn law_reported_reason_keeps_its_meaning(reason: BackendFinishReason)
    ensures
        reported_reason(None) is None,
        reason is Error <==> reported_reason(Some(reason)) is None,
        reason is EoS || reason is Stop || reason is Cancelled <==> reported_reason(Some(reason))
            == Some(FinishReason::Stop),
        reason is Length <==> reported_reason(Some(reason)) == Some(FinishReason::Length),
        reason is ContentFilter <==> reported_reason(Some(reason)) == Some(
            FinishReason::ContentFilter,
        ),
{
}

/// The chunk that is made of what the backend generated carries its text as it is, under the
/// index that it gives, or the first index where it gives none. The extra fields are taken from
/// what the backend and the tracker report, as far as the request selects them; the timing comes
/// with the last chunk alone.
pub proof fn law_response_carries_what_was_generated(
    r: NvCreateChatCompletionStreamResponse,
    g: DeltaGeneratorView,
    output: BackendOutput,
    tracker: RequestTracker,
)
    requires
        is_response_to(r, g, output, tracker),
    ensures
        r.inner.choices@.len() == 1,
        output.index matches Some(i) ==> r.inner.choices@[0].index == i,
        output.index is None ==> r.inner.choices@[0].index == 0,
        output.text matches Some(t) ==> (
        r.inner.choices@[0].delta.content matches Some(ChatCompletionMessageContent::Text(said))
            && said@ == t@),
        output.text is None ==> r.inner.choices@[0].delta.content is None,
        r.inner.choices@[0].finish_reason == reported_reason(output.finish_reason),
        r.nvext matches Some(n) ==> {
            let f = g.options.response_fields;
            &&& f.worker_id ==> n.worker_id == tracker.worker
            &&& !f.worker_id ==> n.worker_id is None
            &&& f.timing && reported_reason(output.finish_reason) is Some ==> n.timing == Some(
                tracker.timing,
            )
            &&& !f.timing || reported_reason(output.finish_reason) is None ==> n.timing is None
            &&& f.engine_data ==> n.engine_data == output.engine_data
            &&& !f.engine_data ==> n.engine_data is None
            &&& f.stop_reason ==> n.stop_reason == output.stop_reason
            &&& !f.stop_reason ==> n.stop_reason is None
            &&& f.completion_token_ids ==> n.completion_token_ids == Some(output.token_ids)
            &&& !f.completion_token_ids ==> n.completion_token_ids is None
            &&& f.prompt_logprobs ==> n.prompt_logprobs == output.prompt_logprobs
            &&& !f.prompt_logprobs ==> n.prompt_logprobs is None
            &&& f.token_ids ==> n.token_ids == (match output.disaggregated_params {
                Some(p) => p.token_ids,
                None => None,
            })
            &&& !f.token_ids ==> n.token_ids is None
            &&& f.routed_experts ==> n.routed_experts == (match output.disaggregated_params {
                Some(p) => p.routed_experts,
                None => None,
            })
            &&& !f.routed_experts ==> n.routed_experts is None
        },
        r.nvext is None ==> {
            let f = g.options.response_fields;
            &&& f.worker_id ==> tracker.worker is None
            &&& f.timing ==> reported_reason(output.finish_reason) is None
            &&& f.engine_data ==> output.engine_data is None
            &&& f.stop_reason ==> output.stop_reason is None
            &&& !f.completion_token_ids
            &&& f.prompt_logprobs ==> output.prompt_logprobs is None
            &&& f.token_ids ==> (output.disaggregated_params matches Some(p) ==> p.token_ids
                is None)
            &&& f.routed_experts ==> (output.disaggregated_params matches Some(p)
                ==> p.routed_experts is None)
        },
{
}

/// The tokens that a chunk reports with their probabilities are those that the backend generated
/// with it: the token of each entry is the text that the backend gave.
pub proof fn law_response_reports_the_tokens_of_the_backend(
    r: NvCreateChatCompletionStreamResponse,
    g: DeltaGeneratorView,
    output: BackendOutput,
    tracker: RequestTracker,
    list: Vec<ChatCompletionTokenLogprob>,
    k: int,
)
    requires
        is_response_to(r, g, output, tracker),
        r.inner.choices@[0].logprobs matches Some(out) && out.content == Some(list),
        !g.options.return_tokens_as_token_ids,
        0 <= k < list@.len(),
    ensures
        k < output.tokens@.len(),
        output.tokens@[k] matches Some(t) ==> list@[k].token@ == t@,
        output.tokens@[k] is None ==> list@[k].token@.len() == 0,
        output.log_probs matches Some(lps) && list@[k].logprob == lps@[k],
        output.top_logprobs matches Some(top) && list@[k].top_logprobs == top@[k],
{
    reveal_strlit("");
    let lps = output.log_probs.unwrap();
    let top = output.top_logprobs.unwrap();
    assert(is_entry(
        list@[k],
        output.tokens@[k],
        output.token_ids@[k],
        lps@[k],
        top@[k],
        g.options.return_tokens_as_token_ids,
    ));
}

/// A chunk has the head of its generator: identifier, kind, time, model, fingerprint and tier.
pub proof fn law_chunk_has_the_head_of_its_generator(
    inner: CreateChatCompletionStreamResponse,
    g: DeltaGeneratorView,
)
    requires
        is_chunk_of(inner, g),
    ensures
        inner.id@ == g.id,
        inner.object@ == g.object,
        inner.created == g.created,
        inner.model@ == g.model,
        inner.system_fingerprint is Some <==> g.system_fingerprint is Some,
        inner.system_fingerprint matches Some(f) ==> g.system_fingerprint == Some(f@),
        inner.service_tier == g.service_tier,
{
}

} // verus!
