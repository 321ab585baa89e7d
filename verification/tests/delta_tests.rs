//! Chunks of a streamed chat response.

use toolcall::delta::{
    records_finish, BackendOutput, CreateChatCompletionRequest, DeltaGenerator,
    DeltaGeneratorOptions, NvCreateChatCompletionRequest,
};
use toolcall::nvext::{
    DisaggregatedParams, NvExt, NvExtResponse, NvExtResponseFieldSelection, TimingInfo, WorkerInfo,
};
use toolcall::protocol::{
    BackendFinishReason, ChatCompletionMessageContent, ChatCompletionStreamOptions,
    CompletionUsage, FinishReason, Float32, PromptTokensDetails, Role, StopReason, TopLogprobs,
};
use toolcall::tracker::{record_llm_metric_tokens, RequestTracker};

const CREATED: u32 = 1_700_000_000;

fn create_test_request() -> NvCreateChatCompletionRequest {
    NvCreateChatCompletionRequest {
        inner: CreateChatCompletionRequest {
            model: "test-model".to_string(),
            stream: Some(false),
            stream_options: None,
            logprobs: None,
            top_logprobs: None,
        },
        nvext: None,
        return_tokens_as_token_ids: None,
    }
}

fn make_request_with_nvext(nvext: NvExt) -> NvCreateChatCompletionRequest {
    let mut request = create_test_request();
    request.nvext = Some(nvext);
    request
}

fn extra_fields(fields: Vec<String>) -> NvExt {
    NvExt { annotations: None, extra_fields: Some(fields) }
}

fn create_test_request_with_extra_fields(fields: Vec<String>) -> NvCreateChatCompletionRequest {
    let mut request = make_request_with_nvext(extra_fields(fields));
    request.inner.stream = Some(true);
    request
}

fn final_backend_output() -> BackendOutput {
    BackendOutput {
        token_ids: vec![1],
        tokens: vec![Some("hello".to_string())],
        text: Some("hello".to_string()),
        log_probs: None,
        top_logprobs: None,
        finish_reason: Some(BackendFinishReason::Stop),
        stop_reason: None,
        index: Some(0),
        completion_usage: None,
        disaggregated_params: Some(DisaggregatedParams {
            token_ids: Some(vec![11, 22, 33]),
            routed_experts: Some(r#"{"layer_0":[1,3]}"#.to_string()),
        }),
        engine_data: None,
        prompt_logprobs: None,
    }
}

fn make_backend_output_with_engine_data() -> BackendOutput {
    BackendOutput {
        token_ids: vec![42],
        disaggregated_params: None,
        engine_data: Some(
            r#"{"kv_transfer_time_ms":12.3,"disaggregated_kv_transfer_time_ms":8.1,"prefill_compute_time_ms":45.6}"#
                .to_string(),
        ),
        ..final_backend_output()
    }
}

fn tracker() -> RequestTracker {
    RequestTracker {
        isl_tokens: None,
        cached_tokens: None,
        osl_tokens: 0,
        timing: TimingInfo {
            request_received_ms: 1,
            prefill_wait_time_ms: None,
            prefill_time_ms: None,
            ttft_ms: None,
            total_time_ms: None,
            kv_hit_rate: None,
            kv_transfer_estimated_latency_ms: None,
            router_queue_depth: None,
        },
        worker: None,
        avg_itl_ms: None,
    }
}

fn tracker_with_prefill_worker() -> RequestTracker {
    RequestTracker {
        worker: Some(WorkerInfo {
            prefill_worker_id: Some(42),
            prefill_dp_rank: Some(0),
            decode_worker_id: None,
            decode_dp_rank: None,
        }),
        ..tracker()
    }
}

fn generator_for(request: &NvCreateChatCompletionRequest, id: &str) -> DeltaGenerator {
    request.response_generator(id.to_string(), CREATED)
}

fn get_text(content: &ChatCompletionMessageContent) -> &str {
    match content {
        ChatCompletionMessageContent::Text(text) => text.as_str(),
        ChatCompletionMessageContent::Parts => "",
    }
}

#[test]
fn test_enable_usage_for_nonstreaming_enables_usage() {
    let mut request = create_test_request();
    assert!(request.inner.stream_options.is_none());

    request.enable_usage_for_nonstreaming(false);

    assert!(
        request.inner.stream_options.is_some(),
        "Non-streaming request should have stream_options created"
    );
    assert!(
        request.inner.stream_options.unwrap().include_usage,
        "Non-streaming request should have include_usage=true for OpenAI compliance"
    );
    assert!(
        !request.inner.stream_options.unwrap().continuous_usage_stats,
        "Non-streaming request should have continuous_usage_stats=false for OpenAI compliance"
    );
}

#[test]
fn test_enable_usage_for_nonstreaming_ignores_streaming() {
    let mut request = create_test_request();
    assert!(request.inner.stream_options.is_none());

    request.enable_usage_for_nonstreaming(true);

    assert!(
        request.inner.stream_options.is_none(),
        "Streaming request should not have stream_options modified"
    );
}

#[test]
fn enabling_usage_twice_is_enabling_it_once() {
    let mut request = create_test_request();
    request.inner.stream_options =
        Some(ChatCompletionStreamOptions { include_usage: false, continuous_usage_stats: true });
    request.enable_usage_for_nonstreaming(false);
    let once = request.clone();
    assert_eq!(
        once.inner.stream_options,
        Some(ChatCompletionStreamOptions { include_usage: true, continuous_usage_stats: true })
    );
    request.enable_usage_for_nonstreaming(false);
    assert_eq!(request, once);
}

#[test]
fn test_plain_request_without_extra_fields_omits_nvext() {
    let request = create_test_request();
    let mut generator = generator_for(&request, "req-no-nvext");

    let response = generator
        .choice_from_postprocessor(final_backend_output(), &tracker_with_prefill_worker())
        .expect("choice generation");

    assert!(response.nvext.is_none());
}

#[test]
fn test_backend_choice_index_is_preserved() {
    let request = create_test_request();
    let mut generator = generator_for(&request, "req-choice-index");
    let mut output = final_backend_output();
    output.index = Some(2);

    let response =
        generator.choice_from_postprocessor(output, &tracker()).expect("choice generation");

    assert_eq!(response.inner.choices[0].index, 2);
}

#[test]
fn test_stop_reason_emits_in_nvext_when_requested() {
    let request = create_test_request_with_extra_fields(vec!["stop_reason".to_string()]);
    let mut generator = generator_for(&request, "req-stop-reason-nvext");
    let mut output = final_backend_output();
    output.stop_reason = Some(StopReason::String("END".to_string()));

    let response =
        generator.choice_from_postprocessor(output, &tracker()).expect("choice generation");

    assert_eq!(
        response.nvext.unwrap().stop_reason,
        Some(StopReason::String("END".to_string()))
    );
}

#[test]
fn test_timing_extra_field_emits_timing_on_final_chunk() {
    let nvext = extra_fields(vec!["timing".to_string()]);
    let mut generator = generator_for(&make_request_with_nvext(nvext), "req-timing");

    let response = generator
        .choice_from_postprocessor(final_backend_output(), &tracker())
        .expect("choice generation");

    let nvext = response.nvext.expect("nvext present for timing request");
    assert!(
        nvext.timing.is_some(),
        "timing should be emitted when extra_fields=[\"timing\"]"
    );
    assert!(nvext.worker_id.is_none());
    assert!(nvext.token_ids.is_none());
    assert!(nvext.routed_experts.is_none());
}

#[test]
fn timing_waits_for_the_final_chunk() {
    let nvext = extra_fields(vec!["timing".to_string()]);
    let mut generator = generator_for(&make_request_with_nvext(nvext), "req-timing-2");
    let mut output = final_backend_output();
    output.finish_reason = None;
    assert!(!records_finish(&output));
    let response = generator.choice_from_postprocessor(output, &tracker()).unwrap();
    assert!(response.nvext.is_none());
    assert!(records_finish(&final_backend_output()));
}

#[test]
fn test_query_instance_id_emits_worker_id_and_token_ids() {
    let nvext = NvExt {
        annotations: Some(vec!["query_instance_id:abc".to_string()]),
        extra_fields: None,
    };
    let mut generator = generator_for(&make_request_with_nvext(nvext), "req-qid");

    let response = generator
        .choice_from_postprocessor(final_backend_output(), &tracker_with_prefill_worker())
        .expect("choice generation");

    let nvext = response.nvext.expect("nvext present for query_instance_id flow");
    assert!(nvext.worker_id.is_some());
    assert_eq!(nvext.worker_id.unwrap().prefill_worker_id, Some(42));
    assert_eq!(nvext.token_ids, Some(vec![11, 22, 33]));
    assert!(nvext.timing.is_none());
    assert!(nvext.routed_experts.is_none());
}

#[test]
fn test_routed_experts_extra_field_emits_routed_experts() {
    let nvext = extra_fields(vec!["routed_experts".to_string()]);
    let mut generator = generator_for(&make_request_with_nvext(nvext), "req-experts");

    let response = generator
        .choice_from_postprocessor(final_backend_output(), &tracker())
        .expect("choice generation");

    let nvext = response.nvext.expect("nvext present for routed_experts request");
    let experts: serde_json::Value =
        serde_json::from_str(&nvext.routed_experts.unwrap()).unwrap();
    let expected: serde_json::Value = serde_json::from_str(r#"{"layer_0": [1, 3]}"#).unwrap();
    assert_eq!(experts, expected);
    assert!(nvext.worker_id.is_none());
    assert!(nvext.timing.is_none());
    assert!(nvext.token_ids.is_none());
}

#[test]
fn test_engine_data_included_when_requested_via_extra_fields() {
    let request = create_test_request_with_extra_fields(vec!["engine_data".to_string()]);
    let mut generator = generator_for(&request, "req-engine-1");

    let response = generator
        .choice_from_postprocessor(make_backend_output_with_engine_data(), &tracker())
        .expect("should produce a response");

    let nvext = response.nvext.expect("nvext should be present");
    let engine_data: serde_json::Value =
        serde_json::from_str(&nvext.engine_data.expect("engine_data should be present")).unwrap();
    assert_eq!(engine_data["kv_transfer_time_ms"], 12.3);
    assert_eq!(engine_data["prefill_compute_time_ms"], 45.6);
}

#[test]
fn test_engine_data_excluded_when_not_requested() {
    let request = create_test_request();
    let mut generator = generator_for(&request, "req-engine-2");

    let response = generator
        .choice_from_postprocessor(make_backend_output_with_engine_data(), &tracker())
        .expect("should produce a response");

    if let Some(nvext) = &response.nvext {
        assert!(
            nvext.engine_data.is_none(),
            "engine_data should not be present when not requested"
        );
    }
}

#[test]
fn test_engine_data_excluded_when_other_extra_fields_requested() {
    let request = create_test_request_with_extra_fields(vec!["timing".to_string()]);
    let mut generator = generator_for(&request, "req-engine-3");

    let response = generator
        .choice_from_postprocessor(make_backend_output_with_engine_data(), &tracker())
        .expect("should produce a response");

    if let Some(nvext) = &response.nvext {
        assert!(
            nvext.engine_data.is_none(),
            "engine_data should not be present when only timing is requested"
        );
    }
}

#[test]
fn test_engine_data_none_from_backend_no_nvext_noise() {
    let request = create_test_request_with_extra_fields(vec!["engine_data".to_string()]);
    let mut generator = generator_for(&request, "req-engine-4");

    let backend_output = BackendOutput {
        token_ids: vec![42],
        tokens: vec![Some("hello".to_string())],
        text: Some("hello".to_string()),
        log_probs: None,
        top_logprobs: None,
        finish_reason: Some(BackendFinishReason::Stop),
        stop_reason: None,
        index: Some(0),
        completion_usage: None,
        disaggregated_params: None,
        engine_data: None,
        prompt_logprobs: None,
    };

    let response = generator
        .choice_from_postprocessor(backend_output, &tracker())
        .expect("should produce a response");

    if let Some(nvext) = &response.nvext {
        assert!(
            nvext.engine_data.is_none(),
            "engine_data should not appear when backend provides None"
        );
    }
    assert!(response.nvext.is_none());
}

#[test]
fn test_no_tool_choice_outputs_normal_text() {
    let request = create_test_request();

    let mut generator = generator_for(&request, "req-stream-4");

    let backend_output = BackendOutput {
        token_ids: vec![],
        tokens: vec![],
        text: Some("Hello world".to_string()),
        log_probs: None,
        top_logprobs: None,
        finish_reason: None,
        stop_reason: None,
        index: Some(0),
        completion_usage: None,
        disaggregated_params: None,
        engine_data: None,
        prompt_logprobs: None,
    };

    let response =
        generator.choice_from_postprocessor(backend_output, &tracker()).expect("normal text");

    assert_eq!(
        response.inner.choices[0].delta.content.as_ref().map(get_text),
        Some("Hello world")
    );
    assert!(response.inner.choices[0].delta.tool_calls.is_none());
}

#[test]
fn other_extras_come_when_asked_for() {
    let request = create_test_request_with_extra_fields(vec![
        "completion_token_ids".to_string(),
        "prompt_logprobs".to_string(),
        "worker_id".to_string(),
    ]);
    let mut generator = generator_for(&request, "req-extras");
    let mut output = final_backend_output();
    output.prompt_logprobs = Some("[]".to_string());
    let response =
        generator.choice_from_postprocessor(output, &tracker_with_prefill_worker()).unwrap();
    let nvext = response.nvext.unwrap();
    assert_eq!(nvext.completion_token_ids, Some(vec![1]));
    assert_eq!(nvext.prompt_logprobs.as_deref(), Some("[]"));
    assert!(nvext.worker_id.is_some() && nvext.token_ids.is_none());
}

#[test]
fn unasked_response_carries_nothing() {
    let none = NvExtResponseFieldSelection::of(None);
    let all = NvExtResponse {
        worker_id: tracker_with_prefill_worker().worker,
        token_ids: Some(vec![1]),
        timing: Some(tracker().timing),
        routed_experts: Some("{}".to_string()),
        engine_data: Some("{}".to_string()),
        stop_reason: Some(StopReason::TokenId(2)),
        completion_token_ids: Some(vec![]),
        prompt_logprobs: Some("[]".to_string()),
    };
    assert!(none.build_response_nvext(true, all).is_none());
}

#[test]
fn head_of_a_chunk() {
    let request = create_test_request();
    let mut generator = generator_for(&request, "abc");
    let chunk = generator.create_choice(3, Some("hi".to_string()), Some(FinishReason::Length), None);
    assert_eq!(chunk.inner.id, "chatcmpl-abc");
    assert_eq!(chunk.inner.object, "chat.completion.chunk");
    assert_eq!(chunk.inner.created, CREATED);
    assert_eq!(chunk.inner.model, "test-model");
    assert!(chunk.inner.system_fingerprint.is_none() && chunk.inner.service_tier.is_none());
    assert_eq!(chunk.inner.choices.len(), 1);
    assert_eq!(chunk.inner.choices[0].index, 3);
    assert_eq!(chunk.inner.choices[0].finish_reason, Some(FinishReason::Length));
    assert_eq!(chunk.inner.choices[0].delta.role, Some(Role::Assistant));
    assert!(chunk.inner.usage.is_none() && chunk.nvext.is_none());
}

#[test]
fn finish_reasons_are_mapped() {
    let request = create_test_request();
    for (given, reported) in [
        (BackendFinishReason::EoS, FinishReason::Stop),
        (BackendFinishReason::Stop, FinishReason::Stop),
        (BackendFinishReason::Cancelled, FinishReason::Stop),
        (BackendFinishReason::Length, FinishReason::Length),
        (BackendFinishReason::ContentFilter, FinishReason::ContentFilter),
    ] {
        let mut generator = generator_for(&request, "r");
        let mut output = final_backend_output();
        output.finish_reason = Some(given);
        output.index = None;
        let response = generator.choice_from_postprocessor(output, &tracker()).unwrap();
        assert_eq!(response.inner.choices[0].finish_reason, Some(reported));
        assert_eq!(response.inner.choices[0].index, 0);
    }
}

#[test]
fn backend_error_is_handed_on_and_tokens_count() {
    let request = create_test_request();
    let mut generator = generator_for(&request, "r");
    let mut output = final_backend_output();
    output.finish_reason = Some(BackendFinishReason::Error("boom".to_string()));
    assert!(!records_finish(&output));
    let error = generator.choice_from_postprocessor(output, &tracker()).unwrap_err();
    assert_eq!(error.message, "boom");
    assert_eq!(generator.get_usage().completion_tokens, 1);
}

#[test]
fn usage_adds_up() {
    let mut request = create_test_request();
    request.enable_usage_for_nonstreaming(false);
    let mut generator = generator_for(&request, "r");
    assert!(generator.is_usage_enabled() && !generator.is_continuous_usage_enabled());
    generator.update_isl(7);
    assert_eq!(generator.get_isl(), Some(7));
    let mut output = final_backend_output();
    output.token_ids = vec![1, 2, 3];
    let chunk = generator.choice_from_postprocessor(output, &tracker()).unwrap();
    assert!(chunk.inner.usage.is_none());
    let mut output = final_backend_output();
    let details = PromptTokensDetails { audio_tokens: None, cached_tokens: Some(5) };
    output.completion_usage = Some(CompletionUsage {
        prompt_tokens: 9,
        completion_tokens: 100,
        total_tokens: 0,
        prompt_tokens_details: Some(details),
        completion_tokens_details: None,
    });
    generator.choice_from_postprocessor(output, &tracker()).unwrap();
    let chunk = generator.create_usage_chunk();
    assert!(chunk.inner.choices.is_empty());
    let usage = chunk.inner.usage.unwrap();
    assert_eq!((usage.prompt_tokens, usage.completion_tokens, usage.total_tokens), (9, 4, 13));
    assert_eq!(usage.prompt_tokens_details, Some(details));
}

#[test]
fn total_usage_saturates() {
    let request = create_test_request();
    let mut generator = generator_for(&request, "r");
    generator.update_isl(u32::MAX);
    generator.choice_from_postprocessor(final_backend_output(), &tracker()).unwrap();
    assert_eq!(generator.get_usage().total_tokens, u32::MAX);
}

#[test]
fn continuous_usage_comes_with_every_chunk() {
    let mut request = create_test_request();
    request.inner.stream_options =
        Some(ChatCompletionStreamOptions { include_usage: true, continuous_usage_stats: true });
    let mut generator = generator_for(&request, "r");
    let chunk = generator.choice_from_postprocessor(final_backend_output(), &tracker()).unwrap();
    assert_eq!(chunk.inner.usage.unwrap().total_tokens, 1);
}

fn lp(x: f32) -> Float32 {
    Float32 { bits: x.to_bits() }
}

fn alternatives() -> Vec<TopLogprobs> {
    vec![TopLogprobs { token: "x".to_string(), logprob: lp(-2.5), bytes: None }]
}

#[test]
fn logprobs_list_complete_tokens() {
    let mut request = create_test_request();
    request.inner.top_logprobs = Some(1);
    let generator = generator_for(&request, "r");
    let tokens = vec![Some("é".to_string()), None, Some("c".to_string())];
    let out = generator
        .create_logprobs(
            &tokens,
            &vec![5, 6, 7],
            Some(vec![lp(-0.5), lp(-1.5), lp(-2.0)]),
            Some(vec![alternatives(), vec![]]),
        )
        .unwrap();
    assert!(out.refusal.is_none());
    let content = out.content.unwrap();
    assert_eq!(content.len(), 2);
    assert_eq!(content[0].token, "é");
    assert_eq!(content[0].bytes, Some(vec![0xc3, 0xa9]));
    assert_eq!(f32::from_bits(content[0].logprob.bits), -0.5);
    assert_eq!(content[0].top_logprobs, alternatives());
    assert_eq!(content[1].token, "");
    assert_eq!(content[1].bytes, Some(vec![]));
    assert!(content[1].top_logprobs.is_empty());
}

#[test]
fn logprobs_may_name_tokens_by_identifier() {
    let mut request = create_test_request();
    request.inner.logprobs = Some(true);
    request.return_tokens_as_token_ids = Some(true);
    let generator = generator_for(&request, "r");
    let out = generator
        .create_logprobs(
            &vec![Some("a".to_string())],
            &vec![1205],
            Some(vec![lp(0.0)]),
            Some(vec![vec![]]),
        )
        .unwrap();
    let content = out.content.unwrap();
    assert_eq!(content[0].token, "token_id:1205");
    assert_eq!(content[0].bytes.as_deref(), Some("token_id:1205".as_bytes()));
}

#[test]
fn logprobs_are_left_out() {
    let tokens = vec![Some("a".to_string())];
    let off = generator_for(&create_test_request(), "r");
    assert!(off.create_logprobs(&tokens, &vec![1], Some(vec![lp(0.0)]), None).is_none());
    let mut request = create_test_request();
    request.inner.logprobs = Some(true);
    let on = generator_for(&request, "r");
    assert!(on.create_logprobs(&tokens, &vec![1], None, Some(vec![vec![]])).is_none());
    let bare = on.create_logprobs(&tokens, &vec![1], Some(vec![lp(0.0)]), None).unwrap();
    assert!(bare.content.is_none());
}

#[test]
fn options_of_a_request() {
    let options = DeltaGeneratorOptions::new(None, None, true, &None);
    assert!(options.enable_logprobs && !options.enable_usage);
    assert!(!options.return_tokens_as_token_ids && !options.continuous_usage_stats);
}

#[test]
fn earlier_token_counts_stand() {
    let mut t = tracker();
    record_llm_metric_tokens(&mut t, None, 4, None);
    assert_eq!((t.isl_tokens, t.cached_tokens, t.osl_tokens), (None, None, 4));
    record_llm_metric_tokens(&mut t, None, 5, Some(2));
    assert_eq!((t.isl_tokens, t.cached_tokens, t.osl_tokens), (Some(0), Some(2), 5));
    record_llm_metric_tokens(&mut t, Some(9), 6, Some(3));
    assert_eq!((t.isl_tokens, t.cached_tokens, t.osl_tokens), (Some(0), Some(2), 6));
}
