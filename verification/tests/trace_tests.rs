//! The record of a request of an agent.

use std::sync::Arc;

use toolcall::finish_metadata::{
    completion_finish_reason_to_finish_reason, record_backend_finish_reason_metadata,
    record_chat_finish_reason_metadata, record_completion_finish_reason_metadata,
    FinishReasonMetadataState,
};
use toolcall::nvext::{
    NvCreateChatCompletionStreamResponse, NvCreateCompletionResponse, TimingInfo, WorkerInfo,
};
use toolcall::protocol::{
    Annotated, BackendFinishReason, ChatChoiceStream, ChatCompletionMessageToolCallChunk,
    ChatCompletionStreamResponseDelta, Choice, CompletionFinishReason,
    CreateChatCompletionStreamResponse, CreateCompletionResponse, FinishReason, Float64,
    FunctionCallStream, StopReason,
};
use toolcall::trace::{
    build_agent_trace_request_end_state, emit_agent_trace_request_end, into_owned_replay_metrics,
    owned_or_copied, request_metrics, AgentContext, AgentReplayMetrics, AgentTraceRequestEndState,
};
use toolcall::tracker::RequestTracker;

fn ms(x: f64) -> Option<Float64> {
    Some(Float64 { bits: x.to_bits() })
}

fn data<T>(data: T) -> Annotated<T> {
    Annotated { data: Some(data), id: None, event: None, comment: None, error: None }
}

fn chat_chunk(
    index: u32,
    tool_calls: Option<Vec<ChatCompletionMessageToolCallChunk>>,
    finish_reason: Option<FinishReason>,
) -> Annotated<NvCreateChatCompletionStreamResponse> {
    data(NvCreateChatCompletionStreamResponse {
        inner: CreateChatCompletionStreamResponse {
            id: "chatcmpl-1".to_string(),
            choices: vec![ChatChoiceStream {
                index,
                delta: ChatCompletionStreamResponseDelta {
                    content: None,
                    function_call: None,
                    tool_calls,
                    role: None,
                    refusal: None,
                    reasoning_content: None,
                },
                finish_reason,
                logprobs: None,
            }],
            created: 0,
            model: "test-model".to_string(),
            service_tier: None,
            system_fingerprint: None,
            object: "chat.completion.chunk".to_string(),
            usage: None,
        },
        nvext: None,
    })
}

fn piece(index: u32, id: Option<&str>, name: Option<&str>) -> ChatCompletionMessageToolCallChunk {
    ChatCompletionMessageToolCallChunk {
        index,
        id: id.map(str::to_string),
        function: Some(FunctionCallStream { name: name.map(str::to_string), arguments: None }),
    }
}

fn agent(session_id: &str) -> AgentContext {
    AgentContext {
        session_type_id: "ms_agent".to_string(),
        session_id: session_id.to_string(),
        trajectory_id: format!("{}:agent", session_id),
        parent_trajectory_id: None,
        trajectory_final: None,
    }
}

#[test]
fn test_request_metrics_from_tracker() {
    let tracker = RequestTracker {
        isl_tokens: Some(128),
        cached_tokens: Some(32),
        osl_tokens: 5,
        timing: TimingInfo {
            request_received_ms: 1,
            prefill_wait_time_ms: ms(0.5),
            prefill_time_ms: ms(1.5),
            ttft_ms: ms(2.0),
            total_time_ms: ms(4.0),
            kv_hit_rate: ms(0.5),
            kv_transfer_estimated_latency_ms: ms(1.0),
            router_queue_depth: Some(3),
        },
        worker: Some(WorkerInfo {
            prefill_worker_id: Some(17),
            prefill_dp_rank: Some(2),
            decode_worker_id: Some(17),
            decode_dp_rank: Some(2),
        }),
        avg_itl_ms: ms(0.25),
    };

    let metrics = request_metrics(
        "req-1".to_string(),
        Some("llm-call-1".to_string()),
        "test-model".to_string(),
        Some(&tracker),
    );

    assert_eq!(metrics.request_id, "req-1");
    assert_eq!(metrics.x_request_id.as_deref(), Some("llm-call-1"));
    assert_eq!(metrics.model, "test-model");
    assert_eq!(metrics.input_tokens, Some(128));
    assert_eq!(metrics.output_tokens, Some(5));
    assert_eq!(metrics.cached_tokens, Some(32));
    assert!(metrics.request_received_ms.is_some_and(|ms| ms > 0));
    assert_eq!(metrics.prefill_wait_time_ms, ms(0.5));
    assert_eq!(metrics.prefill_time_ms, ms(1.5));
    assert_eq!(metrics.ttft_ms, ms(2.0));
    assert_eq!(metrics.total_time_ms, ms(4.0));
    assert_eq!(metrics.avg_itl_ms, ms(0.25));
    assert_eq!(metrics.kv_hit_rate, ms(0.5));
    assert_eq!(metrics.kv_transfer_estimated_latency_ms, ms(1.0));
    assert_eq!(metrics.queue_depth, Some(3));
    assert!(metrics.finish_reason_metadata.is_none());
    let worker = metrics.worker.expect("worker info should be set");
    assert_eq!(worker.prefill_worker_id, Some(17));
    assert_eq!(worker.prefill_dp_rank, Some(2));
    assert_eq!(worker.decode_worker_id, Some(17));
    assert_eq!(worker.decode_dp_rank, Some(2));
}

#[test]
fn test_request_metrics_without_tracker_is_partial() {
    let metrics = request_metrics(
        "req-1".to_string(),
        Some("llm-call-1".to_string()),
        "test-model".to_string(),
        None,
    );

    assert_eq!(metrics.request_id, "req-1");
    assert_eq!(metrics.x_request_id.as_deref(), Some("llm-call-1"));
    assert_eq!(metrics.model, "test-model");
    assert_eq!(metrics.input_tokens, None);
    assert_eq!(metrics.output_tokens, None);
    assert_eq!(metrics.cached_tokens, None);
    assert_eq!(metrics.request_received_ms, None);
    assert_eq!(metrics.prefill_wait_time_ms, None);
    assert_eq!(metrics.prefill_time_ms, None);
    assert_eq!(metrics.ttft_ms, None);
    assert_eq!(metrics.total_time_ms, None);
    assert_eq!(metrics.avg_itl_ms, None);
    assert_eq!(metrics.kv_hit_rate, None);
    assert_eq!(metrics.kv_transfer_estimated_latency_ms, None);
    assert_eq!(metrics.queue_depth, None);
    assert!(metrics.finish_reason_metadata.is_none());
    assert!(metrics.worker.is_none());
}

#[test]
fn test_chat_request_end_records_finish_reason_metadata() {
    let mut finish_reason_metadata = FinishReasonMetadataState::new();
    record_backend_finish_reason_metadata(
        &mut finish_reason_metadata,
        Some(0),
        Some(&BackendFinishReason::Stop),
        Some(&StopReason::String("END".to_string())),
    );

    let mut trace_state = AgentTraceRequestEndState {
        agent_context: agent("run-finish"),
        request_model: "test-model".to_string(),
        x_request_id: Some("llm-call-1".to_string()),
        replay_metrics: None,
        finish_reason_metadata,
    };

    for response in [
        chat_chunk(0, Some(vec![piece(0, Some("call-1"), Some("web_search"))]), None),
        chat_chunk(0, None, Some(FinishReason::ToolCalls)),
    ] {
        record_chat_finish_reason_metadata(&mut trace_state.finish_reason_metadata, &response);
    }
    let (context, request) =
        emit_agent_trace_request_end(trace_state, "req-finish".to_string(), None);

    assert_eq!(context, agent("run-finish"));
    assert_eq!(request.request_id, "req-finish");
    let metadata = request.finish_reason_metadata.expect("finish metadata should be recorded");
    assert_eq!(metadata.backend_finish_reason.as_deref(), Some("stop"));
    assert_eq!(metadata.finish_reason, Some(FinishReason::ToolCalls));
    assert_eq!(metadata.stop_reason, Some(StopReason::String("END".to_string())));
    assert_eq!(metadata.tool_calls.len(), 1);
    assert_eq!(metadata.tool_calls[0].choice_index, 0);
    assert_eq!(metadata.tool_calls[0].tool_call_index, 0);
    assert_eq!(metadata.tool_calls[0].id.as_deref(), Some("call-1"));
    assert_eq!(metadata.tool_calls[0].name.as_deref(), Some("web_search"));
    assert_eq!(metadata.choices.len(), 1);
    assert_eq!(metadata.choices[0].choice_index, 0);
    assert_eq!(metadata.choices[0].backend_finish_reason.as_deref(), Some("stop"));
    assert_eq!(metadata.choices[0].finish_reason, Some(FinishReason::ToolCalls));
}

#[test]
fn test_completion_request_end_records_finish_reason_metadata() {
    let mut finish_reason_metadata = FinishReasonMetadataState::new();
    record_backend_finish_reason_metadata(
        &mut finish_reason_metadata,
        Some(0),
        Some(&BackendFinishReason::Stop),
        Some(&StopReason::String("END".to_string())),
    );

    let mut trace_state = AgentTraceRequestEndState {
        agent_context: agent("run-completion-finish"),
        request_model: "test-model".to_string(),
        x_request_id: Some("completion-call-1".to_string()),
        replay_metrics: None,
        finish_reason_metadata,
    };

    let response = data(NvCreateCompletionResponse {
        inner: CreateCompletionResponse {
            id: "cmpl-1".to_string(),
            object: "text_completion".to_string(),
            created: 0,
            model: "test-model".to_string(),
            system_fingerprint: None,
            choices: vec![Choice {
                text: "".to_string(),
                index: 0,
                finish_reason: Some(CompletionFinishReason::Length),
            }],
            usage: None,
        },
        nvext: None,
    });
    record_completion_finish_reason_metadata(&mut trace_state.finish_reason_metadata, &response);
    let (_, request) =
        emit_agent_trace_request_end(trace_state, "req-completion-finish".to_string(), None);

    let metadata = request.finish_reason_metadata.expect("finish metadata should be recorded");
    assert_eq!(metadata.backend_finish_reason.as_deref(), Some("stop"));
    assert_eq!(metadata.finish_reason, Some(FinishReason::Length));
    assert_eq!(metadata.stop_reason, Some(StopReason::String("END".to_string())));
    assert!(metadata.tool_calls.is_empty());
    assert_eq!(metadata.choices.len(), 1);
    assert_eq!(metadata.choices[0].choice_index, 0);
    assert_eq!(metadata.choices[0].backend_finish_reason.as_deref(), Some("stop"));
    assert_eq!(metadata.choices[0].finish_reason, Some(FinishReason::Length));
}

#[test]
fn nothing_recorded_is_no_metadata() {
    let mut state = FinishReasonMetadataState::new();
    assert!(state.snapshot().is_none());
    record_backend_finish_reason_metadata(&mut state, Some(1), None, None);
    state.record_tool_call_chunk(0, 0, None, None);
    record_chat_finish_reason_metadata(
        &mut state,
        &Annotated { data: None, id: None, event: None, comment: None, error: None },
    );
    assert!(state.snapshot().is_none());
}

#[test]
fn first_identifier_and_name_stay() {
    let mut state = FinishReasonMetadataState::new();
    state.record_tool_call_chunk(0, 1, None, Some("f"));
    state.record_tool_call_chunk(1, 0, Some("b"), None);
    state.record_tool_call_chunk(0, 1, Some("a"), Some("g"));
    state.record_tool_call_chunk(0, 1, Some("c"), Some("f"));
    state.record_tool_call_chunk(1, 0, Some("b"), None);
    let calls = state.snapshot().unwrap().tool_calls;
    assert_eq!(calls.len(), 2);
    assert_eq!((calls[0].choice_index, calls[0].tool_call_index), (0, 1));
    assert_eq!((calls[0].id.as_deref(), calls[0].name.as_deref()), (Some("a"), Some("f")));
    assert_eq!((calls[1].choice_index, calls[1].tool_call_index), (1, 0));
    assert_eq!((calls[1].id.as_deref(), calls[1].name.as_deref()), (Some("b"), None));
}

#[test]
fn a_piece_twice_changes_nothing() {
    let mut state = FinishReasonMetadataState::new();
    state.record_tool_call_chunk(2, 3, Some("a"), Some("f"));
    let once = state.snapshot();
    state.record_tool_call_chunk(2, 3, Some("a"), Some("f"));
    assert_eq!(state.snapshot(), once);
}

#[test]
fn indices_do_not_run_into_each_other() {
    let mut state = FinishReasonMetadataState::new();
    state.record_tool_call_chunk(0, u32::MAX, Some("a"), None);
    state.record_tool_call_chunk(1, 0, Some("b"), None);
    state.record_tool_call_chunk(u32::MAX, u32::MAX, Some("c"), None);
    let ids: Vec<String> =
        state.snapshot().unwrap().tool_calls.into_iter().map(|c| c.id.unwrap()).collect();
    assert_eq!(ids, vec!["a", "b", "c"]);
}

#[test]
fn backend_reason_fills_in() {
    let mut state = FinishReasonMetadataState::new();
    state.record_choice_finish_reason(4, FinishReason::Stop);
    state.record_backend_finish_reason(Some(4), None, Some(StopReason::TokenId(7)));
    state.record_backend_finish_reason(None, Some("eos".to_string()), None);
    let m = state.snapshot().unwrap();
    assert_eq!(m.backend_finish_reason.as_deref(), Some("eos"));
    assert_eq!(m.stop_reason, Some(StopReason::TokenId(7)));
    assert_eq!(m.choices.len(), 1);
    assert_eq!(m.choices[0].finish_reason, Some(FinishReason::Stop));
    assert_eq!(m.choices[0].stop_reason, Some(StopReason::TokenId(7)));
    assert!(m.choices[0].backend_finish_reason.is_none());
}

#[test]
fn reasons_by_name() {
    assert_eq!(BackendFinishReason::EoS.text(), "eos");
    assert_eq!(BackendFinishReason::Length.text(), "length");
    assert_eq!(BackendFinishReason::Cancelled.text(), "cancelled");
    assert_eq!(BackendFinishReason::ContentFilter.text(), "content_filter");
    assert_eq!(BackendFinishReason::Error("x".to_string()).text(), "error: x");
    for (given, reason) in [
        (CompletionFinishReason::Stop, FinishReason::Stop),
        (CompletionFinishReason::Length, FinishReason::Length),
        (CompletionFinishReason::ContentFilter, FinishReason::ContentFilter),
    ] {
        assert_eq!(completion_finish_reason_to_finish_reason(given), reason);
    }
}

#[test]
fn state_is_built_for_traced_agents() {
    let context = agent("s");
    let id = |s: &str| Some(s.to_string());
    assert!(build_agent_trace_request_end_state(false, Some(&context), "m", None, None, None)
        .is_none());
    assert!(build_agent_trace_request_end_state(true, None, "m", None, None, None).is_none());
    let state =
        build_agent_trace_request_end_state(true, Some(&context), "m", id("t"), id("c"), None)
            .unwrap();
    assert_eq!(state.agent_context, context);
    assert_eq!(state.request_model, "m");
    assert_eq!(state.x_request_id.as_deref(), Some("t"));
    assert!(state.finish_reason_metadata.snapshot().is_none());
    let state =
        build_agent_trace_request_end_state(true, Some(&context), "m", None, id("c"), None).unwrap();
    assert_eq!(state.x_request_id.as_deref(), Some("c"));
}

#[test]
fn replay_metrics_are_owned_or_copied() {
    let metrics =
        AgentReplayMetrics { trace_block_size: 16, input_length: 20, input_sequence_hashes: vec![3, 4] };
    assert_eq!(into_owned_replay_metrics(Arc::new(metrics.clone())), metrics);
    let shared = Arc::new(metrics.clone());
    let other = shared.clone();
    assert_eq!(into_owned_replay_metrics(shared), metrics);
    assert_eq!(*other, metrics);
    assert_eq!(owned_or_copied(Ok(metrics.clone())), metrics);
    assert_eq!(owned_or_copied(Err(other)), metrics);
    let state = build_agent_trace_request_end_state(
        true,
        Some(&agent("s")),
        "m",
        None,
        None,
        Some(Arc::new(metrics.clone())),
    );
    let (_, ended) = emit_agent_trace_request_end(state.unwrap(), "r".to_string(), None);
    assert_eq!(ended.replay, Some(metrics));
}
