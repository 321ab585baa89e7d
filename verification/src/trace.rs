//! The record that a request of an agent leaves when it ends.

use std::sync::Arc;

use vstd::prelude::*;

use crate::finish_metadata;
use crate::finish_metadata::{FinishReasonMetadata, FinishReasonMetadataState};
use crate::nvext::WorkerInfo;
use crate::protocol::Float64;
use crate::text;
use crate::tracker::RequestTracker;

verus! {

/// The agent that a request belongs to.
#[derive(Clone, Debug, PartialEq, Eq)]
pub struct AgentContext {
    pub session_type_id: String,
    pub session_id: String,
    pub trajectory_id: String,
    pub parent_trajectory_id: Option<String>,
    pub trajectory_final: Option<bool>,
}

/// What an [`AgentContext`] holds.
pub struct AgentContextView {
    pub session_type_id: Seq<char>,
    pub session_id: Seq<char>,
    pub trajectory_id: Seq<char>,
    pub parent_trajectory_id: Option<Seq<char>>,
    pub trajectory_final: Option<bool>,
}

impl View for AgentContext {
    type V = AgentContextView;

    open spec fn view(&self) -> AgentContextView {
        AgentContextView {
            session_type_id: self.session_type_id@,
            session_id: self.session_id@,
            trajectory_id: self.trajectory_id@,
            parent_trajectory_id: text::text_of(self.parent_trajectory_id),
            trajectory_final: self.trajectory_final,
        }
    }
}

impl AgentContext {
    /// A copy of the context.
    pub fn copy(&self) -> (r: Self)
        ensures
            r@ == self@,
    {
        AgentContext {
            session_type_id: self.session_type_id.clone(),
            session_id: self.session_id.clone(),
            trajectory_id: self.trajectory_id.clone(),
            parent_trajectory_id: match &self.parent_trajectory_id {
                Some(s) => Some(s.clone()),
                None => None,
            },
            trajectory_final: self.trajectory_final,
        }
    }
}

/// What is needed to replay a request: the length of its input and the hashes of its blocks.
#[derive(Clone, Debug, PartialEq, Eq)]
pub struct AgentReplayMetrics {
    pub trace_block_size: usize,
    pub input_length: usize,
    pub input_sequence_hashes: Vec<u64>,
}

/// What an [`AgentReplayMetrics`] holds.
pub struct AgentReplayMetricsView {
    pub trace_block_size: usize,
    pub input_length: usize,
    pub input_sequence_hashes: Seq<u64>,
}

impl View for AgentReplayMetrics {
    type V = AgentReplayMetricsView;

    open spec fn view(&self) -> AgentReplayMetricsView {
        AgentReplayMetricsView {
            trace_block_size: self.trace_block_size,
            input_length: self.input_length,
            input_sequence_hashes: self.input_sequence_hashes@,
        }
    }
}

impl AgentReplayMetrics {
    /// A copy of the metrics.
    pub fn copy(&self) -> (r: Self)
        ensures
            r@ == self@,
    {
        let input_sequence_hashes: Vec<u64> = self.input_sequence_hashes.clone();
        assert(input_sequence_hashes@ =~= self.input_sequence_hashes@);
        AgentReplayMetrics {
            trace_block_size: self.trace_block_size,
            input_length: self.input_length,
            input_sequence_hashes,
        }
    }
}

/// What a request took.
#[derive(Clone, Debug, PartialEq, Eq)]
pub struct AgentRequestMetrics {
    pub request_id: String,
    pub x_request_id: Option<String>,
    pub model: String,
    pub input_tokens: Option<u64>,
    pub output_tokens: Option<u64>,
    pub cached_tokens: Option<u64>,
    pub request_received_ms: Option<u64>,
    pub prefill_wait_time_ms: Option<Float64>,
    pub prefill_time_ms: Option<Float64>,
    pub ttft_ms: Option<Float64>,
    pub total_time_ms: Option<Float64>,
    pub avg_itl_ms: Option<Float64>,
    pub kv_hit_rate: Option<Float64>,
    pub kv_transfer_estimated_latency_ms: Option<Float64>,
    pub queue_depth: Option<u64>,
    pub worker: Option<WorkerInfo>,
    pub replay: Option<AgentReplayMetrics>,
    pub finish_reason_metadata: Option<FinishReasonMetadata>,
}

/// A count as a 64-bit number.
pub open spec fn as_u64(n: Option<usize>) -> Option<u64> {
    match n {
        Some(n) => Some(n as u64),
        None => None,
    }
}

/// The metrics hold the readings of the tracker; without one, they hold no reading.
pub open spec fn readings_are(m: AgentRequestMetrics, tracker: Option<RequestTracker>) -> bool {
    match tracker {
        Some(t) => {
            &&& m.input_tokens == as_u64(t.isl_tokens)
            &&& m.output_tokens == Some(t.osl_tokens)
            &&& m.cached_tokens == as_u64(t.cached_tokens)
            &&& m.request_received_ms == Some(t.timing.request_received_ms)
            &&& m.prefill_wait_time_ms == t.timing.prefill_wait_time_ms
            &&& m.prefill_time_ms == t.timing.prefill_time_ms
            &&& m.ttft_ms == t.timing.ttft_ms
            &&& m.total_time_ms == t.timing.total_time_ms
            &&& m.avg_itl_ms == t.avg_itl_ms
            &&& m.kv_hit_rate == t.timing.kv_hit_rate
            &&& m.kv_transfer_estimated_latency_ms == t.timing.kv_transfer_estimated_latency_ms
            &&& m.queue_depth == as_u64(t.timing.router_queue_depth)
            &&& m.worker == t.worker
        },
        None => {
            &&& m.input_tokens is None
            &&& m.output_tokens is None
            &&& m.cached_tokens is None
            &&& m.request_received_ms is None
            &&& m.prefill_wait_time_ms is None
            &&& m.prefill_time_ms is None
            &&& m.ttft_ms is None
            &&& m.total_time_ms is None
            &&& m.avg_itl_ms is None
            &&& m.kv_hit_rate is None
            &&& m.kv_transfer_estimated_latency_ms is None
            &&& m.queue_depth is None
            &&& m.worker is None
        },
    }
}

/// A count as a 64-bit number.
fn widen(n: Option<usize>) -> (r: Option<u64>)
    ensures
        r == as_u64(n),
{
    match n {
        Some(n) => Some(n as u64),
        None => None,
    }
}

/// What a request took, as far as its tracker tells. Without a tracker the metrics are
/// partial.
pub fn request_metrics(
    request_id: String,
    x_request_id: Option<String>,
    model: String,
    tracker: Option<&RequestTracker>,
) -> (r: AgentRequestMetrics)
    ensures
        r.request_id == request_id,
        r.x_request_id == x_request_id,
        r.model == model,
        tracker matches Some(t) ==> readings_are(r, Some(*t)),
        tracker is None ==> readings_are(r, None),
        r.replay is None,
        r.finish_reason_metadata is None,
{
    match tracker {
        Some(t) => AgentRequestMetrics {
            request_id,
            x_request_id,
            model,
            input_tokens: widen(t.isl_tokens),
            output_tokens: Some(t.osl_tokens),
            cached_tokens: widen(t.cached_tokens),
            request_received_ms: Some(t.timing.request_received_ms),
            prefill_wait_time_ms: t.timing.prefill_wait_time_ms,
            prefill_time_ms: t.timing.prefill_time_ms,
            ttft_ms: t.timing.ttft_ms,
            total_time_ms: t.timing.total_time_ms,
            avg_itl_ms: t.avg_itl_ms,
            kv_hit_rate: t.timing.kv_hit_rate,
            kv_transfer_estimated_latency_ms: t.timing.kv_transfer_estimated_latency_ms,
            queue_depth: widen(t.timing.router_queue_depth),
            worker: t.worker,
            replay: None,
            finish_reason_metadata: None,
        },
        None => AgentRequestMetrics {
            request_id,
            x_request_id,
            model,
            input_tokens: None,
            output_tokens: None,
            cached_tokens: None,
            request_received_ms: None,
            prefill_wait_time_ms: None,
            prefill_time_ms: None,
            ttft_ms: None,
            total_time_ms: None,
            avg_itl_ms: None,
            kv_hit_rate: None,
            kv_transfer_estimated_latency_ms: None,
            queue_depth: None,
            worker: None,
            replay: None,
            finish_reason_metadata: None,
        },
    }
}

/// What is kept of a request until it ends.
#[derive(Debug)]
pub struct AgentTraceRequestEndState {
    pub agent_context: AgentContext,
    pub request_model: String,
    pub x_request_id: Option<String>,
    pub replay_metrics: Option<Arc<AgentReplayMetrics>>,
    pub finish_reason_metadata: FinishReasonMetadataState,
}

/// Prepares the record of a request, where tracing is on and the request belongs to an
/// agent. The request identifier of the tracing context, which `traced_id` is, goes before
/// the one that the request carries.
pub fn build_agent_trace_request_end_state(
    enabled: bool,
    agent_context: Option<&AgentContext>,
    model: &str,
    traced_id: Option<String>,
    carried_id: Option<String>,
    replay_metrics: Option<Arc<AgentReplayMetrics>>,
) -> (r: Option<AgentTraceRequestEndState>)
    ensures
        r is Some <==> enabled && agent_context is Some,
        r matches Some(state) ==> {
            &&& state.agent_context@ == agent_context.unwrap()@
            &&& state.request_model@ == model@
            &&& state.x_request_id == match traced_id {
                Some(id) => Some(id),
                None => carried_id,
            }
            &&& state.replay_metrics == replay_metrics
            &&& state.finish_reason_metadata.wf()
            &&& state.finish_reason_metadata@ == finish_metadata::no_metadata()
        },
{
    if !enabled {
        return None;
    }
    let agent_context: AgentContext = match agent_context {
        Some(c) => c.copy(),
        None => {
            return None;
        },
    };
    Some(
        AgentTraceRequestEndState {
            agent_context,
            request_model: model.to_string(),
            x_request_id: match traced_id {
                Some(id) => Some(id),
                None => carried_id,
            },
            replay_metrics,
            finish_reason_metadata: FinishReasonMetadataState::new(),
        },
    )
}

/// Calls `Arc::try_unwrap`. Claimed of it: it gives back the value that the pointer leads to,
/// or the pointer. Which of the two depends on how many pointers lead to the value.
#[verifier::external_body]
fn unwrap_shared(shared: Arc<AgentReplayMetrics>) -> (r: Result<
    AgentReplayMetrics,
    Arc<AgentReplayMetrics>,
>)
    ensures
        r matches Ok(owned) ==> owned == *shared,
        r matches Err(still) ==> *still == *shared,
{
    Arc::try_unwrap(shared)
}

/// The metrics themselves, copied where others share them.
pub fn into_owned_replay_metrics(replay_metrics: Arc<AgentReplayMetrics>) -> (r: AgentReplayMetrics)
    ensures
        r@ == replay_metrics@,
{
    owned_or_copied(unwrap_shared(replay_metrics))
}

/// The metrics that a pointer gave up, or a copy of those that are still shared.
pub fn owned_or_copied(unwrapped: Result<AgentReplayMetrics, Arc<AgentReplayMetrics>>) -> (r:
    AgentReplayMetrics)
    ensures
        unwrapped matches Ok(owned) ==> r == owned,
        unwrapped matches Err(shared) ==> r@ == shared@,
{
    match unwrapped {
        Ok(owned) => owned,
        Err(shared) => (&*shared).copy(),
    }
}

/// The record of a request that has ended: the agent it belongs to, and what it took.
/// `tracker` is what the tracker of the request reports in the end, where there is one.
pub fn emit_agent_trace_request_end(
    state: AgentTraceRequestEndState,
    request_id: String,
    tracker: Option<&RequestTracker>,
) -> (r: (AgentContext, AgentRequestMetrics))
    ensures
        r.0 == state.agent_context,
        r.1.request_id == request_id,
        r.1.x_request_id == state.x_request_id,
        r.1.model == state.request_model,
        tracker matches Some(t) ==> readings_are(r.1, Some(*t)),
        tracker is None ==> readings_are(r.1, None),
        r.1.replay is Some <==> state.replay_metrics is Some,
        r.1.replay matches Some(replay) ==> replay@ == state.replay_metrics.unwrap()@,
        r.1.finish_reason_metadata is None <==> state.finish_reason_metadata@
            == finish_metadata::no_metadata(),
        r.1.finish_reason_metadata matches Some(m) ==> m@ == state.finish_reason_metadata@,
{
    let mut metrics: AgentRequestMetrics = request_metrics(
        request_id,
        state.x_request_id,
        state.request_model,
        tracker,
    );
    metrics.replay = match state.replay_metrics {
        Some(replay) => Some(into_owned_replay_metrics(replay)),
        None => None,
    };
    metrics.finish_reason_metadata = state.finish_reason_metadata.snapshot();
    (state.agent_context, metrics)
}

/// The metrics of a request hold each reading of its tracker under its own name.
pub proof fn law_metrics_are_the_readings(m: AgentRequestMetrics, t: RequestTracker)
    requires
        readings_are(m, Some(t)),
    ensures
        m.input_tokens is Some <==> t.isl_tokens is Some,
        m.input_tokens matches Some(n) ==> n == t.isl_tokens.unwrap(),
        m.output_tokens == Some(t.osl_tokens),
        m.cached_tokens is Some <==> t.cached_tokens is Some,
        m.cached_tokens matches Some(n) ==> n == t.cached_tokens.unwrap(),
        m.request_received_ms == Some(t.timing.request_received_ms),
        m.prefill_wait_time_ms == t.timing.prefill_wait_time_ms,
        m.prefill_time_ms == t.timing.prefill_time_ms,
        m.ttft_ms == t.timing.ttft_ms,
        m.total_time_ms == t.timing.total_time_ms,
        m.avg_itl_ms == t.avg_itl_ms,
        m.kv_hit_rate == t.timing.kv_hit_rate,
        m.kv_transfer_estimated_latency_ms == t.timing.kv_transfer_estimated_latency_ms,
        m.queue_depth is Some <==> t.timing.router_queue_depth is Some,
        m.queue_depth matches Some(n) ==> n == t.timing.router_queue_depth.unwrap(),
        m.worker == t.worker,
{
}

/// Without a tracker the metrics claim no reading at all.
pub proof fn law_metrics_without_tracker_claim_nothing(m: AgentRequestMetrics)
    requires
        readings_are(m, None),
    ensures
        m.input_tokens is None,
        m.output_tokens is None,
        m.cached_tokens is None,
        m.request_received_ms is None,
        m.prefill_wait_time_ms is None,
        m.prefill_time_ms is None,
        m.ttft_ms is None,
        m.total_time_ms is None,
        m.avg_itl_ms is None,
        m.kv_hit_rate is None,
        m.kv_transfer_estimated_latency_ms is None,
        m.queue_depth is None,
        m.worker is None,
{
}

/// What is kept of an agent, and of what a replay needs, is what their fields hold.
pub proof fn law_views_hold_the_fields(c: AgentContext, m: AgentReplayMetrics)
    ensures
        c@.session_type_id == c.session_type_id@,
        c@.session_id == c.session_id@,
        c@.trajectory_id == c.trajectory_id@,
        c.parent_trajectory_id matches Some(p) ==> c@.parent_trajectory_id == Some(p@),
        c.parent_trajectory_id is None ==> c@.parent_trajectory_id is None,
        c@.trajectory_final == c.trajectory_final,
        m@.trace_block_size == m.trace_block_size,
        m@.input_length == m.input_length,
        m@.input_sequence_hashes == m.input_sequence_hashes@,
{
}

} // verus!
