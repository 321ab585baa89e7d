//! The fields that a response carries beyond the chat protocol, and how a request asks for
//! them.

use vstd::prelude::*;

use crate::protocol::{
    CreateChatCompletionStreamResponse, CreateCompletionResponse, Float64, StopReason, TokenIdType,
};
use crate::text;

verus! {

/// The workers that served a request.
#[derive(Clone, Copy, Debug, PartialEq, Eq, Structural)]
pub struct WorkerInfo {
    pub prefill_worker_id: Option<u64>,
    pub prefill_dp_rank: Option<u32>,
    pub decode_worker_id: Option<u64>,
    pub decode_dp_rank: Option<u32>,
}

/// When a request was received and how long its phases took.
#[derive(Clone, Copy, Debug, PartialEq, Eq, Structural)]
pub struct TimingInfo {
    pub request_received_ms: u64,
    pub prefill_wait_time_ms: Option<Float64>,
    pub prefill_time_ms: Option<Float64>,
    pub ttft_ms: Option<Float64>,
    pub total_time_ms: Option<Float64>,
    pub kv_hit_rate: Option<Float64>,
    pub kv_transfer_estimated_latency_ms: Option<Float64>,
    pub router_queue_depth: Option<usize>,
}

/// What a request asks for beyond the chat protocol.
#[derive(Clone, Debug, PartialEq, Eq)]
pub struct NvExt {
    /// Annotations, such as `query_instance_id:...`.
    pub annotations: Option<Vec<String>>,
    /// The names of fields that the response is to carry.
    pub extra_fields: Option<Vec<String>>,
}

/// The parameters that a prefill worker hands on: the token identifiers of the prompt, and
/// the routed experts as JSON text.
#[derive(Clone, Debug, PartialEq, Eq)]
pub struct DisaggregatedParams {
    pub token_ids: Option<Vec<TokenIdType>>,
    pub routed_experts: Option<String>,
}

/// The fields that a response carries beyond the chat protocol. Engine data, routed experts
/// and prompt probabilities are JSON text.
#[derive(Clone, Debug, PartialEq, Eq)]
pub struct NvExtResponse {
    pub worker_id: Option<WorkerInfo>,
    pub token_ids: Option<Vec<TokenIdType>>,
    pub timing: Option<TimingInfo>,
    pub routed_experts: Option<String>,
    pub engine_data: Option<String>,
    pub stop_reason: Option<StopReason>,
    pub completion_token_ids: Option<Vec<TokenIdType>>,
    pub prompt_logprobs: Option<String>,
}

/// A chunk of a streamed chat response with its extra fields.
#[derive(Clone, Debug, PartialEq, Eq)]
pub struct NvCreateChatCompletionStreamResponse {
    pub inner: CreateChatCompletionStreamResponse,
    pub nvext: Option<NvExtResponse>,
}

/// A completion with its extra fields.
#[derive(Clone, Debug, PartialEq, Eq)]
pub struct NvCreateCompletionResponse {
    pub inner: CreateCompletionResponse,
    pub nvext: Option<NvExtResponse>,
}

/// The fields that a request asks for.
#[derive(Clone, Copy, Debug, PartialEq, Eq, Structural)]
pub struct NvExtResponseFieldSelection {
    pub worker_id: bool,
    pub token_ids: bool,
    pub timing: bool,
    pub routed_experts: bool,
    pub engine_data: bool,
    pub stop_reason: bool,
    pub completion_token_ids: bool,
    pub prompt_logprobs: bool,
}

/// The list holds the text.
pub open spec fn lists(v: Option<Vec<String>>, name: Seq<char>) -> bool {
    match v {
        Some(v) => text::texts(v@).contains(name),
        None => false,
    }
}

/// One of the texts begins with the prefix.
pub open spec fn any_begins_with(all: Seq<Seq<char>>, prefix: Seq<char>) -> bool {
    exists|i: int| 0 <= i < all.len() && text::has_prefix(#[trigger] all[i], prefix)
}

/// The list holds a text that begins with the prefix.
pub open spec fn lists_prefix(v: Option<Vec<String>>, prefix: Seq<char>) -> bool {
    match v {
        Some(v) => any_begins_with(text::texts(v@), prefix),
        None => false,
    }
}

/// The fields that a request selects: those that it lists by name and, where it is
/// annotated with a query for an instance, the workers and the token identifiers.
pub open spec fn selection_of(nvext: Option<NvExt>) -> NvExtResponseFieldSelection {
    match nvext {
        None => NvExtResponseFieldSelection {
            worker_id: false,
            token_ids: false,
            timing: false,
            routed_experts: false,
            engine_data: false,
            stop_reason: false,
            completion_token_ids: false,
            prompt_logprobs: false,
        },
        Some(e) => {
            let query = lists_prefix(e.annotations, "query_instance_id:"@);
            NvExtResponseFieldSelection {
                worker_id: query || lists(e.extra_fields, "worker_id"@),
                token_ids: query || lists(e.extra_fields, "token_ids"@),
                timing: lists(e.extra_fields, "timing"@),
                routed_experts: lists(e.extra_fields, "routed_experts"@),
                engine_data: lists(e.extra_fields, "engine_data"@),
                stop_reason: lists(e.extra_fields, "stop_reason"@),
                completion_token_ids: lists(e.extra_fields, "completion_token_ids"@),
                prompt_logprobs: lists(e.extra_fields, "prompt_logprobs"@),
            }
        },
    }
}

/// Whether a list holds a text.
fn is_listed(list: &Option<Vec<String>>, name: &str) -> (r: bool)
    ensures
        r == lists(*list, name@),
{
    let v: &Vec<String> = match list {
        Some(v) => v,
        None => {
            return false;
        },
    };
    let ghost all = text::texts(v@);
    let mut i: usize = 0;
    while i < v.len()
        invariant
            *list == Some(*v),
            all == text::texts(v@),
            i <= v@.len(),
            forall|k: int| 0 <= k < i ==> #[trigger] all[k] != name@,
        decreases v.len() - i,
    {
        assert(all[i as int] == v@[i as int]@);
        if text::same_text(v[i].as_str(), name) {
            return true;
        }
        i = i + 1;
    }
    false
}

/// Whether a list holds a text that begins with the prefix.
fn is_prefix_listed(list: &Option<Vec<String>>, prefix: &str) -> (r: bool)
    ensures
        r == lists_prefix(*list, prefix@),
{
    let v: &Vec<String> = match list {
        Some(v) => v,
        None => {
            return false;
        },
    };
    let ghost all = text::texts(v@);
    let mut i: usize = 0;
    while i < v.len()
        invariant
            *list == Some(*v),
            all == text::texts(v@),
            i <= v@.len(),
            forall|k: int| 0 <= k < i ==> !text::has_prefix(#[trigger] all[k], prefix@),
        decreases v.len() - i,
    {
        assert(all[i as int] == v@[i as int]@);
        if text::strip_prefix(v[i].as_str(), prefix).is_some() {
            return true;
        }
        i = i + 1;
    }
    false
}

/// `value` where it is selected.
pub open spec fn kept<T>(selected: bool, value: Option<T>) -> Option<T> {
    if selected {
        value
    } else {
        None
    }
}

/// Keeps a value where it is selected.
fn keep<T>(selected: bool, value: Option<T>) -> (r: Option<T>)
    ensures
        r == kept(selected, value),
{
    if selected {
        value
    } else {
        None
    }
}

/// A response carries no extra field.
pub open spec fn carries_nothing(n: NvExtResponse) -> bool {
    &&& n.worker_id is None
    &&& n.token_ids is None
    &&& n.timing is None
    &&& n.routed_experts is None
    &&& n.engine_data is None
    &&& n.stop_reason is None
    &&& n.completion_token_ids is None
    &&& n.prompt_logprobs is None
}

impl NvExtResponseFieldSelection {
    /// The fields that a request selects.
    pub fn of(nvext: Option<&NvExt>) -> (r: Self)
        ensures
            nvext matches Some(e) ==> r == selection_of(Some(*e)),
            nvext is None ==> r == selection_of(None),
    {
        match nvext {
            None => NvExtResponseFieldSelection {
                worker_id: false,
                token_ids: false,
                timing: false,
                routed_experts: false,
                engine_data: false,
                stop_reason: false,
                completion_token_ids: false,
                prompt_logprobs: false,
            },
            Some(e) => {
                let query: bool = is_prefix_listed(&e.annotations, "query_instance_id:");
                NvExtResponseFieldSelection {
                    worker_id: query || is_listed(&e.extra_fields, "worker_id"),
                    token_ids: query || is_listed(&e.extra_fields, "token_ids"),
                    timing: is_listed(&e.extra_fields, "timing"),
                    routed_experts: is_listed(&e.extra_fields, "routed_experts"),
                    engine_data: is_listed(&e.extra_fields, "engine_data"),
                    stop_reason: is_listed(&e.extra_fields, "stop_reason"),
                    completion_token_ids: is_listed(&e.extra_fields, "completion_token_ids"),
                    prompt_logprobs: is_listed(&e.extra_fields, "prompt_logprobs"),
                }
            },
        }
    }

    /// Builds the extra fields of a response out of what there is to report: a field is
    /// carried where it was asked for and there is something to carry. The timing is carried
    /// by the last chunk alone. A response that would carry nothing has no extra fields.
    pub fn build_response_nvext(&self, finished: bool, all: NvExtResponse) -> (r: Option<
        NvExtResponse,
    >)
        ensures
            r matches Some(n) ==> n == self.selected(finished, all) && !carries_nothing(n),
            r is None ==> carries_nothing(self.selected(finished, all)),
    {
        let n: NvExtResponse = NvExtResponse {
            worker_id: keep(self.worker_id, all.worker_id),
            token_ids: keep(self.token_ids, all.token_ids),
            timing: keep(self.timing && finished, all.timing),
            routed_experts: keep(self.routed_experts, all.routed_experts),
            engine_data: keep(self.engine_data, all.engine_data),
            stop_reason: keep(self.stop_reason, all.stop_reason),
            completion_token_ids: keep(self.completion_token_ids, all.completion_token_ids),
            prompt_logprobs: keep(self.prompt_logprobs, all.prompt_logprobs),
        };
        if n.worker_id.is_none() && n.token_ids.is_none() && n.timing.is_none()
            && n.routed_experts.is_none() && n.engine_data.is_none() && n.stop_reason.is_none()
            && n.completion_token_ids.is_none() && n.prompt_logprobs.is_none() {
            None
        } else {
            Some(n)
        }
    }

    /// The fields of `all` that were asked for.
    pub open spec fn selected(&self, finished: bool, all: NvExtResponse) -> NvExtResponse {
        NvExtResponse {
            worker_id: kept(self.worker_id, all.worker_id),
            token_ids: kept(self.token_ids, all.token_ids),
            timing: kept(self.timing && finished, all.timing),
            routed_experts: kept(self.routed_experts, all.routed_experts),
            engine_data: kept(self.engine_data, all.engine_data),
            stop_reason: kept(self.stop_reason, all.stop_reason),
            completion_token_ids: kept(self.completion_token_ids, all.completion_token_ids),
            prompt_logprobs: kept(self.prompt_logprobs, all.prompt_logprobs),
        }
    }
}

/// A request that asks for nothing gets no extra field.
pub proof fn law_unasked_response_carries_nothing(finished: bool, all: NvExtResponse)
    ensures
        carries_nothing(selection_of(None).selected(finished, all)),
{
}

/// A field is selected exactly where the request lists it by its name; the workers and the token
/// identifiers also where one of the annotations queries an instance.
pub proof fn law_fields_are_selected_by_name(e: NvExt)
    ensures
        ({
            let s = selection_of(Some(e));
            let query = e.annotations matches Some(annotations) && exists|i: int|
                0 <= i < annotations@.len() && text::has_prefix(
                    (#[trigger] annotations@[i])@,
                    "query_instance_id:"@,
                );
            &&& s.timing <==> (e.extra_fields matches Some(fields) && exists|i: int|
                0 <= i < fields@.len() && (#[trigger] fields@[i])@ == "timing"@)
            &&& s.routed_experts <==> (e.extra_fields matches Some(fields) && exists|i: int|
                0 <= i < fields@.len() && (#[trigger] fields@[i])@ == "routed_experts"@)
            &&& s.engine_data <==> (e.extra_fields matches Some(fields) && exists|i: int|
                0 <= i < fields@.len() && (#[trigger] fields@[i])@ == "engine_data"@)
            &&& s.stop_reason <==> (e.extra_fields matches Some(fields) && exists|i: int|
                0 <= i < fields@.len() && (#[trigger] fields@[i])@ == "stop_reason"@)
            &&& s.completion_token_ids <==> (e.extra_fields matches Some(fields) && exists|i: int|
                0 <= i < fields@.len() && (#[trigger] fields@[i])@ == "completion_token_ids"@)
            &&& s.prompt_logprobs <==> (e.extra_fields matches Some(fields) && exists|i: int|
                0 <= i < fields@.len() && (#[trigger] fields@[i])@ == "prompt_logprobs"@)
            &&& s.worker_id <==> query || (e.extra_fields matches Some(fields) && exists|i: int|
                0 <= i < fields@.len() && (#[trigger] fields@[i])@ == "worker_id"@)
            &&& s.token_ids <==> query || (e.extra_fields matches Some(fields) && exists|i: int|
                0 <= i < fields@.len() && (#[trigger] fields@[i])@ == "token_ids"@)
        }),
{
    if let Some(fields) = e.extra_fields {
        lemma_listed(fields, "timing"@);
        lemma_listed(fields, "routed_experts"@);
        lemma_listed(fields, "engine_data"@);
        lemma_listed(fields, "stop_reason"@);
        lemma_listed(fields, "completion_token_ids"@);
        lemma_listed(fields, "prompt_logprobs"@);
        lemma_listed(fields, "worker_id"@);
        lemma_listed(fields, "token_ids"@);
    }
    let prefix = "query_instance_id:"@;
    if let Some(annotations) = e.annotations {
        let all = text::texts(annotations@);
        if any_begins_with(all, prefix) {
            let i = choose|i: int|
                0 <= i < all.len() && text::has_prefix(#[trigger] all[i], prefix);
            assert(text::has_prefix(annotations@[i]@, prefix));
        }
        if exists|i: int|
            0 <= i < annotations@.len() && text::has_prefix(
                (#[trigger] annotations@[i])@,
                prefix,
            ) {
            let i = choose|i: int|
                0 <= i < annotations@.len() && text::has_prefix(
                    (#[trigger] annotations@[i])@,
                    prefix,
                );
            assert(all[i] == annotations@[i]@);
        }
    }
}

proof fn lemma_listed(fields: Vec<String>, name: Seq<char>)
    ensures
        lists(Some(fields), name) <==> exists|i: int|
            0 <= i < fields@.len() && (#[trigger] fields@[i])@ == name,
{
    let all = text::texts(fields@);
    if lists(Some(fields), name) {
        let i = choose|i: int| 0 <= i < all.len() && all[i] == name;
        assert(fields@[i]@ == name);
    }
    if exists|i: int| 0 <= i < fields@.len() && (#[trigger] fields@[i])@ == name {
        let i = choose|i: int| 0 <= i < fields@.len() && (#[trigger] fields@[i])@ == name;
        assert(all[i] == name);
    }
}

/// A request that lists no field and has no annotation selects nothing, and so does one that
/// asks for nothing beyond the protocol.
pub proof fn law_nothing_listed_selects_nothing(e: NvExt)
    requires
        e.extra_fields is None,
        e.annotations is None,
    ensures
        selection_of(Some(e)) == selection_of(None),
        !selection_of(None).worker_id,
        !selection_of(None).token_ids,
        !selection_of(None).timing,
        !selection_of(None).routed_experts,
        !selection_of(None).engine_data,
        !selection_of(None).stop_reason,
        !selection_of(None).completion_token_ids,
        !selection_of(None).prompt_logprobs,
{
}

/// A response carries a field exactly where it was selected, with the value that there is to
/// report; the timing only where the response is finished.
pub proof fn law_selected_fields_are_carried(
    s: NvExtResponseFieldSelection,
    finished: bool,
    all: NvExtResponse,
)
    ensures
        ({
            let n = s.selected(finished, all);
            &&& s.worker_id ==> n.worker_id == all.worker_id
            &&& !s.worker_id ==> n.worker_id is None
            &&& s.token_ids ==> n.token_ids == all.token_ids
            &&& !s.token_ids ==> n.token_ids is None
            &&& s.timing && finished ==> n.timing == all.timing
            &&& !s.timing || !finished ==> n.timing is None
            &&& s.routed_experts ==> n.routed_experts == all.routed_experts
            &&& !s.routed_experts ==> n.routed_experts is None
            &&& s.engine_data ==> n.engine_data == all.engine_data
            &&& !s.engine_data ==> n.engine_data is None
            &&& s.stop_reason ==> n.stop_reason == all.stop_reason
            &&& !s.stop_reason ==> n.stop_reason is None
            &&& s.completion_token_ids ==> n.completion_token_ids == all.completion_token_ids
            &&& !s.completion_token_ids ==> n.completion_token_ids is None
            &&& s.prompt_logprobs ==> n.prompt_logprobs == all.prompt_logprobs
            &&& !s.prompt_logprobs ==> n.prompt_logprobs is None
        }),
{
}

/// A response that carries nothing has none of the fields, and one that has none carries nothing.
pub proof fn law_carrying_nothing_is_having_no_field(n: NvExtResponse)
    ensures
        carries_nothing(n) <==> n.worker_id is None && n.token_ids is None && n.timing is None
            && n.routed_experts is None && n.engine_data is None && n.stop_reason is None
            && n.completion_token_ids is None && n.prompt_logprobs is None,
{
}

} // verus!
