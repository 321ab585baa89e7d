//! What is known of a request while it is served.

use vstd::prelude::*;

use crate::nvext::{TimingInfo, WorkerInfo};
use crate::protocol::Float64;

verus! {

/// The readings of a request's tracker.
#[derive(Clone, Copy, Debug, PartialEq, Eq, Structural)]
pub struct RequestTracker {
    /// The number of input tokens, where it was observed.
    pub isl_tokens: Option<usize>,
    /// The number of input tokens that were cached, where it was observed.
    pub cached_tokens: Option<usize>,
    /// The number of output tokens.
    pub osl_tokens: u64,
    pub timing: TimingInfo,
    pub worker: Option<WorkerInfo>,
    /// The mean time between two tokens.
    pub avg_itl_ms: Option<Float64>,
}

/// The first observation stands; a later one fills what is missing.
pub open spec fn observed<T>(first: Option<T>, later: Option<T>) -> Option<T> {
    match first {
        Some(v) => Some(v),
        None => later,
    }
}

impl RequestTracker {
    /// Records the number of input tokens and, where it is known, how many of them were
    /// cached. Of each number the first observation stands.
    pub fn record_isl(&mut self, isl: usize, cached: Option<usize>)
        ensures
            *final(self) == (RequestTracker {
                isl_tokens: observed(old(self).isl_tokens, Some(isl)),
                cached_tokens: observed(old(self).cached_tokens, cached),
                ..*old(self)
            }),
    {
        if self.isl_tokens.is_none() {
            self.isl_tokens = Some(isl);
        }
        if self.cached_tokens.is_none() {
            self.cached_tokens = cached;
        }
    }

    /// Records the number of output tokens.
    pub fn record_osl(&mut self, osl: usize)
        ensures
            *final(self) == (RequestTracker { osl_tokens: osl as u64, ..*old(self) }),
    {
        self.osl_tokens = osl as u64;
    }
}

/// The readings after the token counts of a response. The counts of a response come late:
/// input counts that were observed earlier stand. Where neither input count is given, none
/// is recorded.
pub open spec fn with_tokens(
    t: RequestTracker,
    input_tokens: Option<usize>,
    output_tokens: usize,
    cached_tokens: Option<usize>,
) -> RequestTracker {
    let counted = if input_tokens is Some || cached_tokens is Some {
        RequestTracker {
            isl_tokens: observed(
                t.isl_tokens,
                match input_tokens {
                    Some(n) => Some(n),
                    None => Some(0),
                },
            ),
            cached_tokens: observed(t.cached_tokens, cached_tokens),
            ..t
        }
    } else {
        t
    };
    RequestTracker { osl_tokens: output_tokens as u64, ..counted }
}

/// Records the token counts of a response.
pub fn record_llm_metric_tokens(
    tracker: &mut RequestTracker,
    input_tokens: Option<usize>,
    output_tokens: usize,
    cached_tokens: Option<usize>,
)
    ensures
        *final(tracker) == with_tokens(*old(tracker), input_tokens, output_tokens, cached_tokens),
{
    if input_tokens.is_some() || cached_tokens.is_some() {
        let isl: usize = match input_tokens {
            Some(n) => n,
            None => 0,
        };
        tracker.record_isl(isl, cached_tokens);
    }
    tracker.record_osl(output_tokens);
}

/// An input count that was observed earlier is not overwritten.
pub proof fn law_earlier_counts_stand(
    t: RequestTracker,
    input_tokens: Option<usize>,
    output_tokens: usize,
    cached_tokens: Option<usize>,
)
    ensures
        ({
            let after = with_tokens(t, input_tokens, output_tokens, cached_tokens);
            &&& t.isl_tokens is Some ==> after.isl_tokens == t.isl_tokens
            &&& t.cached_tokens is Some ==> after.cached_tokens == t.cached_tokens
            &&& after.osl_tokens == output_tokens
        }),
{
}

/// The token counts of a response fill what was not observed before: an input count that is given
/// is recorded, and so is a cached count. Where only the cached count is given, no input token is
/// counted; where neither is given, nothing is recorded of the input. The output count is that of
/// the response, and the other readings stay.
pub proof fn law_missing_counts_are_filled(
    t: RequestTracker,
    input_tokens: Option<usize>,
    output_tokens: usize,
    cached_tokens: Option<usize>,
)
    ensures
        ({
            let after = with_tokens(t, input_tokens, output_tokens, cached_tokens);
            &&& t.isl_tokens is None && input_tokens is Some ==> after.isl_tokens == input_tokens
            &&& t.isl_tokens is None && input_tokens is None && cached_tokens is Some
                ==> after.isl_tokens == Some(0usize)
            &&& input_tokens is None && cached_tokens is None ==> after.isl_tokens == t.isl_tokens
            &&& t.isl_tokens is Some ==> after.isl_tokens == t.isl_tokens
            &&& t.cached_tokens is None ==> after.cached_tokens == cached_tokens
            &&& t.cached_tokens is Some ==> after.cached_tokens == t.cached_tokens
            &&& after.osl_tokens == output_tokens
            &&& after.timing == t.timing
            &&& after.worker == t.worker
            &&& after.avg_itl_ms == t.avg_itl_ms
        }),
{
}

/// Of two observations the first stands, and the later one counts where there was none.
pub proof fn law_first_observation_stands<T>(first: Option<T>, later: Option<T>)
    ensures
        first is Some ==> observed(first, later) == first,
        first is None ==> observed(first, later) == later,
{
}

} // verus!
