//! Why the choices of a response ended, and which tools they called, gathered from its
//! chunks.

use std::collections::HashMap;

use vstd::prelude::*;

use crate::nvext::{NvCreateChatCompletionStreamResponse, NvCreateCompletionResponse};
use crate::protocol;
use crate::protocol::{
    Annotated, BackendFinishReason, ChatChoiceStream, ChatCompletionMessageToolCallChunk, Choice,
    CompletionFinishReason, FinishReason, StopReason,
};
use crate::text;

verus! {

broadcast use vstd::std_specs::hash::group_hash_axioms;

/// A tool call of a response.
#[derive(Clone, Debug, PartialEq, Eq)]
pub struct ToolCallMetadata {
    pub choice_index: u32,
    pub tool_call_index: u32,
    pub id: Option<String>,
    pub name: Option<String>,
}

/// What a [`ToolCallMetadata`] holds.
pub struct ToolCallMetadataView {
    pub choice_index: u32,
    pub tool_call_index: u32,
    pub id: Option<Seq<char>>,
    pub name: Option<Seq<char>>,
}

impl View for ToolCallMetadata {
    type V = ToolCallMetadataView;

    open spec fn view(&self) -> ToolCallMetadataView {
        ToolCallMetadataView {
            choice_index: self.choice_index,
            tool_call_index: self.tool_call_index,
            id: text::text_of(self.id),
            name: text::text_of(self.name),
        }
    }
}

/// Why a choice ended.
#[derive(Clone, Debug, PartialEq, Eq)]
pub struct ChoiceFinishReasonMetadata {
    pub choice_index: u32,
    pub backend_finish_reason: Option<String>,
    pub finish_reason: Option<FinishReason>,
    pub stop_reason: Option<StopReason>,
}

/// What a [`ChoiceFinishReasonMetadata`] holds.
pub struct ChoiceFinishReasonMetadataView {
    pub choice_index: u32,
    pub backend_finish_reason: Option<Seq<char>>,
    pub finish_reason: Option<FinishReason>,
    pub stop_reason: Option<protocol::StopReasonView>,
}

impl View for ChoiceFinishReasonMetadata {
    type V = ChoiceFinishReasonMetadataView;

    open spec fn view(&self) -> ChoiceFinishReasonMetadataView {
        ChoiceFinishReasonMetadataView {
            choice_index: self.choice_index,
            backend_finish_reason: text::text_of(self.backend_finish_reason),
            finish_reason: self.finish_reason,
            stop_reason: protocol::stop_reason_of(self.stop_reason),
        }
    }
}

/// Why a response ended and which tools it called.
#[derive(Clone, Debug, PartialEq, Eq)]
pub struct FinishReasonMetadata {
    pub backend_finish_reason: Option<String>,
    pub finish_reason: Option<FinishReason>,
    pub stop_reason: Option<StopReason>,
    pub tool_calls: Vec<ToolCallMetadata>,
    pub choices: Vec<ChoiceFinishReasonMetadata>,
}

/// What a [`FinishReasonMetadata`] holds.
pub struct FinishReasonMetadataView {
    pub backend_finish_reason: Option<Seq<char>>,
    pub finish_reason: Option<FinishReason>,
    pub stop_reason: Option<protocol::StopReasonView>,
    pub tool_calls: Seq<ToolCallMetadataView>,
    pub choices: Seq<ChoiceFinishReasonMetadataView>,
}

/// What a list of tool calls holds.
pub open spec fn call_views(v: Seq<ToolCallMetadata>) -> Seq<ToolCallMetadataView> {
    v.map_values(|c: ToolCallMetadata| c@)
}

/// What a list of choices holds.
pub open spec fn choice_views(v: Seq<ChoiceFinishReasonMetadata>) -> Seq<
    ChoiceFinishReasonMetadataView,
> {
    v.map_values(|c: ChoiceFinishReasonMetadata| c@)
}

impl View for FinishReasonMetadata {
    type V = FinishReasonMetadataView;

    open spec fn view(&self) -> FinishReasonMetadataView {
        FinishReasonMetadataView {
            backend_finish_reason: text::text_of(self.backend_finish_reason),
            finish_reason: self.finish_reason,
            stop_reason: protocol::stop_reason_of(self.stop_reason),
            tool_calls: call_views(self.tool_calls@),
            choices: choice_views(self.choices@),
        }
    }
}

/// Metadata with nothing in it.
pub open spec fn no_metadata() -> FinishReasonMetadataView {
    FinishReasonMetadataView {
        backend_finish_reason: None,
        finish_reason: None,
        stop_reason: None,
        tool_calls: seq![],
        choices: seq![],
    }
}

/// `a`, or `b` where there is no `a`.
pub open spec fn first_of<T>(a: Option<T>, b: Option<T>) -> Option<T> {
    match a {
        Some(a) => Some(a),
        None => b,
    }
}

/// The position of the call with the given indices.
pub open spec fn position_of(
    calls: Seq<ToolCallMetadataView>,
    choice_index: u32,
    tool_call_index: u32,
) -> Option<int>
    decreases calls.len(),
{
    if calls.len() == 0 {
        None
    } else if calls.last().choice_index == choice_index && calls.last().tool_call_index
        == tool_call_index {
        Some(calls.len() - 1)
    } else {
        position_of(calls.drop_last(), choice_index, tool_call_index)
    }
}

/// The calls after one more piece of a call. Calls are listed in the order in which they
/// first show an identifier or a name; of each, the first identifier and the first name
/// stay.
pub open spec fn with_chunk(
    calls: Seq<ToolCallMetadataView>,
    choice_index: u32,
    tool_call_index: u32,
    id: Option<Seq<char>>,
    name: Option<Seq<char>>,
) -> Seq<ToolCallMetadataView> {
    if id is None && name is None {
        calls
    } else {
        match position_of(calls, choice_index, tool_call_index) {
            Some(i) => calls.update(
                i,
                ToolCallMetadataView {
                    id: first_of(calls[i].id, id),
                    name: first_of(calls[i].name, name),
                    ..calls[i]
                },
            ),
            None => calls.push(ToolCallMetadataView { choice_index, tool_call_index, id, name }),
        }
    }
}

/// The position of the choice with the given index.
pub open spec fn choice_position(
    choices: Seq<ChoiceFinishReasonMetadataView>,
    choice_index: u32,
) -> Option<
    int,
>
    decreases choices.len(),
{
    if choices.len() == 0 {
        None
    } else if choices.last().choice_index == choice_index {
        Some(choices.len() - 1)
    } else {
        choice_position(choices.drop_last(), choice_index)
    }
}

/// The choices with an entry for the given index.
pub open spec fn with_choice(
    choices: Seq<ChoiceFinishReasonMetadataView>,
    choice_index: u32,
) -> Seq<
    ChoiceFinishReasonMetadataView,
> {
    match choice_position(choices, choice_index) {
        Some(_) => choices,
        None => choices.push(
            ChoiceFinishReasonMetadataView {
                choice_index,
                backend_finish_reason: None,
                finish_reason: None,
                stop_reason: None,
            },
        ),
    }
}

/// The choices after the finish reason of one is known.
pub open spec fn with_finish_reason(
    choices: Seq<ChoiceFinishReasonMetadataView>,
    choice_index: u32,
    finish_reason: FinishReason,
) -> Seq<ChoiceFinishReasonMetadataView> {
    let all = with_choice(choices, choice_index);
    let i = choice_position(all, choice_index).unwrap();
    all.update(
        i,
        ChoiceFinishReasonMetadataView { finish_reason: Some(finish_reason), ..all[i] },
    )
}

/// The choices after the backend has told why one ended. What it leaves out stays.
pub open spec fn with_backend_reason(
    choices: Seq<ChoiceFinishReasonMetadataView>,
    choice_index: u32,
    backend_finish_reason: Option<Seq<char>>,
    stop_reason: Option<protocol::StopReasonView>,
) -> Seq<ChoiceFinishReasonMetadataView> {
    let all = with_choice(choices, choice_index);
    let i = choice_position(all, choice_index).unwrap();
    all.update(
        i,
        ChoiceFinishReasonMetadataView {
            backend_finish_reason: first_of(backend_finish_reason, all[i].backend_finish_reason),
            stop_reason: first_of(stop_reason, all[i].stop_reason),
            ..all[i]
        },
    )
}

proof fn lemma_position_of(
    calls: Seq<ToolCallMetadataView>,
    choice_index: u32,
    tool_call_index: u32,
)
    ensures
        position_of(calls, choice_index, tool_call_index) matches Some(i) ==> 0 <= i < calls.len()
            && calls[i].choice_index == choice_index && calls[i].tool_call_index
            == tool_call_index,
        position_of(calls, choice_index, tool_call_index) is None ==> forall|i: int|
            0 <= i < calls.len() ==> !((#[trigger] calls[i]).choice_index == choice_index
                && calls[i].tool_call_index == tool_call_index),
    decreases calls.len(),
{
    if calls.len() > 0 {
        lemma_position_of(calls.drop_last(), choice_index, tool_call_index);
        let rest = calls.drop_last();
        assert forall|i: int|
            0 <= i < calls.len() && position_of(calls, choice_index, tool_call_index)
                is None implies !((#[trigger] calls[i]).choice_index == choice_index
            && calls[i].tool_call_index == tool_call_index) by {
            if i < rest.len() {
                assert(rest[i] == calls[i]);
            }
        }
    }
}

/// The text behind an optional reference.
pub open spec fn str_of(s: Option<&str>) -> Option<Seq<char>> {
    match s {
        Some(s) => Some(s@),
        None => None,
    }
}

/// Whether an optional string holds the given text.
fn holds(s: &Option<String>, t: &str) -> (r: bool)
    ensures
        r == (text::text_of(*s) == Some(t@)),
{
    match s {
        Some(s) => text::same_text(s.as_str(), t),
        None => false,
    }
}

/// A copy of an optional string.
fn copy_text(s: &Option<String>) -> (r: Option<String>)
    ensures
        text::text_of(r) == text::text_of(*s),
        r is Some <==> s is Some,
{
    match s {
        Some(s) => Some(s.clone()),
        None => None,
    }
}

/// A copy of an optional stop reason.
fn copy_stop_reason(s: &Option<StopReason>) -> (r: Option<StopReason>)
    ensures
        protocol::stop_reason_of(r) == protocol::stop_reason_of(*s),
{
    match s {
        Some(s) => Some(s.copy()),
        None => None,
    }
}

impl ToolCallMetadata {
    /// A copy of the metadata.
    pub fn copy(&self) -> (r: Self)
        ensures
            r@ == self@,
    {
        ToolCallMetadata {
            choice_index: self.choice_index,
            tool_call_index: self.tool_call_index,
            id: copy_text(&self.id),
            name: copy_text(&self.name),
        }
    }
}

impl ChoiceFinishReasonMetadata {
    /// A copy of the metadata.
    pub fn copy(&self) -> (r: Self)
        ensures
            r@ == self@,
    {
        ChoiceFinishReasonMetadata {
            choice_index: self.choice_index,
            backend_finish_reason: copy_text(&self.backend_finish_reason),
            finish_reason: self.finish_reason,
            stop_reason: copy_stop_reason(&self.stop_reason),
        }
    }
}

impl Default for FinishReasonMetadata {
    fn default() -> (r: Self)
        ensures
            r@ == no_metadata(),
    {
        let r: FinishReasonMetadata = FinishReasonMetadata {
            backend_finish_reason: None,
            finish_reason: None,
            stop_reason: None,
            tool_calls: Vec::new(),
            choices: Vec::new(),
        };
        assert(call_views(r.tool_calls@) =~= seq![]);
        assert(choice_views(r.choices@) =~= seq![]);
        r
    }
}

impl FinishReasonMetadata {
    /// Whether nothing has been recorded.
    pub fn is_empty(&self) -> (r: bool)
        ensures
            r == (self@ == no_metadata()),
    {
        proof {
            if self.tool_calls@.len() == 0 {
                assert(call_views(self.tool_calls@) =~= seq![]);
            } else {
                assert(call_views(self.tool_calls@).len() > 0);
            }
            if self.choices@.len() == 0 {
                assert(choice_views(self.choices@) =~= seq![]);
            } else {
                assert(choice_views(self.choices@).len() > 0);
            }
        }
        self.backend_finish_reason.is_none() && self.finish_reason.is_none()
            && self.stop_reason.is_none() && self.tool_calls.len() == 0 && self.choices.len() == 0
    }

    /// A copy of the metadata.
    pub fn copy(&self) -> (r: Self)
        ensures
            r@ == self@,
    {
        let mut tool_calls: Vec<ToolCallMetadata> = Vec::new();
        let mut i: usize = 0;
        while i < self.tool_calls.len()
            invariant
                i <= self.tool_calls@.len(),
                call_views(tool_calls@) == call_views(self.tool_calls@).take(i as int),
            decreases self.tool_calls.len() - i,
        {
            let ghost before = call_views(tool_calls@);
            tool_calls.push(self.tool_calls[i].copy());
            assert(call_views(tool_calls@) =~= before.push(self.tool_calls@[i as int]@));
            assert(call_views(self.tool_calls@).take(i + 1) =~= before.push(
                self.tool_calls@[i as int]@,
            ));
            i = i + 1;
        }
        let mut choices: Vec<ChoiceFinishReasonMetadata> = Vec::new();
        let mut k: usize = 0;
        while k < self.choices.len()
            invariant
                k <= self.choices@.len(),
                choice_views(choices@) == choice_views(self.choices@).take(k as int),
            decreases self.choices.len() - k,
        {
            let ghost before = choice_views(choices@);
            choices.push(self.choices[k].copy());
            assert(choice_views(choices@) =~= before.push(self.choices@[k as int]@));
            assert(choice_views(self.choices@).take(k + 1) =~= before.push(
                self.choices@[k as int]@,
            ));
            k = k + 1;
        }
        assert(call_views(self.tool_calls@).take(self.tool_calls@.len() as int) =~= call_views(
            self.tool_calls@,
        ));
        assert(choice_views(self.choices@).take(self.choices@.len() as int) =~= choice_views(
            self.choices@,
        ));
        FinishReasonMetadata {
            backend_finish_reason: copy_text(&self.backend_finish_reason),
            finish_reason: self.finish_reason,
            stop_reason: copy_stop_reason(&self.stop_reason),
            tool_calls,
            choices,
        }
    }

    /// The position of a choice, which is listed after the call.
    fn choice_at(&mut self, choice_index: u32) -> (r: usize)
        ensures
            final(self)@ == (FinishReasonMetadataView {
                choices: with_choice(old(self)@.choices, choice_index),
                ..old(self)@
            }),
            r < final(self).choices@.len(),
            choice_position(final(self)@.choices, choice_index) == Some(r as int),
    {
        let ghost all = choice_views(self.choices@);
        let n: usize = self.choices.len();
        let mut i: usize = n;
        assert(all.take(n as int) =~= all);
        while i > 0
            invariant
                i <= n == self.choices@.len(),
                all == choice_views(self.choices@),
                choice_position(all, choice_index) == choice_position(
                    all.take(i as int),
                    choice_index,
                ),
                *self == *old(self),
            decreases i,
        {
            assert(all.take(i as int).last() == self.choices@[i - 1]@);
            assert(all.take(i as int).drop_last() =~= all.take(i - 1));
            if self.choices[i - 1].choice_index == choice_index {
                return i - 1;
            }
            i = i - 1;
        }
        let fresh: ChoiceFinishReasonMetadata = ChoiceFinishReasonMetadata {
            choice_index,
            backend_finish_reason: None,
            finish_reason: None,
            stop_reason: None,
        };
        let ghost added = fresh@;
        self.choices.push(fresh);
        assert(choice_views(self.choices@) =~= all.push(added));
        n
    }

    /// Records why the backend ended a choice.
    pub fn record_choice_backend_finish_reason(
        &mut self,
        choice_index: u32,
        backend_finish_reason: Option<String>,
        stop_reason: Option<StopReason>,
    )
        ensures
            final(self)@ == (FinishReasonMetadataView {
                choices: with_backend_reason(
                    old(self)@.choices,
                    choice_index,
                    text::text_of(backend_finish_reason),
                    protocol::stop_reason_of(stop_reason),
                ),
                ..old(self)@
            }),
    {
        let i: usize = self.choice_at(choice_index);
        let ghost all = choice_views(self.choices@);
        let mut choice: ChoiceFinishReasonMetadata = self.choices[i].copy();
        assert(all[i as int] == self.choices@[i as int]@);
        if backend_finish_reason.is_some() {
            choice.backend_finish_reason = backend_finish_reason;
        }
        if stop_reason.is_some() {
            choice.stop_reason = stop_reason;
        }
        let ghost changed = choice@;
        self.choices.set(i, choice);
        assert(choice_views(self.choices@) =~= all.update(i as int, changed));
    }

    /// Records why a choice ended.
    pub fn record_choice_finish_reason(&mut self, choice_index: u32, finish_reason: FinishReason)
        ensures
            final(self)@ == (FinishReasonMetadataView {
                choices: with_finish_reason(old(self)@.choices, choice_index, finish_reason),
                ..old(self)@
            }),
    {
        let i: usize = self.choice_at(choice_index);
        let ghost all = choice_views(self.choices@);
        let mut choice: ChoiceFinishReasonMetadata = self.choices[i].copy();
        assert(all[i as int] == self.choices@[i as int]@);
        choice.finish_reason = Some(finish_reason);
        let ghost changed = choice@;
        self.choices.set(i, choice);
        assert(choice_views(self.choices@) =~= all.update(i as int, changed));
    }
}

/// The identifier and the name of a call that its pieces showed last.
#[derive(Debug)]
struct PendingToolCallMetadata {
    id: Option<String>,
    name: Option<String>,
}

impl PendingToolCallMetadata {
    fn copy(&self) -> (r: Self)
        ensures
            text::text_of(r.id) == text::text_of(self.id),
            text::text_of(r.name) == text::text_of(self.name),
    {
        PendingToolCallMetadata { id: copy_text(&self.id), name: copy_text(&self.name) }
    }
}

/// The key of the call with the given indices.
spec fn key_of(choice_index: u32, tool_call_index: u32) -> u64 {
    (choice_index * 0x1_0000_0000 + tool_call_index) as u64
}

/// Makes the key of a call.
fn key_for(choice_index: u32, tool_call_index: u32) -> (r: u64)
    ensures
        r == key_of(choice_index, tool_call_index),
        r == choice_index * 0x1_0000_0000 + tool_call_index,
{
    choice_index as u64 * 0x1_0000_0000 + tool_call_index as u64
}

/// Gathers metadata from the chunks of a response.
#[derive(Debug)]
pub struct FinishReasonMetadataState {
    metadata: FinishReasonMetadata,
    pending_tool_calls: HashMap<u64, PendingToolCallMetadata>,
    tool_call_positions: HashMap<u64, usize>,
}

impl View for FinishReasonMetadataState {
    type V = FinishReasonMetadataView;

    closed spec fn view(&self) -> FinishReasonMetadataView {
        self.metadata@
    }
}

impl FinishReasonMetadataState {
    /// Each call is listed once, is found at its position, and is pending with an
    /// identifier and a name exactly where its entry has them.
    pub closed spec fn wf(&self) -> bool {
        let calls = self.metadata@.tool_calls;
        let positions = self.tool_call_positions@;
        let pending = self.pending_tool_calls@;
        &&& forall|k: u64| #[trigger]
            positions.contains_key(k) ==> positions[k] < calls.len() && key_of(
                calls[positions[k] as int].choice_index,
                calls[positions[k] as int].tool_call_index,
            ) == k
        &&& forall|i: int|
            0 <= i < calls.len() ==> {
                let k = key_of((#[trigger] calls[i]).choice_index, calls[i].tool_call_index);
                positions.contains_key(k) && positions[k] == i
            }
        &&& forall|k: u64| #[trigger] pending.contains_key(k) <==> positions.contains_key(k)
        &&& forall|k: u64| #[trigger]
            pending.contains_key(k) ==> {
                let call = calls[positions[k] as int];
                &&& pending[k].id is Some <==> call.id is Some
                &&& pending[k].name is Some <==> call.name is Some
            }
    }

    proof fn lemma_position(&self, choice_index: u32, tool_call_index: u32)
        requires
            self.wf(),
        ensures
            ({
                let k = key_of(choice_index, tool_call_index);
                let positions = self.tool_call_positions@;
                &&& positions.contains_key(k) ==> position_of(
                    self@.tool_calls,
                    choice_index,
                    tool_call_index,
                ) == Some(positions[k] as int)
                &&& !positions.contains_key(k) ==> position_of(
                    self@.tool_calls,
                    choice_index,
                    tool_call_index,
                ) is None
            }),
    {
        let calls = self@.tool_calls;
        let k = key_of(choice_index, tool_call_index);
        let positions = self.tool_call_positions@;
        lemma_position_of(calls, choice_index, tool_call_index);
        match position_of(calls, choice_index, tool_call_index) {
            Some(i) => {
                assert(key_of(calls[i].choice_index, calls[i].tool_call_index) == k);
            },
            None => {
                if positions.contains_key(k) {
                    let p = positions[k] as int;
                    assert(key_of(calls[p].choice_index, calls[p].tool_call_index) == k);
                }
            },
        }
    }

    /// Nothing is recorded yet.
    pub fn new() -> (r: Self)
        ensures
            r.wf(),
            r@ == no_metadata(),
    {
        FinishReasonMetadataState {
            metadata: FinishReasonMetadata::default(),
            pending_tool_calls: HashMap::new(),
            tool_call_positions: HashMap::new(),
        }
    }

    /// Records why the backend stopped, for the response and for a choice. What the backend
    /// leaves out stays as it was.
    pub fn record_backend_finish_reason(
        &mut self,
        choice_index: Option<u32>,
        backend_finish_reason: Option<String>,
        stop_reason: Option<StopReason>,
    )
        requires
            old(self).wf(),
        ensures
            final(self).wf(),
            final(self)@ == (FinishReasonMetadataView {
                backend_finish_reason: first_of(
                    text::text_of(backend_finish_reason),
                    old(self)@.backend_finish_reason,
                ),
                stop_reason: first_of(
                    protocol::stop_reason_of(stop_reason),
                    old(self)@.stop_reason,
                ),
                choices: match choice_index {
                    Some(i) => with_backend_reason(
                        old(self)@.choices,
                        i,
                        text::text_of(backend_finish_reason),
                        protocol::stop_reason_of(stop_reason),
                    ),
                    None => old(self)@.choices,
                },
                ..old(self)@
            }),
    {
        if backend_finish_reason.is_some() {
            self.metadata.backend_finish_reason = copy_text(&backend_finish_reason);
        }
        if stop_reason.is_some() {
            self.metadata.stop_reason = copy_stop_reason(&stop_reason);
        }
        if let Some(i) = choice_index {
            self.metadata.record_choice_backend_finish_reason(
                i,
                backend_finish_reason,
                stop_reason,
            );
        }
    }

    /// Records why a choice ended; the response ends for the reason recorded last.
    pub fn record_choice_finish_reason(&mut self, choice_index: u32, finish_reason: FinishReason)
        requires
            old(self).wf(),
        ensures
            final(self).wf(),
            final(self)@ == (FinishReasonMetadataView {
                finish_reason: Some(finish_reason),
                choices: with_finish_reason(old(self)@.choices, choice_index, finish_reason),
                ..old(self)@
            }),
    {
        self.metadata.finish_reason = Some(finish_reason);
        self.metadata.record_choice_finish_reason(choice_index, finish_reason);
    }

    /// Records a piece of a tool call. A piece with neither an identifier nor a name changes
    /// nothing.
    pub fn record_tool_call_chunk(
        &mut self,
        choice_index: u32,
        tool_call_index: u32,
        id: Option<&str>,
        name: Option<&str>,
    )
        requires
            old(self).wf(),
        ensures
            final(self).wf(),
            final(self)@ == (FinishReasonMetadataView {
                tool_calls: with_chunk(
                    old(self)@.tool_calls,
                    choice_index,
                    tool_call_index,
                    str_of(id),
                    str_of(name),
                ),
                ..old(self)@
            }),
    {
        if id.is_none() && name.is_none() {
            return;
        }
        let key: u64 = key_for(choice_index, tool_call_index);
        let ghost calls = call_views(self.metadata.tool_calls@);
        let ghost was = self.metadata.tool_calls@;
        proof {
            self.lemma_position(choice_index, tool_call_index);
        }
        let mut pending: PendingToolCallMetadata = match self.pending_tool_calls.get(&key) {
            Some(pending) => pending.copy(),
            None => PendingToolCallMetadata { id: None, name: None },
        };
        let mut changed: bool = false;
        if let Some(id) = id {
            if !holds(&pending.id, id) {
                pending.id = Some(id.to_string());
                changed = true;
            }
        }
        if let Some(name) = name {
            if !holds(&pending.name, name) {
                pending.name = Some(name.to_string());
                changed = true;
            }
        }
        if !changed {
            proof {
                let i = self.tool_call_positions@[key] as int;
                assert(calls[i] == was[i]@);
                assert(calls.update(i, calls[i]) =~= calls);
            }
            return;
        }
        let known: Option<usize> = match self.tool_call_positions.get(&key) {
            Some(position) => Some(*position),
            None => None,
        };
        match known {
            Some(position) => {
                let mut existing: ToolCallMetadata = self.metadata.tool_calls[position].copy();
                assert(calls[position as int] == was[position as int]@);
                if existing.id.is_none() {
                    existing.id = copy_text(&pending.id);
                }
                if existing.name.is_none() {
                    existing.name = copy_text(&pending.name);
                }
                let ghost entry = existing@;
                self.metadata.tool_calls.set(position, existing);
                assert(call_views(self.metadata.tool_calls@) =~= calls.update(
                    position as int,
                    entry,
                ));
            },
            None => {
                let position: usize = self.metadata.tool_calls.len();
                self.tool_call_positions.insert(key, position);
                let entry: ToolCallMetadata = ToolCallMetadata {
                    choice_index,
                    tool_call_index,
                    id: copy_text(&pending.id),
                    name: copy_text(&pending.name),
                };
                let ghost added = entry@;
                self.metadata.tool_calls.push(entry);
                assert(call_views(self.metadata.tool_calls@) =~= calls.push(added));
            },
        }
        self.pending_tool_calls.insert(key, pending);
    }

    /// What has been recorded, where anything has.
    pub fn snapshot(&self) -> (r: Option<FinishReasonMetadata>)
        ensures
            r is None <==> self@ == no_metadata(),
            r matches Some(metadata) ==> metadata@ == self@,
    {
        if self.metadata.is_empty() {
            None
        } else {
            Some(self.metadata.copy())
        }
    }
}

/// The name that a piece of a call shows.
pub open spec fn chunk_name(chunk: ChatCompletionMessageToolCallChunk) -> Option<Seq<char>> {
    match chunk.function {
        Some(function) => text::text_of(function.name),
        None => None,
    }
}

/// The calls after the pieces that a chunk shows of them.
pub open spec fn after_pieces(
    calls: Seq<ToolCallMetadataView>,
    choice_index: u32,
    pieces: Seq<ChatCompletionMessageToolCallChunk>,
) -> Seq<ToolCallMetadataView>
    decreases pieces.len(),
{
    if pieces.len() == 0 {
        calls
    } else {
        with_chunk(
            after_pieces(calls, choice_index, pieces.drop_last()),
            choice_index,
            pieces.last().index,
            text::text_of(pieces.last().id),
            chunk_name(pieces.last()),
        )
    }
}

/// The metadata after the finish reason of a choice.
pub open spec fn after_finish(
    m: FinishReasonMetadataView,
    choice_index: u32,
    finish_reason: Option<FinishReason>,
) -> FinishReasonMetadataView {
    match finish_reason {
        Some(reason) => FinishReasonMetadataView {
            finish_reason: Some(reason),
            choices: with_finish_reason(m.choices, choice_index, reason),
            ..m
        },
        None => m,
    }
}

/// The metadata after what a chunk adds to one choice.
pub open spec fn after_choice(
    m: FinishReasonMetadataView,
    choice: ChatChoiceStream,
) -> FinishReasonMetadataView {
    let ended = after_finish(m, choice.index, choice.finish_reason);
    match choice.delta.tool_calls {
        Some(pieces) => FinishReasonMetadataView {
            tool_calls: after_pieces(ended.tool_calls, choice.index, pieces@),
            ..ended
        },
        None => ended,
    }
}

/// The metadata after the choices of a chunk.
pub open spec fn after_choices(
    m: FinishReasonMetadataView,
    choices: Seq<ChatChoiceStream>,
) -> FinishReasonMetadataView
    decreases choices.len(),
{
    if choices.len() == 0 {
        m
    } else {
        after_choice(after_choices(m, choices.drop_last()), choices.last())
    }
}

/// The finish reason of a chat response that stands for that of a completion.
pub open spec fn chat_reason(finish_reason: CompletionFinishReason) -> FinishReason {
    match finish_reason {
        CompletionFinishReason::Stop => FinishReason::Stop,
        CompletionFinishReason::Length => FinishReason::Length,
        CompletionFinishReason::ContentFilter => FinishReason::ContentFilter,
    }
}

/// The metadata after the choices of a completion.
pub open spec fn after_completions(
    m: FinishReasonMetadataView,
    choices: Seq<Choice>,
) -> FinishReasonMetadataView
    decreases choices.len(),
{
    if choices.len() == 0 {
        m
    } else {
        after_finish(
            after_completions(m, choices.drop_last()),
            choices.last().index,
            match choices.last().finish_reason {
                Some(reason) => Some(chat_reason(reason)),
                None => None,
            },
        )
    }
}

/// Records why the backend stopped; where it says nothing, nothing changes.
pub fn record_backend_finish_reason_metadata(
    state: &mut FinishReasonMetadataState,
    choice_index: Option<u32>,
    finish_reason: Option<&BackendFinishReason>,
    stop_reason: Option<&StopReason>,
)
    requires
        old(state).wf(),
    ensures
        final(state).wf(),
        ({
            let reason = match finish_reason {
                Some(r) => Some(protocol::backend_reason_text(*r)),
                None => None,
            };
            let stop = match stop_reason {
                Some(r) => Some(r@),
                None => None,
            };
            final(state)@ == if reason is None && stop is None {
                old(state)@
            } else {
                FinishReasonMetadataView {
                    backend_finish_reason: first_of(reason, old(state)@.backend_finish_reason),
                    stop_reason: first_of(stop, old(state)@.stop_reason),
                    choices: match choice_index {
                        Some(i) => with_backend_reason(old(state)@.choices, i, reason, stop),
                        None => old(state)@.choices,
                    },
                    ..old(state)@
                }
            }
        }),
{
    if finish_reason.is_none() && stop_reason.is_none() {
        return;
    }
    let reason: Option<String> = match finish_reason {
        Some(reason) => Some(reason.text()),
        None => None,
    };
    let stop: Option<StopReason> = match stop_reason {
        Some(reason) => Some(reason.copy()),
        None => None,
    };
    state.record_backend_finish_reason(choice_index, reason, stop);
}

/// Records the pieces of calls that a chunk shows.
fn record_pieces(
    state: &mut FinishReasonMetadataState,
    choice_index: u32,
    pieces: &Vec<ChatCompletionMessageToolCallChunk>,
)
    requires
        old(state).wf(),
    ensures
        final(state).wf(),
        final(state)@ == (FinishReasonMetadataView {
            tool_calls: after_pieces(old(state)@.tool_calls, choice_index, pieces@),
            ..old(state)@
        }),
{
    let mut i: usize = 0;
    while i < pieces.len()
        invariant
            i <= pieces@.len(),
            state.wf(),
            state@ == (FinishReasonMetadataView {
                tool_calls: after_pieces(
                    old(state)@.tool_calls,
                    choice_index,
                    pieces@.take(i as int),
                ),
                ..old(state)@
            }),
        decreases pieces.len() - i,
    {
        let piece: &ChatCompletionMessageToolCallChunk = &pieces[i];
        let id: Option<&str> = match &piece.id {
            Some(id) => Some(id.as_str()),
            None => None,
        };
        let name: Option<&str> = match &piece.function {
            Some(function) => match &function.name {
                Some(name) => Some(name.as_str()),
                None => None,
            },
            None => None,
        };
        state.record_tool_call_chunk(choice_index, piece.index, id, name);
        assert(pieces@.take(i + 1).drop_last() =~= pieces@.take(i as int));
        i = i + 1;
    }
    assert(pieces@.take(pieces@.len() as int) =~= pieces@);
}

/// Records what a chunk of a chat response says of finish reasons and tool calls.
pub fn record_chat_finish_reason_metadata(
    state: &mut FinishReasonMetadataState,
    response: &Annotated<NvCreateChatCompletionStreamResponse>,
)
    requires
        old(state).wf(),
    ensures
        final(state).wf(),
        final(state)@ == match response.data {
            Some(data) => after_choices(old(state)@, data.inner.choices@),
            None => old(state)@,
        },
{
    let data: &NvCreateChatCompletionStreamResponse = match &response.data {
        Some(data) => data,
        None => {
            return;
        },
    };
    let choices: &Vec<ChatChoiceStream> = &data.inner.choices;
    let mut i: usize = 0;
    while i < choices.len()
        invariant
            i <= choices@.len(),
            state.wf(),
            state@ == after_choices(old(state)@, choices@.take(i as int)),
        decreases choices.len() - i,
    {
        let choice: &ChatChoiceStream = &choices[i];
        if let Some(reason) = choice.finish_reason {
            state.record_choice_finish_reason(choice.index, reason);
        }
        if let Some(pieces) = &choice.delta.tool_calls {
            record_pieces(state, choice.index, pieces);
        }
        assert(choices@.take(i + 1).drop_last() =~= choices@.take(i as int));
        i = i + 1;
    }
    assert(choices@.take(choices@.len() as int) =~= choices@);
}

/// The finish reason of a chat response that stands for that of a completion.
pub fn completion_finish_reason_to_finish_reason(finish_reason: CompletionFinishReason) -> (r:
    FinishReason)
    ensures
        r == chat_reason(finish_reason),
{
    match finish_reason {
        CompletionFinishReason::Stop => FinishReason::Stop,
        CompletionFinishReason::Length => FinishReason::Length,
        CompletionFinishReason::ContentFilter => FinishReason::ContentFilter,
    }
}

/// Records what a completion says of finish reasons.
pub fn record_completion_finish_reason_metadata(
    state: &mut FinishReasonMetadataState,
    response: &Annotated<NvCreateCompletionResponse>,
)
    requires
        old(state).wf(),
    ensures
        final(state).wf(),
        final(state)@ == match response.data {
            Some(data) => after_completions(old(state)@, data.inner.choices@),
            None => old(state)@,
        },
{
    let data: &NvCreateCompletionResponse = match &response.data {
        Some(data) => data,
        None => {
            return;
        },
    };
    let choices: &Vec<Choice> = &data.inner.choices;
    let mut i: usize = 0;
    while i < choices.len()
        invariant
            i <= choices@.len(),
            state.wf(),
            state@ == after_completions(old(state)@, choices@.take(i as int)),
        decreases choices.len() - i,
    {
        if let Some(reason) = choices[i].finish_reason {
            state.record_choice_finish_reason(
                choices[i].index,
                completion_finish_reason_to_finish_reason(reason),
            );
        }
        assert(choices@.take(i + 1).drop_last() =~= choices@.take(i as int));
        i = i + 1;
    }
    assert(choices@.take(choices@.len() as int) =~= choices@);
}

/// Two calls never have the same indices.
pub open spec fn calls_distinct(calls: Seq<ToolCallMetadataView>) -> bool {
    forall|i: int, j: int|
        0 <= i < j < calls.len() ==> !((#[trigger] calls[i]).choice_index == (
        #[trigger] calls[j]).choice_index && calls[i].tool_call_index == calls[j].tool_call_index)
}

/// A piece of a call leaves the calls before it in place: their indices, and the identifiers
/// and names that they have, stay. At most one call is added, at the end, and no two calls
/// have the same indices.
pub proof fn law_calls_stay_in_place(
    calls: Seq<ToolCallMetadataView>,
    choice_index: u32,
    tool_call_index: u32,
    id: Option<Seq<char>>,
    name: Option<Seq<char>>,
)
    ensures
        ({
            let after = with_chunk(calls, choice_index, tool_call_index, id, name);
            &&& calls.len() <= after.len() <= calls.len() + 1
            &&& forall|i: int|
                0 <= i < calls.len() ==> {
                    &&& (#[trigger] after[i]).choice_index == calls[i].choice_index
                    &&& after[i].tool_call_index == calls[i].tool_call_index
                    &&& calls[i].id is Some ==> after[i].id == calls[i].id
                    &&& calls[i].name is Some ==> after[i].name == calls[i].name
                }
            &&& calls_distinct(calls) ==> calls_distinct(after)
        }),
{
    lemma_position_of(calls, choice_index, tool_call_index);
}

/// A piece of a call that comes twice changes nothing the second time.
pub proof fn law_piece_twice(
    calls: Seq<ToolCallMetadataView>,
    choice_index: u32,
    tool_call_index: u32,
    id: Option<Seq<char>>,
    name: Option<Seq<char>>,
)
    requires
        calls_distinct(calls),
    ensures
        ({
            let once = with_chunk(calls, choice_index, tool_call_index, id, name);
            with_chunk(once, choice_index, tool_call_index, id, name) == once
        }),
{
    let once = with_chunk(calls, choice_index, tool_call_index, id, name);
    law_calls_stay_in_place(calls, choice_index, tool_call_index, id, name);
    lemma_position_of(calls, choice_index, tool_call_index);
    lemma_position_of(once, choice_index, tool_call_index);
    if id is Some || name is Some {
        let i = match position_of(calls, choice_index, tool_call_index) {
            Some(i) => i,
            None => calls.len() as int,
        };
        assert(once[i].choice_index == choice_index && once[i].tool_call_index == tool_call_index);
        let k = position_of(once, choice_index, tool_call_index).unwrap();
        assert(k == i);
        assert(with_chunk(once, choice_index, tool_call_index, id, name) =~= once);
    }
}

/// Two entries never stand for the same choice.
pub open spec fn choices_distinct(choices: Seq<ChoiceFinishReasonMetadataView>) -> bool {
    forall|i: int, j: int|
        0 <= i < j < choices.len() ==> (#[trigger] choices[i]).choice_index != (
        #[trigger] choices[j]).choice_index
}

proof fn lemma_choice_position(choices: Seq<ChoiceFinishReasonMetadataView>, choice_index: u32)
    ensures
        choice_position(choices, choice_index) matches Some(i) ==> 0 <= i < choices.len()
            && choices[i].choice_index == choice_index,
        choice_position(choices, choice_index) is None ==> forall|i: int|
            0 <= i < choices.len() ==> (#[trigger] choices[i]).choice_index != choice_index,
    decreases choices.len(),
{
    if choices.len() > 0 {
        let rest = choices.drop_last();
        lemma_choice_position(rest, choice_index);
        assert forall|i: int|
            0 <= i < choices.len() && choice_position(choices, choice_index)
                is None implies (#[trigger] choices[i]).choice_index != choice_index by {
            if i < rest.len() {
                assert(rest[i] == choices[i]);
            }
        }
    }
}

/// Recording the finish reason of a choice leaves exactly one entry for the choice, with that
/// reason and with what the backend had told of it; the entries of other choices stay as they
/// are, in their places, and none is lost. A choice that had no entry gets one at the end, which
/// says nothing else.
pub proof fn law_finish_reason_is_recorded_for_its_choice(
    choices: Seq<ChoiceFinishReasonMetadataView>,
    choice_index: u32,
    finish_reason: FinishReason,
)
    requires
        forall|i: int, j: int|
            0 <= i < j < choices.len() ==> (#[trigger] choices[i]).choice_index != (
            #[trigger] choices[j]).choice_index,
    ensures
        ({
            let after = with_finish_reason(choices, choice_index, finish_reason);
            &&& exists|i: int|
                {
                    &&& 0 <= i < after.len()
                    &&& (#[trigger] after[i]).choice_index == choice_index
                    &&& after[i].finish_reason == Some(finish_reason)
                    &&& forall|j: int|
                        0 <= j < after.len() && j != i ==> (#[trigger] after[j]).choice_index
                            != choice_index
                }
            &&& forall|j: int|
                0 <= j < choices.len() && (#[trigger] choices[j]).choice_index != choice_index
                    ==> after[j] == choices[j]
            &&& forall|j: int|
                0 <= j < choices.len() && (#[trigger] choices[j]).choice_index == choice_index ==> {
                    &&& after[j].choice_index == choice_index
                    &&& after[j].finish_reason == Some(finish_reason)
                    &&& after[j].backend_finish_reason == choices[j].backend_finish_reason
                    &&& after[j].stop_reason == choices[j].stop_reason
                }
            &&& (exists|j: int|
                0 <= j < choices.len() && (#[trigger] choices[j]).choice_index == choice_index)
                ==> after.len() == choices.len()
            &&& (forall|j: int|
                0 <= j < choices.len() ==> (#[trigger] choices[j]).choice_index != choice_index) ==> {
                &&& after.len() == choices.len() + 1
                &&& after[choices.len() as int].choice_index == choice_index
                &&& after[choices.len() as int].finish_reason == Some(finish_reason)
                &&& after[choices.len() as int].backend_finish_reason is None
                &&& after[choices.len() as int].stop_reason is None
            }
            &&& forall|i: int, j: int|
                0 <= i < j < after.len() ==> (#[trigger] after[i]).choice_index != (
                #[trigger] after[j]).choice_index
        }),
{
    lemma_choice_position(choices, choice_index);
    let all = with_choice(choices, choice_index);
    lemma_choice_position(all, choice_index);
    let after = with_finish_reason(choices, choice_index, finish_reason);
    if choice_position(choices, choice_index) is None {
        assert(all[choices.len() as int].choice_index == choice_index);
    }
    let i = choice_position(all, choice_index).unwrap();
    assert(after[i].choice_index == choice_index);
}

/// Recording what the backend told of a choice leaves exactly one entry for the choice, with
/// what was told in place of what was known, and with what was known where nothing was told; its
/// finish reason stays. The entries of other choices stay as they are, in their places, and none
/// is lost. A choice that had no entry gets one at the end.
pub proof fn law_backend_reason_is_recorded_for_its_choice(
    choices: Seq<ChoiceFinishReasonMetadataView>,
    choice_index: u32,
    backend_finish_reason: Option<Seq<char>>,
    stop_reason: Option<protocol::StopReasonView>,
)
    requires
        forall|i: int, j: int|
            0 <= i < j < choices.len() ==> (#[trigger] choices[i]).choice_index != (
            #[trigger] choices[j]).choice_index,
    ensures
        ({
            let after = with_backend_reason(
                choices,
                choice_index,
                backend_finish_reason,
                stop_reason,
            );
            &&& exists|i: int|
                {
                    &&& 0 <= i < after.len()
                    &&& (#[trigger] after[i]).choice_index == choice_index
                    &&& backend_finish_reason is Some ==> after[i].backend_finish_reason
                        == backend_finish_reason
                    &&& stop_reason is Some ==> after[i].stop_reason == stop_reason
                    &&& forall|j: int|
                        0 <= j < after.len() && j != i ==> (#[trigger] after[j]).choice_index
                            != choice_index
                }
            &&& forall|j: int|
                0 <= j < choices.len() && (#[trigger] choices[j]).choice_index != choice_index
                    ==> after[j] == choices[j]
            &&& forall|j: int|
                0 <= j < choices.len() && (#[trigger] choices[j]).choice_index == choice_index ==> {
                    &&& after[j].choice_index == choice_index
                    &&& after[j].finish_reason == choices[j].finish_reason
                    &&& backend_finish_reason is Some ==> after[j].backend_finish_reason
                        == backend_finish_reason
                    &&& backend_finish_reason is None ==> after[j].backend_finish_reason
                        == choices[j].backend_finish_reason
                    &&& stop_reason is Some ==> after[j].stop_reason == stop_reason
                    &&& stop_reason is None ==> after[j].stop_reason == choices[j].stop_reason
                }
            &&& (exists|j: int|
                0 <= j < choices.len() && (#[trigger] choices[j]).choice_index == choice_index)
                ==> after.len() == choices.len()
            &&& (forall|j: int|
                0 <= j < choices.len() ==> (#[trigger] choices[j]).choice_index != choice_index) ==> {
                &&& after.len() == choices.len() + 1
                &&& after[choices.len() as int].choice_index == choice_index
                &&& after[choices.len() as int].finish_reason is None
                &&& after[choices.len() as int].backend_finish_reason == backend_finish_reason
                &&& after[choices.len() as int].stop_reason == stop_reason
            }
            &&& forall|i: int, j: int|
                0 <= i < j < after.len() ==> (#[trigger] after[i]).choice_index != (
                #[trigger] after[j]).choice_index
        }),
{
    lemma_choice_position(choices, choice_index);
    let all = with_choice(choices, choice_index);
    lemma_choice_position(all, choice_index);
    let after = with_backend_reason(choices, choice_index, backend_finish_reason, stop_reason);
    if choice_position(choices, choice_index) is None {
        assert(all[choices.len() as int].choice_index == choice_index);
    }
    let i = choice_position(all, choice_index).unwrap();
    assert(after[i].choice_index == choice_index);
}

/// A piece of a call that shows an identifier or a name leaves exactly one call with its indices.
/// The call has the identifier and the name that it had or, where it had none, those of the
/// piece. All other calls stay as they are, in their places; a call that is new comes last. A
/// piece that shows neither changes nothing.
pub proof fn law_piece_is_recorded_for_its_call(
    calls: Seq<ToolCallMetadataView>,
    choice_index: u32,
    tool_call_index: u32,
    id: Option<Seq<char>>,
    name: Option<Seq<char>>,
)
    requires
        calls_distinct(calls),
    ensures
        ({
            let after = with_chunk(calls, choice_index, tool_call_index, id, name);
            &&& id is None && name is None ==> after == calls
            &&& id is Some || name is Some ==> exists|i: int|
                {
                    &&& 0 <= i < after.len()
                    &&& (#[trigger] after[i]).choice_index == choice_index
                    &&& after[i].tool_call_index == tool_call_index
                    &&& id is Some ==> after[i].id is Some
                    &&& name is Some ==> after[i].name is Some
                    &&& forall|j: int|
                        0 <= j < after.len() && j != i ==> !((#[trigger] after[j]).choice_index
                            == choice_index && after[j].tool_call_index == tool_call_index)
                }
            &&& forall|j: int|
                0 <= j < calls.len() && !((#[trigger] calls[j]).choice_index == choice_index
                    && calls[j].tool_call_index == tool_call_index) ==> after[j] == calls[j]
            &&& forall|j: int|
                0 <= j < calls.len() && (#[trigger] calls[j]).choice_index == choice_index
                    && calls[j].tool_call_index == tool_call_index ==> {
                    &&& after.len() == calls.len()
                    &&& after[j].choice_index == choice_index
                    &&& after[j].tool_call_index == tool_call_index
                    &&& calls[j].id is Some ==> after[j].id == calls[j].id
                    &&& calls[j].id is None ==> after[j].id == id
                    &&& calls[j].name is Some ==> after[j].name == calls[j].name
                    &&& calls[j].name is None ==> after[j].name == name
                }
            &&& (id is Some || name is Some) && (forall|j: int|
                0 <= j < calls.len() ==> !((#[trigger] calls[j]).choice_index == choice_index
                    && calls[j].tool_call_index == tool_call_index)) ==> {
                &&& after.len() == calls.len() + 1
                &&& after[calls.len() as int].choice_index == choice_index
                &&& after[calls.len() as int].tool_call_index == tool_call_index
                &&& after[calls.len() as int].id == id
                &&& after[calls.len() as int].name == name
            }
            &&& calls_distinct(after)
        }),
{
    lemma_position_of(calls, choice_index, tool_call_index);
    law_calls_stay_in_place(calls, choice_index, tool_call_index, id, name);
    let after = with_chunk(calls, choice_index, tool_call_index, id, name);
    if id is Some || name is Some {
        let i = match position_of(calls, choice_index, tool_call_index) {
            Some(i) => i,
            None => calls.len() as int,
        };
        assert(after[i].choice_index == choice_index && after[i].tool_call_index
            == tool_call_index);
        assert forall|j: int| 0 <= j < after.len() && j != i implies !((
        #[trigger] after[j]).choice_index == choice_index && after[j].tool_call_index
            == tool_call_index) by {
            if j < i {
                assert(after[j].choice_index == after[j].choice_index);
            }
        }
    }
}

/// Pieces of calls are taken one after the other: those of two lists, as if they came in two
/// chunks. One piece is recorded with its own index, identifier and name.
pub proof fn law_pieces_are_taken_in_turn(
    calls: Seq<ToolCallMetadataView>,
    choice_index: u32,
    a: Seq<ChatCompletionMessageToolCallChunk>,
    b: Seq<ChatCompletionMessageToolCallChunk>,
    piece: ChatCompletionMessageToolCallChunk,
)
    ensures
        after_pieces(calls, choice_index, a + b) == after_pieces(
            after_pieces(calls, choice_index, a),
            choice_index,
            b,
        ),
        after_pieces(calls, choice_index, Seq::empty()) == calls,
        after_pieces(calls, choice_index, seq![piece]) == with_chunk(
            calls,
            choice_index,
            piece.index,
            match piece.id {
                Some(id) => Some(id@),
                None => None,
            },
            match piece.function {
                Some(function) => match function.name {
                    Some(name) => Some(name@),
                    None => None,
                },
                None => None,
            },
        ),
    decreases b.len(),
{
    assert(seq![piece].drop_last() =~= Seq::empty());
    assert(after_pieces(calls, choice_index, seq![piece].drop_last()) == calls);
    if b.len() == 0 {
        assert(a + b =~= a);
    } else {
        law_pieces_are_taken_in_turn(calls, choice_index, a, b.drop_last(), piece);
        assert((a + b).drop_last() =~= a + b.drop_last());
    }
}

/// What a chunk says of one choice is recorded for that choice: its finish reason becomes that of
/// the choice and of the response, and its pieces of calls are recorded with the index of the
/// choice. What the chunk does not say stays, and so does what the backend had told.
pub proof fn law_choice_is_recorded_under_its_index(
    m: FinishReasonMetadataView,
    choice: ChatChoiceStream,
)
    ensures
        ({
            let after = after_choices(m, seq![choice]);
            &&& after.backend_finish_reason == m.backend_finish_reason
            &&& after.stop_reason == m.stop_reason
            &&& choice.finish_reason is None ==> after.finish_reason == m.finish_reason
                && after.choices == m.choices
            &&& choice.finish_reason matches Some(reason) ==> after.finish_reason == Some(reason)
                && after.choices == with_finish_reason(m.choices, choice.index, reason)
            &&& choice.delta.tool_calls is None ==> after.tool_calls == m.tool_calls
            &&& choice.delta.tool_calls matches Some(pieces) ==> after.tool_calls == after_pieces(
                m.tool_calls,
                choice.index,
                pieces@,
            )
        }),
{
    assert(seq![choice].drop_last() =~= Seq::empty());
    assert(after_choices(m, seq![choice].drop_last()) == m);
}

/// The choices of a chunk are taken one after the other: two lists of them, as if they came in
/// two chunks.
pub proof fn law_choices_are_taken_in_turn(
    m: FinishReasonMetadataView,
    a: Seq<ChatChoiceStream>,
    b: Seq<ChatChoiceStream>,
)
    ensures
        after_choices(m, a + b) == after_choices(after_choices(m, a), b),
        after_choices(m, Seq::empty()) == m,
    decreases b.len(),
{
    if b.len() == 0 {
        assert(a + b =~= a);
    } else {
        law_choices_are_taken_in_turn(m, a, b.drop_last());
        assert((a + b).drop_last() =~= a + b.drop_last());
    }
}

/// Where the choices of a chunk all end, and no two are the same choice, each has in the end the
/// reason that the chunk gives for it, and the response that of the last.
pub proof fn law_each_choice_keeps_its_own_reason(
    m: FinishReasonMetadataView,
    choices: Seq<ChatChoiceStream>,
)
    requires
        choices_distinct(m.choices),
        forall|i: int| 0 <= i < choices.len() ==> (#[trigger] choices[i]).finish_reason is Some,
        forall|i: int, j: int|
            0 <= i < j < choices.len() ==> (#[trigger] choices[i]).index != (
            #[trigger] choices[j]).index,
    ensures
        choices_distinct(after_choices(m, choices).choices),
        forall|i: int|
            0 <= i < choices.len() ==> reason_of(
                after_choices(m, choices).choices,
                (#[trigger] choices[i]).index,
                choices[i].finish_reason,
            ),
        forall|j: int|
            0 <= j < m.choices.len() && (forall|i: int|
                0 <= i < choices.len() ==> (#[trigger] choices[i]).index
                    != m.choices[j].choice_index) ==> after_choices(m, choices).choices[j]
                == #[trigger] m.choices[j],
        after_choices(m, choices).choices.len() >= m.choices.len(),
        choices.len() > 0 ==> after_choices(m, choices).finish_reason == choices[choices.len()
            - 1].finish_reason,
    decreases choices.len(),
{
    if choices.len() > 0 {
        let front = choices.drop_last();
        let last = choices.last();
        law_each_choice_keeps_its_own_reason(m, front);
        let before = after_choices(m, front).choices;
        let after = after_choices(m, choices).choices;
        let reason = last.finish_reason.unwrap();
        law_finish_reason_is_recorded_for_its_choice(before, last.index, reason);
        assert(after == with_finish_reason(before, last.index, reason));
        assert forall|i: int| 0 <= i < choices.len() implies reason_of(
            after,
            (#[trigger] choices[i]).index,
            choices[i].finish_reason,
        ) by {
            if i < front.len() {
                assert(front[i] == choices[i]);
                let k = choose|k: int|
                    0 <= k < before.len() && (#[trigger] before[k]).choice_index
                        == choices[i].index && before[k].finish_reason == choices[i].finish_reason;
                assert(after[k] == before[k]);
            } else {
                let k = choose|k: int|
                    0 <= k < after.len() && (#[trigger] after[k]).choice_index == last.index
                        && after[k].finish_reason == Some(reason);
                assert(after[k].choice_index == choices[i].index);
            }
        }
        assert forall|j: int|
            0 <= j < m.choices.len() && (forall|i: int|
                0 <= i < choices.len() ==> (#[trigger] choices[i]).index
                    != m.choices[j].choice_index) implies after[j] == #[trigger] m.choices[j] by {
            assert forall|i: int| 0 <= i < front.len() implies (#[trigger] front[i]).index
                != m.choices[j].choice_index by {
                assert(front[i] == choices[i]);
            }
            assert(choices[choices.len() - 1].index != m.choices[j].choice_index);
            assert(before[j] == m.choices[j]);
        }
    }
}

/// An entry stands for the choice and has the finish reason.
pub open spec fn reason_of(
    entries: Seq<ChoiceFinishReasonMetadataView>,
    choice_index: u32,
    finish_reason: Option<FinishReason>,
) -> bool {
    exists|k: int|
        0 <= k < entries.len() && (#[trigger] entries[k]).choice_index == choice_index
            && entries[k].finish_reason == finish_reason
}

/// The choices of a completion are recorded as those of a chat response that ends for the same
/// reason; nothing else changes.
pub proof fn law_completion_is_recorded_as_chat(m: FinishReasonMetadataView, choice: Choice)
    ensures
        ({
            let after = after_completions(m, seq![choice]);
            &&& after.backend_finish_reason == m.backend_finish_reason
            &&& after.stop_reason == m.stop_reason
            &&& after.tool_calls == m.tool_calls
            &&& choice.finish_reason is None ==> after == m
            &&& choice.finish_reason matches Some(reason) ==> exists|chat: FinishReason|
                {
                    &&& after.finish_reason == Some(chat)
                    &&& after.choices == #[trigger] with_finish_reason(
                        m.choices,
                        choice.index,
                        chat,
                    )
                    &&& reason is Stop ==> chat is Stop
                    &&& reason is Length ==> chat is Length
                    &&& reason is ContentFilter ==> chat is ContentFilter
                }
        }),
{
    assert(seq![choice].drop_last() =~= Seq::empty());
    assert(after_completions(m, seq![choice].drop_last()) == m);
    if let Some(reason) = choice.finish_reason {
        let chat = chat_reason(reason);
        assert(after_completions(m, seq![choice]).choices == with_finish_reason(
            m.choices,
            choice.index,
            chat,
        ));
    }
}

/// The choices of a completion are taken one after the other.
pub proof fn law_completions_are_taken_in_turn(
    m: FinishReasonMetadataView,
    a: Seq<Choice>,
    b: Seq<Choice>,
)
    ensures
        after_completions(m, a + b) == after_completions(after_completions(m, a), b),
        after_completions(m, Seq::empty()) == m,
    decreases b.len(),
{
    if b.len() == 0 {
        assert(a + b =~= a);
    } else {
        law_completions_are_taken_in_turn(m, a, b.drop_last());
        assert((a + b).drop_last() =~= a + b.drop_last());
    }
}

/// The finish reason of a completion keeps its meaning: reasons that differ stay different.
pub proof fn law_completion_reason_keeps_its_meaning(
    a: CompletionFinishReason,
    b: CompletionFinishReason,
)
    ensures
        a is Stop <==> chat_reason(a) is Stop,
        a is Length <==> chat_reason(a) is Length,
        a is ContentFilter <==> chat_reason(a) is ContentFilter,
        chat_reason(a) == chat_reason(b) ==> a == b,
{
}

/// What is recorded anew goes before what is known, and what is known stays where nothing is
/// recorded. Nothing is recorded of a response at first.
pub proof fn law_new_goes_before_known<T>(new: Option<T>, known: Option<T>)
    ensures
        new is Some ==> first_of(new, known) == new,
        new is None ==> first_of(new, known) == known,
        no_metadata().choices.len() == 0,
        no_metadata().tool_calls.len() == 0,
        no_metadata().finish_reason is None,
        no_metadata().backend_finish_reason is None,
        no_metadata().stop_reason is None,
{
}

/// What is recorded of a call, of a choice and of a response is what their fields hold.
pub proof fn law_views_hold_the_fields(
    call: ToolCallMetadata,
    choice: ChoiceFinishReasonMetadata,
    m: FinishReasonMetadata,
)
    ensures
        call@.choice_index == call.choice_index,
        call@.tool_call_index == call.tool_call_index,
        call.id matches Some(id) ==> call@.id == Some(id@),
        call.id is None ==> call@.id is None,
        call.name matches Some(name) ==> call@.name == Some(name@),
        call.name is None ==> call@.name is None,
        choice@.choice_index == choice.choice_index,
        choice@.finish_reason == choice.finish_reason,
        choice.backend_finish_reason matches Some(r) ==> choice@.backend_finish_reason == Some(r@),
        choice.backend_finish_reason is None ==> choice@.backend_finish_reason is None,
        choice.stop_reason matches Some(r) ==> choice@.stop_reason == Some(r@),
        choice.stop_reason is None ==> choice@.stop_reason is None,
        m@.finish_reason == m.finish_reason,
        m.backend_finish_reason matches Some(r) ==> m@.backend_finish_reason == Some(r@),
        m.backend_finish_reason is None ==> m@.backend_finish_reason is None,
        m.stop_reason matches Some(r) ==> m@.stop_reason == Some(r@),
        m.stop_reason is None ==> m@.stop_reason is None,
        m@.tool_calls.len() == m.tool_calls@.len(),
        forall|i: int| 0 <= i < m.tool_calls@.len() ==> #[trigger] m@.tool_calls[i] == m.tool_calls@[i]@,
        m@.choices.len() == m.choices@.len(),
        forall|i: int| 0 <= i < m.choices@.len() ==> #[trigger] m@.choices[i] == m.choices@[i]@,
{
}

} // verus!
