//! Feeding captured model output to the parsers and reading off what comes out.

use vstd::prelude::*;

use crate::json;
use crate::json::Member;
use crate::nvext::NvCreateChatCompletionStreamResponse;
use crate::protocol::{
    Annotated, ChatChoiceStream, ChatCompletionMessageContent, ChatCompletionStreamResponseDelta,
    CreateChatCompletionStreamResponse, FinishReason, Role,
};
use crate::response::ToolDefinition;
use crate::text;

verus! {

/// A request that cannot be carried out.
#[derive(Clone, Debug, PartialEq, Eq)]
pub struct CaptureError {
    pub message: String,
}

/// The name of a parser; an empty name stands for the default.
pub fn parser_choice(parser_name: String) -> (r: Option<String>)
    ensures
        parser_name@.len() == 0 ==> r is None,
        parser_name@.len() > 0 ==> r == Some(parser_name),
{
    if parser_name.as_str().unicode_len() == 0 {
        None
    } else {
        Some(parser_name)
    }
}

/// The value of the last member with the given name.
pub open spec fn last_value(
    members: Seq<(Seq<char>, Seq<char>)>,
    name: Seq<char>,
) -> Option<Seq<char>>
    decreases members.len(),
{
    if members.len() == 0 {
        None
    } else if members.last().0 == name {
        Some(members.last().1)
    } else {
        last_value(members.drop_last(), name)
    }
}

/// The name of the first member of an object that `serde_json` takes for the value that its
/// string holds.
pub const RAW_VALUE_KEY: &'static str = "$serde_json::private::RawValue";

/// The text of the value that an object stands for, where its first member has the name that
/// makes it stand for the value in a string.
pub open spec fn held_text(s: Seq<char>) -> Option<Seq<char>> {
    match json::object_members(s) {
        Some(members) => if members.len() > 0 && members[0].0 == RAW_VALUE_KEY@ {
            json::json_string(members[0].1)
        } else {
            None
        },
        None => None,
    }
}

/// The text of the value that a JSON text stands for once it is read as a `serde_json::Value`.
pub open spec fn value_text(s: Seq<char>) -> Seq<char>
    decreases s.len(),
{
    match held_text(s) {
        Some(held) => if held.len() < s.len() {
            value_text(held)
        } else {
            s
        },
        None => s,
    }
}

/// The value of a member of the object that a JSON text holds. A text that is no object has
/// no members.
pub open spec fn member_of(s: Seq<char>, name: Seq<char>) -> Option<Seq<char>> {
    match json::object_members(value_text(s)) {
        Some(members) => last_value(members, name),
        None => None,
    }
}

/// A tool: its name, and the text of its schema.
pub struct ToolText {
    pub name: Seq<char>,
    pub parameters: Option<Seq<char>>,
}

/// The tool that an element describes, either itself or under `function`. `None` where its
/// name is missing or is no string.
pub open spec fn tool_of(item: Seq<char>) -> Option<ToolText> {
    let inner = match member_of(item, "function"@) {
        Some(function) => function,
        None => item,
    };
    match member_of(inner, "name"@) {
        Some(raw_name) => match json::json_string(value_text(raw_name)) {
            Some(name) => Some(ToolText { name, parameters: member_of(inner, "parameters"@) }),
            None => None,
        },
        None => None,
    }
}

/// The complaint about an element that names no tool.
pub open spec fn unnamed_tool(i: nat) -> Seq<char> {
    "tools_json["@ + text::decimal(i) + "] requires a string `name` field (or `function.name`)"@
}

/// The definition holds what the element describes, and no demand for strictness.
pub open spec fn defines(definition: ToolDefinition, item: Seq<char>) -> bool {
    &&& tool_of(item) matches Some(tool)
    &&& definition.name@ == tool.name
    &&& text::text_of(definition.parameters) == tool.parameters
    &&& definition.strict is None
}

/// The definitions are those of the elements, or the complaint is about the first element
/// that names no tool.
pub open spec fn are_definitions(
    r: Result<Vec<ToolDefinition>, CaptureError>,
    items: Seq<Seq<char>>,
) -> bool {
    match r {
        Ok(definitions) => {
            &&& definitions@.len() == items.len()
            &&& forall|i: int|
                0 <= i < items.len() ==> defines(#[trigger] definitions@[i], items[i])
        },
        Err(e) => exists|i: int|
            {
                &&& 0 <= i < items.len()
                &&& tool_of(#[trigger] items[i]) is None
                &&& e.message@ == unnamed_tool(i as nat)
                &&& forall|k: int| 0 <= k < i ==> tool_of(#[trigger] items[k]) is Some
            },
    }
}

/// The value of the last member with the given name.
pub fn last_member(members: &Vec<Member>, name: &str) -> (r: Option<String>)
    ensures
        text::text_of(r) == last_value(json::member_texts(members@), name@),
{
    let ghost all = json::member_texts(members@);
    let mut i: usize = members.len();
    assert(all.take(all.len() as int) =~= all);
    while i > 0
        invariant
            i <= members@.len(),
            all == json::member_texts(members@),
            last_value(all, name@) == last_value(all.take(i as int), name@),
        decreases i,
    {
        assert(all.take(i as int).last() == (members@[i - 1].0@, members@[i - 1].1@));
        assert(all.take(i as int).drop_last() =~= all.take(i - 1));
        if text::same_text(members[i - 1].0.as_str(), name) {
            return Some(members[i - 1].1.clone());
        }
        i = i - 1;
    }
    None
}

/// The text of the value that a JSON text stands for.
pub fn read_value_text(s: &str) -> (r: String)
    ensures
        r@ == value_text(s@),
{
    let mut current: String = s.to_string();
    loop
        invariant
            value_text(current@) == value_text(s@),
        decreases current@.len(),
    {
        let members: Vec<Member> = match json::read_members(current.as_str()) {
            Some(members) => members,
            None => {
                return current;
            },
        };
        if members.len() == 0 || !text::same_text(members[0].0.as_str(), RAW_VALUE_KEY) {
            return current;
        }
        assert(json::member_texts(members@)[0] == (members@[0].0@, members@[0].1@));
        match json::read_string(members[0].1.as_str()) {
            Some(held) => {
                if held.as_str().unicode_len() < current.as_str().unicode_len() {
                    current = held;
                } else {
                    return current;
                }
            },
            None => {
                return current;
            },
        }
    }
}

/// The value of a member of the object that a JSON text holds.
fn read_member(s: &str, name: &str) -> (r: Option<String>)
    ensures
        text::text_of(r) == member_of(s@, name@),
{
    let s: String = read_value_text(s);
    match json::read_members(s.as_str()) {
        Some(members) => last_member(&members, name),
        None => None,
    }
}

/// The tool that an element describes.
fn read_tool(item: &str) -> (r: Option<ToolDefinition>)
    ensures
        r matches Some(definition) ==> defines(definition, item@),
        r is None ==> tool_of(item@) is None,
{
    let inner: String = match read_member(item, "function") {
        Some(function) => function,
        None => item.to_string(),
    };
    let raw_name: String = match read_member(inner.as_str(), "name") {
        Some(raw_name) => raw_name,
        None => {
            return None;
        },
    };
    let raw_name: String = read_value_text(raw_name.as_str());
    match json::read_string(raw_name.as_str()) {
        Some(name) => Some(
            ToolDefinition {
                name,
                parameters: read_member(inner.as_str(), "parameters"),
                strict: None,
            },
        ),
        None => None,
    }
}

/// The tools that the elements of a list describe.
pub fn definitions_of(items: &Vec<String>) -> (r: Result<Vec<ToolDefinition>, CaptureError>)
    ensures
        are_definitions(r, text::texts(items@)),
{
    let ghost all = text::texts(items@);
    let mut definitions: Vec<ToolDefinition> = Vec::new();
    let mut i: usize = 0;
    while i < items.len()
        invariant
            i <= items@.len(),
            all == text::texts(items@),
            definitions@.len() == i,
            forall|k: int| 0 <= k < i ==> defines(#[trigger] definitions@[k], all[k]),
        decreases items.len() - i,
    {
        assert(all[i as int] == items@[i as int]@);
        match read_tool(items[i].as_str()) {
            Some(definition) => {
                definitions.push(definition);
            },
            None => {
                let mut message: String = "tools_json[".to_string();
                let number: String = text::decimal_text(i as u64);
                message.append(number.as_str());
                message.append("] requires a string `name` field (or `function.name`)");
                proof {
                    assert forall|k: int| 0 <= k < i implies tool_of(#[trigger] all[k]) is Some by {
                        assert(defines(definitions@[k], all[k]));
                    }
                    assert(tool_of(all[i as int]) is None);
                }
                return Err(CaptureError { message });
            },
        }
        i = i + 1;
    }
    Ok(definitions)
}

/// Reads a list of tools. An element describes a tool itself,
/// `{"name": ..., "parameters": ...}`, or under `function`.
pub fn parse_tools_json(tools_json: Option<&str>) -> (r: Result<
    Option<Vec<ToolDefinition>>,
    CaptureError,
>)
    ensures
        tools_json is None ==> r == Ok::<Option<Vec<ToolDefinition>>, CaptureError>(None),
        tools_json matches Some(raw) ==> match json::json_value_error(raw@) {
            Some(message) => r matches Err(e) && e.message@ == "invalid tools_json: "@ + message,
            None => match json::json_items(value_text(raw@)) {
                None => r matches Err(e) && e.message@ == "tools_json must be a JSON array"@,
                Some(items) => match r {
                    Ok(Some(definitions)) => are_definitions(Ok(definitions), items),
                    Ok(None) => false,
                    Err(e) => are_definitions(Err(e), items),
                },
            },
        },
{
    let raw: &str = match tools_json {
        Some(raw) => raw,
        None => {
            return Ok(None);
        },
    };
    if let Some(reason) = json::value_error(raw) {
        let mut message: String = "invalid tools_json: ".to_string();
        message.append(reason.as_str());
        return Err(CaptureError { message });
    }
    let list: String = read_value_text(raw);
    match json::read_items(list.as_str()) {
        None => Err(CaptureError { message: "tools_json must be a JSON array".to_string() }),
        Some(items) => match definitions_of(&items) {
            Ok(definitions) => Ok(Some(definitions)),
            Err(e) => Err(e),
        },
    }
}

/// A captured piece of model output.
#[derive(Clone, Debug, PartialEq, Eq)]
pub struct CaptureChunk {
    pub delta_text: String,
    pub finish_reason: Option<FinishReason>,
}

/// The chunk that stands for a captured piece: one choice of the assistant, with its text. The
/// role is on each chunk, since early chunks may be held back and the first that is let through
/// has to have one.
pub open spec fn is_capture_chunk(
    r: Annotated<NvCreateChatCompletionStreamResponse>,
    chunk: CaptureChunk,
) -> bool {
    &&& text::text_of(r.id) == Some("parser-stream-capture"@)
    &&& r.event is None
    &&& r.comment is None
    &&& r.error is None
    &&& r.data matches Some(data)
    &&& data.nvext is None
    &&& data.inner.id@ == "parser-stream-capture"@
    &&& data.inner.object@ == "chat.completion.chunk"@
    &&& data.inner.created == 1234567890
    &&& data.inner.model@ == "parser-stream-capture"@
    &&& data.inner.system_fingerprint is None
    &&& data.inner.service_tier is None
    &&& data.inner.usage is None
    &&& data.inner.choices@.len() == 1
    &&& {
        let choice = data.inner.choices@[0];
        &&& choice.index == 0
        &&& choice.finish_reason == chunk.finish_reason
        &&& choice.logprobs is None
        &&& choice.delta.role == Some(Role::Assistant)
        &&& choice.delta.content matches Some(content)
        &&& content_text(content) == chunk.delta_text@
        &&& content is Text
        &&& choice.delta.tool_calls is None
        &&& choice.delta.function_call is None
        &&& choice.delta.refusal is None
        &&& choice.delta.reasoning_content is None
    }
}

/// Makes a chunk of a captured piece.
pub fn make_stream_chunk(chunk: &CaptureChunk) -> (r: Annotated<
    NvCreateChatCompletionStreamResponse,
>)
    ensures
        is_capture_chunk(r, *chunk),
{
    let choice: ChatChoiceStream = ChatChoiceStream {
        index: 0,
        delta: ChatCompletionStreamResponseDelta {
            role: Some(Role::Assistant),
            content: Some(ChatCompletionMessageContent::Text(chunk.delta_text.clone())),
            tool_calls: None,
            function_call: None,
            refusal: None,
            reasoning_content: None,
        },
        finish_reason: chunk.finish_reason,
        logprobs: None,
    };
    let mut choices: Vec<ChatChoiceStream> = Vec::new();
    choices.push(choice);
    Annotated {
        id: Some("parser-stream-capture".to_string()),
        data: Some(
            NvCreateChatCompletionStreamResponse {
                inner: CreateChatCompletionStreamResponse {
                    id: "parser-stream-capture".to_string(),
                    choices,
                    created: 1234567890,
                    model: "parser-stream-capture".to_string(),
                    service_tier: None,
                    system_fingerprint: None,
                    object: "chat.completion.chunk".to_string(),
                    usage: None,
                },
                nvext: None,
            },
        ),
        event: None,
        comment: None,
        error: None,
    }
}

/// The function of a tool call.
#[derive(Clone, Debug, PartialEq, Eq)]
pub struct FunctionCall {
    pub name: String,
    pub arguments: String,
}

/// The message of a choice, once all chunks are in: its content and the functions it calls.
#[derive(Clone, Debug, PartialEq, Eq)]
pub struct ChatCompletionResponseMessage {
    pub content: Option<ChatCompletionMessageContent>,
    pub tool_calls: Option<Vec<FunctionCall>>,
}

/// The arguments of a captured call: JSON text, or text that is no JSON.
#[derive(Clone, Debug, PartialEq, Eq)]
pub enum CapturedArguments {
    Json(String),
    Text(String),
}

/// What [`CapturedArguments`] hold.
pub enum CapturedArgumentsView {
    Json(Seq<char>),
    Text(Seq<char>),
}

impl View for CapturedArguments {
    type V = CapturedArgumentsView;

    open spec fn view(&self) -> CapturedArgumentsView {
        match self {
            CapturedArguments::Json(s) => CapturedArgumentsView::Json(s@),
            CapturedArguments::Text(s) => CapturedArgumentsView::Text(s@),
        }
    }
}

/// A captured call.
#[derive(Clone, Debug, PartialEq, Eq)]
pub struct CaptureOutputCall {
    pub name: String,
    pub arguments: CapturedArguments,
}

/// What was captured of a response.
#[derive(Clone, Debug, PartialEq, Eq)]
pub struct CaptureOutput {
    pub calls: Vec<CaptureOutputCall>,
    pub normal_text: String,
}

/// The text of a message's content; parts have none.
pub open spec fn content_text(content: ChatCompletionMessageContent) -> Seq<char> {
    match content {
        ChatCompletionMessageContent::Text(text) => text@,
        ChatCompletionMessageContent::Parts => ""@,
    }
}

/// The text of a message's content.
pub fn get_text(content: &ChatCompletionMessageContent) -> (r: &str)
    ensures
        r@ == content_text(*content),
{
    match content {
        ChatCompletionMessageContent::Text(text) => text.as_str(),
        ChatCompletionMessageContent::Parts => "",
    }
}

/// The arguments that a text holds, given whether it is JSON. An empty text stands for an
/// empty object.
pub open spec fn arguments_of(arguments: Seq<char>, is_json: bool) -> CapturedArgumentsView {
    if arguments.len() == 0 {
        CapturedArgumentsView::Json("{}"@)
    } else if is_json {
        CapturedArgumentsView::Json(arguments)
    } else {
        CapturedArgumentsView::Text(arguments)
    }
}

/// The arguments that a text holds, given whether it is JSON.
pub fn sort_arguments(arguments: &str, is_json: bool) -> (r: CapturedArguments)
    ensures
        r@ == arguments_of(arguments@, is_json),
{
    if arguments.unicode_len() == 0 {
        CapturedArguments::Json("{}".to_string())
    } else if is_json {
        CapturedArguments::Json(arguments.to_string())
    } else {
        CapturedArguments::Text(arguments.to_string())
    }
}

/// Decodes the arguments of a call.
pub fn decode_arguments(arguments: &str) -> (r: CapturedArguments)
    ensures
        r@ == arguments_of(arguments@, json::json_value_error(arguments@) is None),
{
    sort_arguments(arguments, json::value_error(arguments).is_none())
}

/// The call is what was captured of the function.
pub open spec fn captures(call: CaptureOutputCall, function: FunctionCall) -> bool {
    &&& call.name@ == function.name@
    &&& call.arguments@ == arguments_of(
        function.arguments@,
        json::json_value_error(function.arguments@) is None,
    )
}

/// The functions that messages call, in order.
pub open spec fn all_calls(messages: Seq<ChatCompletionResponseMessage>) -> Seq<FunctionCall>
    decreases messages.len(),
{
    if messages.len() == 0 {
        seq![]
    } else {
        all_calls(messages.drop_last()) + match messages.last().tool_calls {
            Some(calls) => calls@,
            None => seq![],
        }
    }
}

/// The texts of messages, run together.
pub open spec fn all_text(messages: Seq<ChatCompletionResponseMessage>) -> Seq<char>
    decreases messages.len(),
{
    if messages.len() == 0 {
        seq![]
    } else {
        all_text(messages.drop_last()) + match messages.last().content {
            Some(content) => content_text(content),
            None => seq![],
        }
    }
}

/// Appends what was captured of functions.
fn capture_calls(calls: &mut Vec<CaptureOutputCall>, functions: &Vec<FunctionCall>)
    ensures
        final(calls)@.len() == old(calls)@.len() + functions@.len(),
        forall|k: int| 0 <= k < old(calls)@.len() ==> final(calls)@[k] == old(calls)@[k],
        forall|k: int|
            0 <= k < functions@.len() ==> captures(
                final(calls)@[old(calls)@.len() + k],
                #[trigger] functions@[k],
            ),
{
    let mut i: usize = 0;
    while i < functions.len()
        invariant
            i <= functions@.len(),
            calls@.len() == old(calls)@.len() + i,
            forall|k: int| 0 <= k < old(calls)@.len() ==> calls@[k] == old(calls)@[k],
            forall|k: int|
                0 <= k < i ==> captures(
                    calls@[old(calls)@.len() + k],
                    #[trigger] functions@[k],
                ),
        decreases functions.len() - i,
    {
        calls.push(
            CaptureOutputCall {
                name: functions[i].name.clone(),
                arguments: decode_arguments(functions[i].arguments.as_str()),
            },
        );
        i = i + 1;
    }
}

/// What is captured of a response: the calls of its choices, and their texts run together.
pub fn capture_output_from_response(messages: &Vec<ChatCompletionResponseMessage>) -> (r:
    CaptureOutput)
    ensures
        r.normal_text@ == all_text(messages@),
        r.calls@.len() == all_calls(messages@).len(),
        forall|k: int|
            0 <= k < r.calls@.len() ==> captures(#[trigger] r.calls@[k], all_calls(messages@)[k]),
{
    let mut normal_text: String = String::new();
    let mut calls: Vec<CaptureOutputCall> = Vec::new();
    let mut i: usize = 0;
    assert(normal_text@ =~= seq![]);
    while i < messages.len()
        invariant
            i <= messages@.len(),
            normal_text@ == all_text(messages@.take(i as int)),
            calls@.len() == all_calls(messages@.take(i as int)).len(),
            forall|k: int|
                0 <= k < calls@.len() ==> captures(
                    #[trigger] calls@[k],
                    all_calls(messages@.take(i as int))[k],
                ),
        decreases messages.len() - i,
    {
        let ghost upto = messages@.take(i as int);
        let ghost before = all_calls(upto);
        let ghost said = normal_text@;
        assert(messages@.take(i + 1).drop_last() =~= upto);
        if let Some(content) = &messages[i].content {
            normal_text.append(get_text(content));
        } else {
            assert(said + seq![] =~= said);
        }
        if let Some(functions) = &messages[i].tool_calls {
            let ghost had = calls@;
            capture_calls(&mut calls, functions);
            proof {
                let after = all_calls(messages@.take(i + 1));
                assert(after == before + functions@);
                assert forall|k: int| 0 <= k < calls@.len() implies captures(
                    #[trigger] calls@[k],
                    after[k],
                ) by {
                    if k < had.len() {
                        assert(calls@[k] == had[k]);
                    } else {
                        assert(functions@[k - had.len()] == after[k]);
                    }
                }
            }
        } else {
            assert(before + seq![] =~= before);
        }
        i = i + 1;
    }
    assert(messages@.take(messages@.len() as int) =~= messages@);
    CaptureOutput { calls, normal_text }
}

/// What a reasoning parser makes of a text.
#[derive(Clone, Debug, PartialEq, Eq)]
pub struct ParserResult {
    pub normal_text: String,
    pub reasoning_text: String,
}

/// The normal texts of results, run together.
pub open spec fn all_normal(results: Seq<ParserResult>) -> Seq<char>
    decreases results.len(),
{
    if results.len() == 0 {
        seq![]
    } else {
        all_normal(results.drop_last()) + results.last().normal_text@
    }
}

/// The reasoning texts of results, run together.
pub open spec fn all_reasoning(results: Seq<ParserResult>) -> Seq<char>
    decreases results.len(),
{
    if results.len() == 0 {
        seq![]
    } else {
        all_reasoning(results.drop_last()) + results.last().reasoning_text@
    }
}

/// The complaint about lists of different lengths.
pub open spec fn unaligned(token_chunks: nat, chunks: nat) -> Seq<char> {
    "token_chunks length ("@ + text::decimal(token_chunks) + ") must match chunks length ("@
        + text::decimal(chunks) + ")"@
}

/// Checks that the token chunks, where there are any, are as many as the text chunks.
pub fn check_token_chunks(chunks: &Vec<String>, token_chunks: &Option<Vec<Vec<u32>>>) -> (r: Result<
    (),
    CaptureError,
>)
    ensures
        r is Ok <==> (token_chunks matches Some(t) ==> t@.len() == chunks@.len()),
        r matches Err(e) ==> e.message@ == unaligned(
            token_chunks.unwrap()@.len(),
            chunks@.len(),
        ),
{
    let tokens: &Vec<Vec<u32>> = match token_chunks {
        Some(tokens) => tokens,
        None => {
            return Ok(());
        },
    };
    if tokens.len() == chunks.len() {
        return Ok(());
    }
    let mut message: String = "token_chunks length (".to_string();
    let given: String = text::decimal_text(tokens.len() as u64);
    message.append(given.as_str());
    message.append(") must match chunks length (");
    let wanted: String = text::decimal_text(chunks.len() as u64);
    message.append(wanted.as_str());
    message.append(")");
    Err(CaptureError { message })
}

/// The token identifiers that go with a chunk: those at its position, or none where there are no
/// token chunks.
pub fn tokens_of_chunk(token_chunks: &Option<Vec<Vec<u32>>>, i: usize) -> (r: &[u32])
    requires
        token_chunks matches Some(t) ==> i < t@.len(),
    ensures
        r@ == match token_chunks {
            Some(t) => t@[i as int]@,
            None => seq![],
        },
{
    match token_chunks {
        Some(t) => t[i].as_slice(),
        None => {
            let none: &[u32] = &[];
            assert(none@ =~= seq![]);
            none
        },
    }
}

/// Runs together what a reasoning parser made of the chunks of a stream and, in the end, of what
/// it had held back.
pub fn parse_reasoning_stream(results: &Vec<ParserResult>, held_back: &ParserResult) -> (r:
    ParserResult)
    ensures
        r.normal_text@ == all_normal(results@) + held_back.normal_text@,
        r.reasoning_text@ == all_reasoning(results@) + held_back.reasoning_text@,
{
    let mut normal_text: String = String::new();
    let mut reasoning_text: String = String::new();
    let mut i: usize = 0;
    assert(normal_text@ =~= seq![]);
    assert(reasoning_text@ =~= seq![]);
    while i < results.len()
        invariant
            i <= results@.len(),
            normal_text@ == all_normal(results@.take(i as int)),
            reasoning_text@ == all_reasoning(results@.take(i as int)),
        decreases results.len() - i,
    {
        assert(results@.take(i + 1).drop_last() =~= results@.take(i as int));
        normal_text.append(results[i].normal_text.as_str());
        reasoning_text.append(results[i].reasoning_text.as_str());
        i = i + 1;
    }
    assert(results@.take(results@.len() as int) =~= results@);
    normal_text.append(held_back.normal_text.as_str());
    reasoning_text.append(held_back.reasoning_text.as_str());
    ParserResult { normal_text, reasoning_text }
}

proof fn lemma_last_value(members: Seq<(Seq<char>, Seq<char>)>, name: Seq<char>)
    ensures
        last_value(members, name) matches Some(value) ==> exists|i: int|
            {
                &&& 0 <= i < members.len()
                &&& #[trigger] members[i] == (name, value)
                &&& forall|k: int| i < k < members.len() ==> (#[trigger] members[k]).0 != name
            },
        last_value(members, name) is None ==> forall|k: int|
            0 <= k < members.len() ==> (#[trigger] members[k]).0 != name,
    decreases members.len(),
{
    if members.len() > 0 {
        let rest = members.drop_last();
        let n = members.len() - 1;
        assert forall|k: int| 0 <= k < n implies rest[k] == #[trigger] members[k] by {
        }
        if members.last().0 == name {
            assert(members[n] == (name, members.last().1));
        } else {
            lemma_last_value(rest, name);
            if let Some(value) = last_value(rest, name) {
                let i = choose|i: int|
                    {
                        &&& 0 <= i < rest.len()
                        &&& #[trigger] rest[i] == (name, value)
                        &&& forall|k: int| i < k < rest.len() ==> (#[trigger] rest[k]).0 != name
                    };
                assert(members[i] == (name, value));
                assert forall|k: int| i < k < members.len() implies (#[trigger] members[k]).0
                    != name by {
                    if k < n {
                        assert(rest[k].0 != name);
                    }
                }
            }
        }
    }
}

/// Of several members with the same name, the last gives the value; a name that no member has
/// gives none.
pub proof fn law_last_member_counts(
    members: Seq<(Seq<char>, Seq<char>)>,
    i: int,
    name: Seq<char>,
)
    requires
        0 <= i < members.len(),
        members[i].0 == name,
        forall|k: int| i < k < members.len() ==> (#[trigger] members[k]).0 != name,
    ensures
        last_value(members, name) == Some(members[i].1),
{
    lemma_last_value(members, name);
    assert(members[i].0 == name);
}

/// A name that no member has gives no value.
pub proof fn law_missing_member_has_no_value(
    members: Seq<(Seq<char>, Seq<char>)>,
    name: Seq<char>,
)
    requires
        forall|k: int| 0 <= k < members.len() ==> (#[trigger] members[k]).0 != name,
    ensures
        last_value(members, name) is None,
{
    lemma_last_value(members, name);
}

/// A text that is no object with the raw-value key in front stands for itself.
pub proof fn law_plain_value_stands_for_itself(s: Seq<char>)
    requires
        json::object_members(s) matches Some(members) ==> members.len() == 0 || members[0].0
            != "$serde_json::private::RawValue"@,
    ensures
        value_text(s) == s,
{
}

/// An object with the raw-value key in front stands for the value that the string under the key
/// holds.
pub proof fn law_raw_value_stands_for_what_it_holds(
    s: Seq<char>,
    members: Seq<(Seq<char>, Seq<char>)>,
    held: Seq<char>,
)
    requires
        json::object_members(s) == Some(members),
        members.len() > 0,
        members[0].0 == "$serde_json::private::RawValue"@,
        json::json_string(members[0].1) == Some(held),
        held.len() < s.len(),
    ensures
        value_text(s) == value_text(held),
{
}

/// An element describes a tool by its own members where it has no member `function`: the name is
/// the string that its last member `name` holds, and the schema is its last member `parameters`,
/// as it is written, or missing where it has none.
pub proof fn law_flat_tool_is_its_members(
    item: Seq<char>,
    members: Seq<(Seq<char>, Seq<char>)>,
    i: int,
    name: Seq<char>,
)
    requires
        json::object_members(item) == Some(members),
        members.len() > 0 ==> members[0].0 != "$serde_json::private::RawValue"@,
        forall|k: int| 0 <= k < members.len() ==> (#[trigger] members[k]).0 != "function"@,
        0 <= i < members.len(),
        members[i].0 == "name"@,
        forall|k: int| i < k < members.len() ==> (#[trigger] members[k]).0 != "name"@,
        json::json_string(members[i].1) == Some(name),
        json::object_members(members[i].1) matches Some(ms) ==> ms.len() == 0 || ms[0].0
            != "$serde_json::private::RawValue"@,
    ensures
        tool_of(item) matches Some(tool) && tool.name == name && (forall|p: int|
            0 <= p < members.len() && (#[trigger] members[p]).0 == "parameters"@ && (forall|k: int|
                p < k < members.len() ==> (#[trigger] members[k]).0 != "parameters"@)
                ==> tool.parameters == Some(members[p].1)) && ((forall|k: int|
            0 <= k < members.len() ==> (#[trigger] members[k]).0 != "parameters"@)
            ==> tool.parameters is None),
{
    law_plain_value_stands_for_itself(item);
    law_missing_member_has_no_value(members, "function"@);
    law_last_member_counts(members, i, "name"@);
    law_plain_value_stands_for_itself(members[i].1);
    lemma_last_value(members, "parameters"@);
    let tool = tool_of(item).unwrap();
    assert forall|p: int|
        0 <= p < members.len() && (#[trigger] members[p]).0 == "parameters"@ && (forall|k: int|
            p < k < members.len() ==> (#[trigger] members[k]).0
                != "parameters"@) implies tool.parameters == Some(members[p].1) by {
        law_last_member_counts(members, p, "parameters"@);
    }
}

/// An element with a member `function` that is an object describes a tool by the members of that
/// object: both the name and the schema are those that stand there.
pub proof fn law_wrapped_tool_is_the_members_of_its_function(
    item: Seq<char>,
    outer: Seq<(Seq<char>, Seq<char>)>,
    f: int,
    members: Seq<(Seq<char>, Seq<char>)>,
    i: int,
    name: Seq<char>,
)
    requires
        json::object_members(item) == Some(outer),
        0 <= f < outer.len(),
        outer[0].0 != "$serde_json::private::RawValue"@,
        outer[f].0 == "function"@,
        forall|k: int| f < k < outer.len() ==> (#[trigger] outer[k]).0 != "function"@,
        json::object_members(outer[f].1) == Some(members),
        members.len() > 0 ==> members[0].0 != "$serde_json::private::RawValue"@,
        0 <= i < members.len(),
        members[i].0 == "name"@,
        forall|k: int| i < k < members.len() ==> (#[trigger] members[k]).0 != "name"@,
        json::json_string(members[i].1) == Some(name),
        json::object_members(members[i].1) matches Some(ms) ==> ms.len() == 0 || ms[0].0
            != "$serde_json::private::RawValue"@,
    ensures
        tool_of(item) matches Some(tool) && tool.name == name && (forall|p: int|
            0 <= p < members.len() && (#[trigger] members[p]).0 == "parameters"@ && (forall|k: int|
                p < k < members.len() ==> (#[trigger] members[k]).0 != "parameters"@)
                ==> tool.parameters == Some(members[p].1)) && ((forall|k: int|
            0 <= k < members.len() ==> (#[trigger] members[k]).0 != "parameters"@)
            ==> tool.parameters is None),
{
    law_plain_value_stands_for_itself(item);
    law_last_member_counts(outer, f, "function"@);
    law_plain_value_stands_for_itself(outer[f].1);
    law_last_member_counts(members, i, "name"@);
    law_plain_value_stands_for_itself(members[i].1);
    lemma_last_value(members, "parameters"@);
    let tool = tool_of(item).unwrap();
    assert forall|p: int|
        0 <= p < members.len() && (#[trigger] members[p]).0 == "parameters"@ && (forall|k: int|
            p < k < members.len() ==> (#[trigger] members[k]).0
                != "parameters"@) implies tool.parameters == Some(members[p].1) by {
        law_last_member_counts(members, p, "parameters"@);
    }
}

/// A tool gives the same definition in the flat form and wrapped under `function`.
pub proof fn law_wrapped_tool_is_the_flat_one(
    item: Seq<char>,
    outer: Seq<(Seq<char>, Seq<char>)>,
    f: int,
)
    requires
        json::object_members(item) == Some(outer),
        0 <= f < outer.len(),
        outer[0].0 != "$serde_json::private::RawValue"@,
        outer[f].0 == "function"@,
        forall|k: int| f < k < outer.len() ==> (#[trigger] outer[k]).0 != "function"@,
        json::object_members(outer[f].1) matches Some(members) ==> (members.len() > 0
            ==> members[0].0 != "$serde_json::private::RawValue"@) && forall|k: int|
            0 <= k < members.len() ==> (#[trigger] members[k]).0 != "function"@,
    ensures
        tool_of(item) == tool_of(outer[f].1),
{
    law_plain_value_stands_for_itself(item);
    law_last_member_counts(outer, f, "function"@);
    law_plain_value_stands_for_itself(outer[f].1);
    if let Some(members) = json::object_members(outer[f].1) {
        law_missing_member_has_no_value(members, "function"@);
    }
}

/// An element that has no member `function` and no member `name`, or that is no object, names no
/// tool; nor does one whose name is no string.
pub proof fn law_unnamed_element_is_no_tool(item: Seq<char>)
    requires
        json::object_members(item) matches Some(members) ==> {
            &&& members.len() > 0 ==> members[0].0 != "$serde_json::private::RawValue"@
            &&& forall|k: int| 0 <= k < members.len() ==> (#[trigger] members[k]).0 != "function"@
            &&& forall|k: int|
                0 <= k < members.len() && (#[trigger] members[k]).0 == "name"@
                    ==> json::json_string(members[k].1) is None && json::object_members(
                    members[k].1,
                ) is None
        },
    ensures
        tool_of(item) is None,
{
    law_plain_value_stands_for_itself(item);
    if let Some(members) = json::object_members(item) {
        law_missing_member_has_no_value(members, "function"@);
        lemma_last_value(members, "name"@);
        if let Some(raw) = last_value(members, "name"@) {
            let i = choose|i: int|
                0 <= i < members.len() && #[trigger] members[i] == ("name"@, raw);
            assert(members[i].0 == "name"@);
            law_plain_value_stands_for_itself(raw);
        }
    }
}

/// The definitions that a list of elements gives are as many as the elements and in their order;
/// each has the name and the schema of the tool that its element describes.
pub proof fn law_definitions_are_in_the_order_of_the_elements(
    definitions: Vec<ToolDefinition>,
    items: Seq<Seq<char>>,
)
    requires
        are_definitions(Ok(definitions), items),
    ensures
        definitions@.len() == items.len(),
        forall|i: int|
            0 <= i < items.len() ==> {
                &&& tool_of(items[i]) is Some
                &&& (#[trigger] definitions@[i]).name@ == tool_of(items[i]).unwrap().name
                &&& definitions@[i].parameters is Some <==> tool_of(items[i]).unwrap().parameters
                    is Some
                &&& definitions@[i].parameters matches Some(p) ==> tool_of(
                    items[i],
                ).unwrap().parameters == Some(p@)
                &&& definitions@[i].strict is None
            },
{
    assert forall|i: int| 0 <= i < items.len() implies tool_of(items[i]) is Some && (
    #[trigger] definitions@[i]).name@ == tool_of(items[i]).unwrap().name by {
        assert(defines(definitions@[i], items[i]));
    }
    assert forall|i: int| 0 <= i < items.len() implies defines(
        #[trigger] definitions@[i],
        items[i],
    ) by {
    }
}

/// A list fails only over an element that names no tool, and the complaint gives the position of
/// the first.
pub proof fn law_complaint_is_about_the_first_unnamed_element(
    e: CaptureError,
    items: Seq<Seq<char>>,
    i: int,
)
    requires
        are_definitions(Err(e), items),
        0 <= i < items.len(),
        tool_of(items[i]) is None,
        forall|k: int| 0 <= k < i ==> tool_of(#[trigger] items[k]) is Some,
    ensures
        e.message@ == "tools_json["@ + text::decimal(i as nat)
            + "] requires a string `name` field (or `function.name`)"@,
{
    let k = choose|k: int|
        {
            &&& 0 <= k < items.len()
            &&& tool_of(#[trigger] items[k]) is None
            &&& e.message@ == unnamed_tool(k as nat)
            &&& forall|j: int| 0 <= j < k ==> tool_of(#[trigger] items[j]) is Some
        };
    if k < i {
        assert(tool_of(items[k]) is Some);
    }
    if i < k {
        assert(tool_of(items[i]) is Some);
    }
}

/// The chunk of a captured piece carries the text of the piece as it is, in one choice of the
/// assistant, and ends for the reason of the piece.
pub proof fn law_capture_chunk_carries_the_piece(
    r: Annotated<NvCreateChatCompletionStreamResponse>,
    chunk: CaptureChunk,
)
    requires
        is_capture_chunk(r, chunk),
    ensures
        r.data matches Some(data) && data.inner.choices@.len() == 1 && data.inner.choices@[0].index
            == 0 && data.inner.choices@[0].finish_reason == chunk.finish_reason
            && data.inner.choices@[0].delta.role == Some(Role::Assistant)
            && data.inner.choices@[0].delta.tool_calls is None && (
        data.inner.choices@[0].delta.content matches Some(ChatCompletionMessageContent::Text(t))
            && t@ == chunk.delta_text@) && data.nvext is None,
        r.error is None,
{
}

/// The arguments of a captured call are kept as they are written: as JSON where they are JSON, as
/// text where they are not. No arguments stand for an empty object.
pub proof fn law_captured_arguments_are_kept(arguments: Seq<char>, is_json: bool)
    ensures
        arguments.len() > 0 && is_json ==> arguments_of(arguments, is_json)
            == CapturedArgumentsView::Json(arguments),
        arguments.len() > 0 && !is_json ==> arguments_of(arguments, is_json)
            == CapturedArgumentsView::Text(arguments),
        arguments.len() == 0 ==> (arguments_of(arguments, is_json) matches CapturedArgumentsView::Json(
            s,
        ) && s =~= seq!['{', '}']),
{
    reveal_strlit("{}");
}

/// A captured call has the name of the function that was called, and its arguments as they were
/// written, except that no arguments stand for an empty object.
pub proof fn law_captured_call_is_the_function(call: CaptureOutputCall, function: FunctionCall)
    requires
        captures(call, function),
    ensures
        call.name@ == function.name@,
        function.arguments@.len() > 0 ==> match call.arguments {
            CapturedArguments::Json(s) => s@ == function.arguments@ && json::json_value_error(
                function.arguments@,
            ) is None,
            CapturedArguments::Text(s) => s@ == function.arguments@ && json::json_value_error(
                function.arguments@,
            ) is Some,
        },
{
}

/// The calls and the text of messages run together in the order of the messages: those of two
/// lists are those of the first and then those of the second. Those of one message are its own,
/// and a message without content says nothing.
pub proof fn law_messages_run_together(
    a: Seq<ChatCompletionResponseMessage>,
    b: Seq<ChatCompletionResponseMessage>,
    message: ChatCompletionResponseMessage,
)
    ensures
        all_calls(a + b) == all_calls(a) + all_calls(b),
        all_text(a + b) == all_text(a) + all_text(b),
        message.tool_calls matches Some(calls) ==> all_calls(seq![message]) == calls@,
        message.tool_calls is None ==> all_calls(seq![message]).len() == 0,
        message.content matches Some(ChatCompletionMessageContent::Text(t)) ==> all_text(
            seq![message],
        ) == t@,
        !(message.content matches Some(ChatCompletionMessageContent::Text(_))) ==> all_text(
            seq![message],
        ).len() == 0,
    decreases b.len(),
{
    reveal_strlit("");
    assert(seq![message].drop_last() =~= Seq::empty());
    assert(all_calls(seq![message].drop_last()) =~= seq![]);
    assert(all_text(seq![message].drop_last()) =~= seq![]);
    if let Some(calls) = message.tool_calls {
        assert(all_calls(seq![message]) =~= calls@);
    }
    if let Some(ChatCompletionMessageContent::Text(t)) = message.content {
        assert(all_text(seq![message]) =~= t@);
    }
    if b.len() == 0 {
        assert(a + b =~= a);
        assert(all_calls(a + b) =~= all_calls(a) + all_calls(b));
        assert(all_text(a + b) =~= all_text(a) + all_text(b));
    } else {
        law_messages_run_together(a, b.drop_last(), message);
        assert((a + b).drop_last() =~= a + b.drop_last());
        assert(all_calls(a + b) =~= all_calls(a) + all_calls(b));
        assert(all_text(a + b) =~= all_text(a) + all_text(b));
    }
}

/// What a reasoning parser makes of chunks runs together in the order of the chunks, normal text
/// and reasoning each for itself.
pub proof fn law_results_run_together(
    a: Seq<ParserResult>,
    b: Seq<ParserResult>,
    result: ParserResult,
)
    ensures
        all_normal(a + b) == all_normal(a) + all_normal(b),
        all_reasoning(a + b) == all_reasoning(a) + all_reasoning(b),
        all_normal(seq![result]) == result.normal_text@,
        all_reasoning(seq![result]) == result.reasoning_text@,
    decreases b.len(),
{
    assert(seq![result].drop_last() =~= Seq::empty());
    assert(all_normal(seq![result].drop_last()) =~= seq![]);
    assert(all_reasoning(seq![result].drop_last()) =~= seq![]);
    assert(all_normal(seq![result]) =~= result.normal_text@);
    assert(all_reasoning(seq![result]) =~= result.reasoning_text@);
    if b.len() == 0 {
        assert(a + b =~= a);
        assert(all_normal(a + b) =~= all_normal(a) + all_normal(b));
        assert(all_reasoning(a + b) =~= all_reasoning(a) + all_reasoning(b));
    } else {
        law_results_run_together(a, b.drop_last(), result);
        assert((a + b).drop_last() =~= a + b.drop_last());
        assert(all_normal(a + b) =~= all_normal(a) + all_normal(b));
        assert(all_reasoning(a + b) =~= all_reasoning(a) + all_reasoning(b));
    }
}

/// The complaint about lists of different lengths gives both lengths, and the text of a content
/// is its text as it is; parts have none.
pub proof fn law_complaint_gives_both_lengths(
    token_chunks: nat,
    chunks: nat,
    content: ChatCompletionMessageContent,
)
    ensures
        unaligned(token_chunks, chunks) == "token_chunks length ("@ + text::decimal(token_chunks)
            + ") must match chunks length ("@ + text::decimal(chunks) + ")"@,
        content matches ChatCompletionMessageContent::Text(t) ==> content_text(content) == t@,
        content is Parts ==> content_text(content).len() == 0,
{
    reveal_strlit("");
}

} // verus!
