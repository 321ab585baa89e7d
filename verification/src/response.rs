//! The tool calls that a parser hands out, and the tools it may be told of.

use uuid::Uuid;
use vstd::prelude::*;

verus! {

/// The kind of a tool call.
#[derive(Clone, Copy, Debug, PartialEq, Eq, Structural)]
pub enum ToolCallType {
    Function,
}

/// The function that a tool call names, with its arguments as JSON text.
#[derive(Clone, Debug, PartialEq, Eq)]
pub struct CalledFunction {
    pub name: String,
    pub arguments: String,
}

/// A tool call found in the output of a model.
#[derive(Clone, Debug, PartialEq, Eq)]
pub struct ToolCallResponse {
    pub id: String,
    pub tp: ToolCallType,
    pub function: CalledFunction,
}

/// A tool that the model was offered; `parameters` is the JSON text of its schema.
#[derive(Clone, Debug, PartialEq, Eq)]
pub struct ToolDefinition {
    pub name: String,
    pub parameters: Option<String>,
    pub strict: Option<bool>,
}

/// What a tool call asks for: the name of a function and the text of its arguments.
pub struct CallText {
    pub name: Seq<char>,
    pub arguments: Seq<char>,
}

/// A lower-case hexadecimal digit.
pub open spec fn is_lower_hex(c: char) -> bool {
    ('0' <= c && c <= '9') || ('a' <= c && c <= 'f')
}

/// The hyphenated text of a random UUID: groups of 8, 4, 4, 4 and 12 hexadecimal digits,
/// the third group beginning with the version and the fourth with the variant.
pub open spec fn is_random_uuid(s: Seq<char>) -> bool {
    &&& s.len() == 36
    &&& forall|k: int|
        0 <= k < 36 ==> if k == 8 || k == 13 || k == 18 || k == 23 {
            #[trigger] s[k] == '-'
        } else {
            is_lower_hex(s[k])
        }
    &&& s[14] == '4'
    &&& s[19] == '8' || s[19] == '9' || s[19] == 'a' || s[19] == 'b'
}

/// The identifier of a call: `call-` and a random UUID.
pub open spec fn is_call_id(s: Seq<char>) -> bool {
    exists|u: Seq<char>| is_random_uuid(u) && s == "call-"@ + u
}

/// Calls `Uuid::new_v4` and formats what it returns. Claimed of it: the text is that of
/// some random UUID. Which one is left to chance, and nothing says that two calls differ;
/// where the operating system has no random bytes to give, the call panics.
#[verifier::external_body]
fn random_uuid() -> (r: String)
    ensures
        is_random_uuid(r@),
{
    Uuid::new_v4().to_string()
}

impl ToolCallResponse {
    /// What the call asks for.
    pub open spec fn asks(&self) -> CallText {
        CallText { name: self.function.name@, arguments: self.function.arguments@ }
    }

    /// A call with the given UUID text in its identifier.
    pub fn with_uuid(uuid: &str, name: String, arguments: String) -> (r: ToolCallResponse)
        ensures
            r.id@ == "call-"@ + uuid@,
            r.tp == ToolCallType::Function,
            r.function.name == name,
            r.function.arguments == arguments,
    {
        let mut id: String = "call-".to_string();
        id.append(uuid);
        ToolCallResponse {
            id,
            tp: ToolCallType::Function,
            function: CalledFunction { name, arguments },
        }
    }

    /// A call with a fresh identifier.
    pub fn fresh(name: String, arguments: String) -> (r: ToolCallResponse)
        ensures
            is_call_id(r.id@),
            r.tp == ToolCallType::Function,
            r.function.name == name,
            r.function.arguments == arguments,
    {
        let uuid: String = random_uuid();
        let r: ToolCallResponse = ToolCallResponse::with_uuid(uuid.as_str(), name, arguments);
        assert(is_random_uuid(uuid@) && r.id@ == "call-"@ + uuid@);
        r
    }
}

/// The calls ask, in order, for what `expected` lists, and each has an identifier.
pub open spec fn calls_ask(calls: Seq<ToolCallResponse>, expected: Seq<CallText>) -> bool {
    &&& calls.len() == expected.len()
    &&& forall|i: int|
        0 <= i < calls.len() ==> {
            &&& (#[trigger] calls[i]).asks() == expected[i]
            &&& calls[i].tp == ToolCallType::Function
            &&& is_call_id(calls[i].id@)
        }
}

/// Calls that ask for what a list says are as many as the list says, and each has, character for
/// character, the name and the arguments that stand at its place in the list, and an identifier
/// of its own that begins with `call-`.
pub proof fn law_calls_have_the_names_and_arguments_asked_for(
    calls: Seq<ToolCallResponse>,
    expected: Seq<CallText>,
)
    requires
        calls_ask(calls, expected),
    ensures
        calls.len() == expected.len(),
        forall|i: int|
            0 <= i < calls.len() ==> {
                &&& (#[trigger] calls[i]).function.name@ == expected[i].name
                &&& calls[i].function.arguments@ == expected[i].arguments
                &&& calls[i].tp == ToolCallType::Function
                &&& calls[i].id@.len() == 41
                &&& calls[i].id@.take(5) == seq!['c', 'a', 'l', 'l', '-']
                &&& calls[i].id@[19] == '4'
            },
{
    reveal_strlit("call-");
    assert forall|i: int| 0 <= i < calls.len() implies {
        &&& (#[trigger] calls[i]).function.name@ == expected[i].name
        &&& calls[i].function.arguments@ == expected[i].arguments
        &&& calls[i].tp == ToolCallType::Function
        &&& calls[i].id@.len() == 41
        &&& calls[i].id@.take(5) == seq!['c', 'a', 'l', 'l', '-']
        &&& calls[i].id@[19] == '4'
    } by {
        assert(calls[i].asks() == expected[i]);
        let u = choose|u: Seq<char>| is_random_uuid(u) && calls[i].id@ == "call-"@ + u;
        assert(calls[i].id@.take(5) =~= seq!['c', 'a', 'l', 'l', '-']);
        assert(calls[i].id@[19] == u[14]);
    }
}

} // verus!
