//! Tool calls written as JSON: an object that names a function and gives its arguments, or
//! an array of such objects.

use vstd::prelude::*;

use crate::json;
use crate::json::Member;
use crate::response;
use crate::response::{CallText, ToolCallResponse};
use crate::text;

verus! {

/// A called function whose arguments stand under `parameters`. The arguments keep the text
/// they were written with: the order of their keys, their white space and the form of
/// their numbers.
#[derive(Clone, Debug, PartialEq, Eq)]
pub struct CalledFunctionParameters {
    pub name: String,
    pub parameters: String,
}

/// A called function whose arguments stand under `arguments`, kept as they were written.
#[derive(Clone, Debug, PartialEq, Eq)]
pub struct CalledFunctionArguments {
    pub name: String,
    pub arguments: String,
}

/// The values of the members with the given name, in order.
pub open spec fn values_named(
    members: Seq<(Seq<char>, Seq<char>)>,
    name: Seq<char>,
) -> Seq<Seq<char>>
    decreases members.len(),
{
    if members.len() == 0 {
        seq![]
    } else if members.last().0 == name {
        values_named(members.drop_last(), name).push(members.last().1)
    } else {
        values_named(members.drop_last(), name)
    }
}

/// The value of the one member with the given name; `None` where there is none or more than
/// one.
pub open spec fn sole_value(
    members: Seq<(Seq<char>, Seq<char>)>,
    name: Seq<char>,
) -> Option<Seq<char>> {
    let values = values_named(members, name);
    if values.len() == 1 {
        Some(values[0])
    } else {
        None
    }
}

/// The call that an object makes whose arguments stand under `field`: both the name and
/// the arguments are given once, and the name is a string. Other members are ignored.
pub open spec fn call_in(
    members: Seq<(Seq<char>, Seq<char>)>,
    field: Seq<char>,
) -> Option<CallText> {
    match (sole_value(members, "name"@), sole_value(members, field)) {
        (Some(raw_name), Some(arguments)) => match json::json_string(raw_name) {
            Some(name) => Some(CallText { name, arguments }),
            None => None,
        },
        _ => None,
    }
}

/// The call that a JSON text makes with its arguments under `field`. The two parts may also
/// stand in an array of two elements.
pub open spec fn called_with(s: Seq<char>, field: Seq<char>) -> Option<CallText> {
    match json::json_pair(s) {
        Some(p) => Some(CallText { name: p.0, arguments: p.1 }),
        None => match json::object_members(s) {
            Some(members) => call_in(members, field),
            None => None,
        },
    }
}

/// The call that a JSON text makes: its arguments stand under `arguments` or, failing that,
/// under `parameters`.
pub open spec fn called(s: Seq<char>) -> Option<CallText> {
    match called_with(s, "arguments"@) {
        Some(call) => Some(call),
        None => called_with(s, "parameters"@),
    }
}

/// The calls that the texts of a list make; a text that makes none is passed over.
pub open spec fn item_calls(items: Seq<Seq<char>>) -> Seq<CallText>
    decreases items.len(),
{
    if items.len() == 0 {
        seq![]
    } else {
        match called(items.last()) {
            Some(call) => item_calls(items.drop_last()).push(call),
            None => item_calls(items.drop_last()),
        }
    }
}

/// The calls that a payload makes: those of the elements of an array, or the one of a single
/// text. `None` where the payload is neither an array nor a call.
pub open spec fn recognized_calls(payload: Seq<char>) -> Option<Seq<CallText>> {
    match json::json_items(payload) {
        Some(items) => Some(item_calls(items)),
        None => match called(payload) {
            Some(call) => Some(seq![call]),
            None => None,
        },
    }
}

/// The first character past white space is an opening brace or bracket.
pub open spec fn opens_json(s: Seq<char>) -> bool {
    json::opens_with(s, '{') || json::opens_with(s, '[')
}

/// The value of the one member with the given name.
pub fn sole_member(members: &Vec<Member>, name: &str) -> (r: Option<String>)
    ensures
        r matches Some(value) ==> sole_value(json::member_texts(members@), name@) == Some(value@),
        r is None ==> sole_value(json::member_texts(members@), name@) is None,
        r matches Some(value) ==> exists|i: int|
            0 <= i < members@.len() && (#[trigger] members@[i]).1@ == value@,
{
    let mut found: Vec<String> = Vec::new();
    let mut i: usize = 0;
    let ghost all = json::member_texts(members@);
    while i < members.len()
        invariant
            i <= members@.len(),
            all == json::member_texts(members@),
            text::texts(found@) == values_named(all.take(i as int), name@),
            forall|k: int|
                0 <= k < found@.len() ==> exists|j: int|
                    0 <= j < members@.len() && (#[trigger] members@[j]).1@ == (
                    #[trigger] found@[k])@,
        decreases members.len() - i,
    {
        let ghost before = found@;
        assert(all.take(i + 1).drop_last() =~= all.take(i as int));
        assert(all.take(i + 1).last() == (members@[i as int].0@, members@[i as int].1@));
        if text::same_text(members[i].0.as_str(), name) {
            found.push(members[i].1.clone());
            assert(text::texts(found@) =~= text::texts(before).push(members@[i as int].1@));
            assert forall|k: int| 0 <= k < found@.len() implies exists|j: int|
                0 <= j < members@.len() && (#[trigger] members@[j]).1@ == (
                #[trigger] found@[k])@ by {
                if k < before.len() {
                    assert(found@[k] == before[k]);
                } else {
                    assert(members@[i as int].1@ == found@[k]@);
                }
            }
        }
        i = i + 1;
    }
    assert(all.take(all.len() as int) =~= all);
    if found.len() == 1 {
        assert(text::texts(found@)[0] == found@[0]@);
        Some(found[0].clone())
    } else {
        None
    }
}

/// Reads the name and the value of `field` of the call that a JSON text makes.
fn read_call(s: &str, field: &str) -> (r: Option<(String, String)>)
    ensures
        r matches Some(p) ==> called_with(s@, field@) == Some(
            CallText { name: p.0@, arguments: p.1@ },
        ),
        r is None ==> called_with(s@, field@) is None,
        r matches Some(p) ==> text::contains_text(s@, p.1@),
        r is Some ==> opens_json(s@),
        json::opens_with(s@, '{') ==> json::json_pair(s@) is None,
{
    if let Some(pair) = json::read_pair(s) {
        return Some(pair);
    }
    let members: Vec<Member> = match json::read_members(s) {
        Some(members) => members,
        None => {
            return None;
        },
    };
    match (sole_member(&members, "name"), sole_member(&members, field)) {
        (Some(raw_name), Some(value)) => match json::read_string(raw_name.as_str()) {
            Some(name) => Some((name, value)),
            None => None,
        },
        _ => None,
    }
}

impl CalledFunctionArguments {
    /// Reads a call whose arguments stand under `arguments`.
    pub fn read(s: &str) -> (r: Option<Self>)
        ensures
            r matches Some(c) ==> called_with(s@, "arguments"@) == Some(
                CallText { name: c.name@, arguments: c.arguments@ },
            ),
            r is None ==> called_with(s@, "arguments"@) is None,
            r matches Some(c) ==> text::contains_text(s@, c.arguments@),
            r is Some ==> opens_json(s@),
            json::opens_with(s@, '{') ==> json::json_pair(s@) is None,
    {
        match read_call(s, "arguments") {
            Some((name, arguments)) => Some(CalledFunctionArguments { name, arguments }),
            None => None,
        }
    }
}

impl CalledFunctionParameters {
    /// Reads a call whose arguments stand under `parameters`.
    pub fn read(s: &str) -> (r: Option<Self>)
        ensures
            r matches Some(c) ==> called_with(s@, "parameters"@) == Some(
                CallText { name: c.name@, arguments: c.parameters@ },
            ),
            r is None ==> called_with(s@, "parameters"@) is None,
            r matches Some(c) ==> text::contains_text(s@, c.parameters@),
            r is Some ==> opens_json(s@),
    {
        match read_call(s, "parameters") {
            Some((name, parameters)) => Some(CalledFunctionParameters { name, parameters }),
            None => None,
        }
    }
}

/// The arguments of each call stand, as they are, in one of the texts.
pub open spec fn arguments_stand(calls: Seq<ToolCallResponse>, values: Seq<Seq<char>>) -> bool {
    forall|i: int|
        0 <= i < calls.len() ==> text::stands_in_one(
            values,
            (#[trigger] calls[i]).function.arguments@,
        )
}

/// Whether a JSON text makes a call.
pub fn makes_call(s: &str) -> (r: bool)
    ensures
        r == (called(s@) is Some),
{
    CalledFunctionArguments::read(s).is_some() || CalledFunctionParameters::read(s).is_some()
}

/// Reads the call that a JSON text makes and gives it an identifier.
pub fn read_any_call(s: &str) -> (r: Option<ToolCallResponse>)
    ensures
        r matches Some(call) ==> called(s@) == Some(call.asks()) && call.tp
            == response::ToolCallType::Function && response::is_call_id(call.id@),
        r is None ==> called(s@) is None,
        r matches Some(call) ==> text::contains_text(s@, call.function.arguments@),
        r is Some ==> opens_json(s@),
        json::opens_with(s@, '{') ==> json::json_pair(s@) is None,
{
    if let Some(c) = CalledFunctionArguments::read(s) {
        return Some(ToolCallResponse::fresh(c.name, c.arguments));
    }
    if let Some(c) = CalledFunctionParameters::read(s) {
        return Some(ToolCallResponse::fresh(c.name, c.parameters));
    }
    None
}

/// Parses a payload into tool calls: an array of calls, or a single call. Each is tried
/// with its arguments under `arguments`, then under `parameters`. An array is recognized
/// whatever its elements are, and may yield no call; an element that is no call is passed
/// over. The arguments of a call stand in the payload as they are. The texts of JSON values,
/// separated by commas between brackets, make the calls that the values make. An object whose one
/// member `name` is a string, and whose arguments stand under one member, makes one call, with
/// exactly the characters of that string for its name and exactly the text of that member for
/// its arguments.
pub fn parse_calls(payload: &str) -> (r: Option<Vec<ToolCallResponse>>)
    ensures
        r matches Some(calls) ==> recognized_calls(payload@) is Some && response::calls_ask(
            calls@,
            recognized_calls(payload@).unwrap(),
        ),
        r is None ==> recognized_calls(payload@) is None,
        r matches Some(calls) ==> forall|i: int|
            0 <= i < calls@.len() ==> text::contains_text(
                payload@,
                (#[trigger] calls@[i]).function.arguments@,
            ),
        r is Some ==> opens_json(payload@),
        forall|values: Seq<Seq<char>>|
            json::all_raw(values) && payload@ == #[trigger] text::bracketed(values)
                ==> recognized_calls(payload@) == Some(item_calls(values)),
        r matches Some(calls) ==> forall|values: Seq<Seq<char>>|
            json::all_raw(values) && payload@ == #[trigger] text::bracketed(values)
                ==> arguments_stand(calls@, values),
        json::opens_with(payload@, '{') ==> json::json_items(payload@) is None && json::json_pair(
            payload@,
        ) is None,
        json::opens_with(payload@, '{') && json::object_members(payload@) is Some ==> forall|
            i: int,
            j: int,
        |
            #![trigger json::object_members(payload@).unwrap()[i], json::object_members(
                payload@,
            ).unwrap()[j]]
            stands_once(json::object_members(payload@).unwrap(), i, "name"@) && json::json_string(
                json::object_members(payload@).unwrap()[i].1,
            ) is Some && holds_arguments(json::object_members(payload@).unwrap(), j) ==> {
                &&& r matches Some(calls)
                &&& calls@.len() == 1
                &&& calls@[0].function.name@ == json::json_string(
                    json::object_members(payload@).unwrap()[i].1,
                ).unwrap()
                &&& calls@[0].function.arguments@ == json::object_members(payload@).unwrap()[j].1
            },
{
    proof {
        if json::object_members(payload@) is Some && json::json_items(payload@) is None
            && json::json_pair(payload@) is None {
            let members = json::object_members(payload@).unwrap();
            assert forall|i: int, j: int|
                #![trigger members[i], members[j]]
                stands_once(members, i, "name"@) && json::json_string(members[i].1) is Some
                    && holds_arguments(members, j) implies called(payload@) == Some(
                CallText {
                    name: json::json_string(members[i].1).unwrap(),
                    arguments: members[j].1,
                },
            ) by {
                law_object_makes_the_call_it_names(
                    payload@,
                    members,
                    i,
                    j,
                    json::json_string(members[i].1).unwrap(),
                );
            }
        }
    }
    let mut calls: Vec<ToolCallResponse> = Vec::new();
    if let Some(items) = json::read_items(payload) {
        let ghost all = text::texts(items@);
        let mut i: usize = 0;
        while i < items.len()
            invariant
                i <= items@.len(),
                all == text::texts(items@),
                response::calls_ask(calls@, item_calls(all.take(i as int))),
                forall|k: int|
                    0 <= k < items@.len() ==> text::contains_text(
                        payload@,
                        (#[trigger] items@[k])@,
                    ),
                forall|k: int|
                    0 <= k < calls@.len() ==> text::contains_text(
                        payload@,
                        (#[trigger] calls@[k]).function.arguments@,
                    ),
                arguments_stand(calls@, all),
            decreases items.len() - i,
        {
            assert(all.take(i + 1).drop_last() =~= all.take(i as int));
            assert(all.take(i + 1).last() == items@[i as int]@);
            if let Some(call) = read_any_call(items[i].as_str()) {
                proof {
                    let item = items@[i as int]@;
                    text::lemma_contains_transitive(payload@, item, call.function.arguments@);
                    assert(all[i as int] == item);
                    assert(text::stands_in_one(all, call.function.arguments@));
                }
                calls.push(call);
            }
            i = i + 1;
        }
        assert(all.take(all.len() as int) =~= all);
        return Some(calls);
    }
    match read_any_call(payload) {
        Some(call) => {
            calls.push(call);
            Some(calls)
        },
        None => None,
    }
}

/// The member at the position has the name, and no other member has it.
pub open spec fn stands_once(
    members: Seq<(Seq<char>, Seq<char>)>,
    i: int,
    name: Seq<char>,
) -> bool {
    &&& 0 <= i < members.len()
    &&& members[i].0 == name
    &&& forall|k: int| 0 <= k < members.len() && k != i ==> (#[trigger] members[k]).0 != name
}

/// The member at the position holds the arguments of a call: it is the one that is named
/// `arguments` or, where not exactly one is, the one that is named `parameters`.
pub open spec fn holds_arguments(members: Seq<(Seq<char>, Seq<char>)>, j: int) -> bool {
    ||| stands_once(members, j, "arguments"@)
    ||| (forall|k: int| !#[trigger] stands_once(members, k, "arguments"@)) && stands_once(
        members,
        j,
        "parameters"@,
    )
}

/// No member has the name.
pub open spec fn stands_nowhere(members: Seq<(Seq<char>, Seq<char>)>, name: Seq<char>) -> bool {
    forall|k: int| 0 <= k < members.len() ==> (#[trigger] members[k]).0 != name
}

proof fn lemma_no_values_named(members: Seq<(Seq<char>, Seq<char>)>, name: Seq<char>)
    requires
        stands_nowhere(members, name),
    ensures
        values_named(members, name) == Seq::<Seq<char>>::empty(),
    decreases members.len(),
{
    if members.len() > 0 {
        let rest = members.drop_last();
        assert(members[members.len() - 1].0 != name);
        assert forall|k: int| 0 <= k < rest.len() implies (#[trigger] rest[k]).0 != name by {
            assert(rest[k] == members[k]);
        }
        lemma_no_values_named(rest, name);
    }
}

proof fn lemma_one_value_named(members: Seq<(Seq<char>, Seq<char>)>, i: int, name: Seq<char>)
    requires
        stands_once(members, i, name),
    ensures
        values_named(members, name) == seq![members[i].1],
    decreases members.len(),
{
    let rest = members.drop_last();
    let n = members.len() - 1;
    assert forall|k: int| 0 <= k < n implies rest[k] == #[trigger] members[k] by {
    }
    if i == n {
        assert forall|k: int| 0 <= k < rest.len() implies (#[trigger] rest[k]).0 != name by {
            assert(members[k].0 != name);
        }
        lemma_no_values_named(rest, name);
        assert(values_named(members, name) =~= seq![members[i].1]);
    } else {
        assert(members[n].0 != name);
        assert forall|k: int| 0 <= k < rest.len() && k != i implies (#[trigger] rest[k]).0
            != name by {
            assert(members[k].0 != name);
        }
        lemma_one_value_named(rest, i, name);
    }
}

proof fn lemma_many_values_named(
    members: Seq<(Seq<char>, Seq<char>)>,
    i: int,
    j: int,
    name: Seq<char>,
)
    requires
        0 <= i < j < members.len(),
        members[i].0 == name,
        members[j].0 == name,
    ensures
        values_named(members, name).len() >= 2,
    decreases members.len(),
{
    let rest = members.drop_last();
    assert(rest[i] == members[i]);
    if j == members.len() - 1 {
        lemma_some_values_named(rest, i, name);
    } else {
        assert(rest[j] == members[j]);
        lemma_many_values_named(rest, i, j, name);
    }
}

proof fn lemma_some_values_named(members: Seq<(Seq<char>, Seq<char>)>, i: int, name: Seq<char>)
    requires
        0 <= i < members.len(),
        members[i].0 == name,
    ensures
        values_named(members, name).len() >= 1,
    decreases members.len(),
{
    if i < members.len() - 1 {
        assert(members.drop_last()[i] == members[i]);
        lemma_some_values_named(members.drop_last(), i, name);
    }
}

/// A name gives a value exactly where one member has it: the value of that member, as it is
/// written.
pub proof fn law_sole_value_is_that_of_the_one_member(
    members: Seq<(Seq<char>, Seq<char>)>,
    name: Seq<char>,
)
    ensures
        forall|i: int| #[trigger]
            stands_once(members, i, name) ==> sole_value(members, name) == Some(members[i].1),
        (forall|i: int| !#[trigger] stands_once(members, i, name)) ==> sole_value(members, name)
            is None,
{
    assert forall|i: int| #[trigger] stands_once(members, i, name) implies sole_value(members, name)
        == Some(members[i].1) by {
        lemma_one_value_named(members, i, name);
    }
    if forall|i: int| !#[trigger] stands_once(members, i, name) {
        if stands_nowhere(members, name) {
            lemma_no_values_named(members, name);
        } else {
            let i = choose|i: int| 0 <= i < members.len() && (#[trigger] members[i]).0 == name;
            assert(!stands_once(members, i, name));
            let j = choose|j: int|
                0 <= j < members.len() && j != i && (#[trigger] members[j]).0 == name;
            if i < j {
                lemma_many_values_named(members, i, j, name);
            } else {
                lemma_many_values_named(members, j, i, name);
            }
        }
    }
}

/// An object makes the call that its members say: where one member `name` holds a string and one
/// member holds the arguments, the call has exactly the characters of that string for its name
/// and exactly the text of that member for its arguments. The arguments are those under
/// `arguments` or, where not exactly one member has that name, those under `parameters`.
pub proof fn law_object_makes_the_call_it_names(
    s: Seq<char>,
    members: Seq<(Seq<char>, Seq<char>)>,
    i: int,
    j: int,
    name: Seq<char>,
)
    requires
        json::json_items(s) is None,
        json::json_pair(s) is None,
        json::object_members(s) == Some(members),
        stands_once(members, i, "name"@),
        json::json_string(members[i].1) == Some(name),
        holds_arguments(members, j),
    ensures
        recognized_calls(s) == Some(seq![CallText { name, arguments: members[j].1 }]),
        called(s) matches Some(call) && call.name == name && call.arguments == members[j].1,
{
    law_sole_value_is_that_of_the_one_member(members, "name"@);
    law_sole_value_is_that_of_the_one_member(members, "arguments"@);
    law_sole_value_is_that_of_the_one_member(members, "parameters"@);
}

/// An array of a string and a value makes the call that the string names, with the value for its
/// arguments.
pub proof fn law_pair_makes_the_call_it_names(
    s: Seq<char>,
    name: Seq<char>,
    arguments: Seq<char>,
)
    requires
        json::json_pair(s) == Some((name, arguments)),
    ensures
        called(s) matches Some(call) && call.name == name && call.arguments == arguments,
{
}

/// An object makes no call where `name` does not stand once with a string for its value, or where
/// neither `arguments` nor `parameters` stands once; nor does a text that is neither an object
/// nor a pair.
pub proof fn law_incomplete_object_makes_no_call(s: Seq<char>)
    requires
        json::json_pair(s) is None,
        json::object_members(s) matches Some(members) ==> {
            ||| forall|i: int|
                #[trigger] stands_once(members, i, "name"@) ==> json::json_string(members[i].1)
                    is None
            ||| forall|i: int|
                !#[trigger] stands_once(members, i, "arguments"@) && !stands_once(
                    members,
                    i,
                    "parameters"@,
                )
        },
    ensures
        called(s) is None,
        json::json_items(s) is None ==> recognized_calls(s) is None,
{
    if let Some(members) = json::object_members(s) {
        law_sole_value_is_that_of_the_one_member(members, "name"@);
        law_sole_value_is_that_of_the_one_member(members, "arguments"@);
        law_sole_value_is_that_of_the_one_member(members, "parameters"@);
        if forall|i: int|
            !#[trigger] stands_once(members, i, "arguments"@) && !stands_once(
                members,
                i,
                "parameters"@,
            ) {
            assert forall|i: int| !#[trigger] stands_once(members, i, "parameters"@) by {
                assert(!stands_once(members, i, "arguments"@));
            }
        }
        if exists|i: int| #[trigger] stands_once(members, i, "name"@) {
            let i = choose|i: int| #[trigger] stands_once(members, i, "name"@);
        }
    }
}

/// The calls of a list are those of its elements in their order, whatever the elements are and
/// however many: those of two lists are those of the first and then those of the second. An
/// element that makes no call adds none, and one that makes a call adds that call.
pub proof fn law_calls_of_two_lists(a: Seq<Seq<char>>, b: Seq<Seq<char>>, item: Seq<char>)
    ensures
        item_calls(a + b) == item_calls(a) + item_calls(b),
        item_calls(Seq::<Seq<char>>::empty()).len() == 0,
        called(item) is None ==> item_calls(seq![item]).len() == 0,
        called(item) matches Some(call) ==> item_calls(seq![item]) == seq![call],
    decreases b.len(),
{
    assert(seq![item].drop_last() =~= Seq::<Seq<char>>::empty());
    assert(item_calls(seq![item].drop_last()) =~= seq![]);
    if called(item) is Some {
        assert(item_calls(seq![item]) =~= seq![called(item).unwrap()]);
    }
    if b.len() == 0 {
        assert(a + b =~= a);
        assert(item_calls(a + b) =~= item_calls(a) + item_calls(b));
    } else {
        law_calls_of_two_lists(a, b.drop_last(), item);
        assert((a + b).drop_last() =~= a + b.drop_last());
        assert(item_calls(a + b) =~= item_calls(a) + item_calls(b));
    }
}

/// Where each element of an array makes a call, the calls of the array are as many as its
/// elements, and the call at each place is that of the element there.
pub proof fn law_array_of_calls_makes_each_of_them(payload: Seq<char>, items: Seq<Seq<char>>)
    requires
        json::json_items(payload) == Some(items),
        forall|k: int| 0 <= k < items.len() ==> called(#[trigger] items[k]) is Some,
    ensures
        recognized_calls(payload) matches Some(calls) && calls.len() == items.len() && forall|k: int|
            0 <= k < items.len() ==> Some(#[trigger] calls[k]) == called(items[k]),
{
    lemma_all_items_call(items);
}

proof fn lemma_all_items_call(items: Seq<Seq<char>>)
    requires
        forall|k: int| 0 <= k < items.len() ==> called(#[trigger] items[k]) is Some,
    ensures
        item_calls(items).len() == items.len(),
        forall|k: int|
            0 <= k < items.len() ==> Some(#[trigger] item_calls(items)[k]) == called(items[k]),
    decreases items.len(),
{
    if items.len() > 0 {
        let rest = items.drop_last();
        assert(called(items[items.len() - 1]) is Some);
        assert forall|k: int| 0 <= k < rest.len() implies called(#[trigger] rest[k]) is Some by {
            assert(rest[k] == items[k]);
        }
        lemma_all_items_call(rest);
        assert forall|k: int| 0 <= k < items.len() implies Some(#[trigger] item_calls(items)[k])
            == called(items[k]) by {
            if k < rest.len() {
                assert(item_calls(items)[k] == item_calls(rest)[k]);
                assert(rest[k] == items[k]);
            }
        }
    }
}

/// An array is recognized whatever its elements are, with the calls of its elements; a text that
/// is no array is recognized where it makes a call, with that call alone.
pub proof fn law_payload_is_an_array_or_a_call(payload: Seq<char>)
    ensures
        json::json_items(payload) matches Some(items) ==> recognized_calls(payload) == Some(
            item_calls(items),
        ),
        json::json_items(payload) is None && called(payload) is None ==> recognized_calls(payload)
            is None,
        json::json_items(payload) is None ==> (called(payload) matches Some(call)
            ==> recognized_calls(payload) == Some(seq![call])),
{
}

/// Each object of an array makes the call that it names, in its place.
pub proof fn law_array_of_objects_makes_the_calls_they_name(
    payload: Seq<char>,
    items: Seq<Seq<char>>,
    names: Seq<Seq<char>>,
    arguments: Seq<Seq<char>>,
)
    requires
        json::json_items(payload) == Some(items),
        names.len() == items.len(),
        arguments.len() == items.len(),
        forall|k: int|
            0 <= k < items.len() ==> says_call(#[trigger] items[k], names[k], arguments[k]),
    ensures
        recognized_calls(payload) matches Some(calls) && calls.len() == items.len() && forall|k: int|
            0 <= k < items.len() ==> (#[trigger] calls[k]).name == names[k] && calls[k].arguments
                == arguments[k],
{
    assert forall|k: int| 0 <= k < items.len() implies (called(#[trigger] items[k]) matches Some(
        call,
    ) && call.name == names[k] && call.arguments == arguments[k]) by {
        lemma_says_call(items[k], names[k], arguments[k]);
    }
    law_array_of_calls_makes_each_of_them(payload, items);
}

/// The text is an object with one member `name` that holds a string of the given characters, and
/// with the given text in the member that holds the arguments.
pub open spec fn says_call(s: Seq<char>, name: Seq<char>, arguments: Seq<char>) -> bool {
    &&& json::json_pair(s) is None
    &&& json::object_members(s) matches Some(members)
    &&& exists|i: int|
        #[trigger] stands_once(members, i, "name"@) && json::json_string(members[i].1) == Some(name)
    &&& exists|j: int| #[trigger] holds_arguments(members, j) && members[j].1 == arguments
}

proof fn lemma_says_call(s: Seq<char>, name: Seq<char>, arguments: Seq<char>)
    requires
        says_call(s, name, arguments),
    ensures
        called(s) matches Some(call) && call.name == name && call.arguments == arguments,
{
    let members = json::object_members(s).unwrap();
    law_sole_value_is_that_of_the_one_member(members, "name"@);
    law_sole_value_is_that_of_the_one_member(members, "arguments"@);
    law_sole_value_is_that_of_the_one_member(members, "parameters"@);
}

/// The name of a call is the string under `name`, character for character, and its arguments are
/// the text under `arguments`, where each stands once, whatever else the object holds.
pub proof fn law_arguments_are_taken_as_written(
    s: Seq<char>,
    members: Seq<(Seq<char>, Seq<char>)>,
    i: int,
    j: int,
    name: Seq<char>,
)
    requires
        json::json_pair(s) is None,
        json::object_members(s) == Some(members),
        0 <= i < members.len(),
        members[i].0 == "name"@,
        forall|k: int| 0 <= k < members.len() && k != i ==> (#[trigger] members[k]).0 != "name"@,
        json::json_string(members[i].1) == Some(name),
        0 <= j < members.len(),
        members[j].0 == "arguments"@,
        forall|k: int|
            0 <= k < members.len() && k != j ==> (#[trigger] members[k]).0 != "arguments"@,
    ensures
        called(s) matches Some(call) && call.name == name && call.arguments == members[j].1,
{
    lemma_one_value_named(members, i, "name"@);
    lemma_one_value_named(members, j, "arguments"@);
}

/// Where an object has no member `arguments`, its arguments are the text under `parameters`.
pub proof fn law_parameters_are_taken_for_missing_arguments(
    s: Seq<char>,
    members: Seq<(Seq<char>, Seq<char>)>,
    i: int,
    j: int,
    name: Seq<char>,
)
    requires
        json::json_pair(s) is None,
        json::object_members(s) == Some(members),
        0 <= i < members.len(),
        members[i].0 == "name"@,
        forall|k: int| 0 <= k < members.len() && k != i ==> (#[trigger] members[k]).0 != "name"@,
        json::json_string(members[i].1) == Some(name),
        forall|k: int| 0 <= k < members.len() ==> (#[trigger] members[k]).0 != "arguments"@,
        0 <= j < members.len(),
        members[j].0 == "parameters"@,
        forall|k: int|
            0 <= k < members.len() && k != j ==> (#[trigger] members[k]).0 != "parameters"@,
    ensures
        called(s) matches Some(call) && call.name == name && call.arguments == members[j].1,
{
    lemma_one_value_named(members, i, "name"@);
    lemma_no_values_named(members, "arguments"@);
    lemma_one_value_named(members, j, "parameters"@);
}

} // verus!
