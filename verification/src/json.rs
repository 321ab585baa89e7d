//! Reading JSON text: values keep the text they were written with.

use serde_json::value::RawValue;
use vstd::prelude::*;

use crate::json_repair;
use crate::text;

verus! {

/// The texts of the elements of the JSON array that a text holds; `None` where the text
/// is not one JSON array.
pub uninterp spec fn json_items(text: Seq<char>) -> Option<Seq<Seq<char>>>;

/// The text of the JSON value that a text holds, without surrounding white space; `None`
/// where the text is not one JSON value.
pub uninterp spec fn json_raw(text: Seq<char>) -> Option<Seq<char>>;

/// The text of the first of the JSON values that a text begins with; `None` where it
/// begins with none.
pub uninterp spec fn json_first(text: Seq<char>) -> Option<Seq<char>>;

/// The characters that the JSON string in a text stands for; `None` where the text is not
/// one JSON string.
pub uninterp spec fn json_string(text: Seq<char>) -> Option<Seq<char>>;

/// The characters of the first element, a string, and the text of the second element of
/// the JSON array of two elements that a text holds; `None` where the text is not one.
pub uninterp spec fn json_pair(text: Seq<char>) -> Option<(Seq<char>, Seq<char>)>;

/// The message of the error with which reading a text as one JSON value fails, numbers and
/// nesting included; `None` where it does not fail.
pub uninterp spec fn json_value_error(text: Seq<char>) -> Option<Seq<char>>;

/// The first character of `s` that is no white space is `c`.
pub open spec fn opens_with(s: Seq<char>, c: char) -> bool {
    text::trimmed_start(s).len() > 0 && text::trimmed_start(s)[0] == c
}

/// The text is that of one JSON value, with no white space round it.
pub open spec fn is_raw(s: Seq<char>) -> bool {
    json_raw(s) == Some(s)
}

/// Each of the texts is that of one JSON value.
pub open spec fn all_raw(items: Seq<Seq<char>>) -> bool {
    forall|i: int| 0 <= i < items.len() ==> is_raw(#[trigger] items[i])
}

/// Calls `serde_json::from_str` for a list of raw values. Claimed of it: what it returns
/// is a function of the text; it succeeds only on a text whose first character past white
/// space is `[`; each raw value is a non-empty stretch of the text, and the text of one JSON
/// value; from the texts of JSON values, separated by commas between brackets, it reads those
/// texts.
#[verifier::external_body]
pub(crate) fn read_items(text: &str) -> (r: Option<Vec<String>>)
    ensures
        r matches Some(items) ==> json_items(text@) == Some(text::texts(items@)),
        r is None ==> json_items(text@) is None,
        r is Some ==> opens_with(text@, '['),
        r matches Some(items) ==> forall|i: int|
            0 <= i < items@.len() ==> (#[trigger] items@[i])@.len() > 0 && text::contains_text(
                text@,
                items@[i]@,
            ),
        r matches Some(items) ==> all_raw(text::texts(items@)),
        r matches Some(items) ==> forall|values: Seq<Seq<char>>|
            all_raw(values) && text@ == #[trigger] text::bracketed(values) ==> text::texts(items@)
                == values,
        r is None ==> forall|values: Seq<Seq<char>>|
            all_raw(values) ==> text@ != #[trigger] text::bracketed(values),
{
    let items: Vec<Box<RawValue>> = serde_json::from_str(text).ok()?;
    Some(items.into_iter().map(|v| v.get().to_string()).collect())
}

/// Calls `serde_json::from_str` for one raw value. Claimed of it: what it returns is a
/// function of the text, and is the text without leading and trailing white space; a text that
/// it reads leaves no string, brace or bracket open.
#[verifier::external_body]
pub(crate) fn read_raw(text: &str) -> (r: Option<String>)
    ensures
        r matches Some(raw) ==> json_raw(text@) == Some(raw@),
        r is None ==> json_raw(text@) is None,
        r matches Some(raw) ==> raw@.len() > 0 && raw@ == text::trimmed(text@),
        r is Some ==> json_repair::repaired(text@) is None,
{
    let raw: Box<RawValue> = serde_json::from_str(text).ok()?;
    Some(raw.get().to_string())
}

/// Calls `next` once on the stream of raw values that `serde_json::Deserializer` reads
/// from a text. Claimed of it: what it returns is a function of the text; a raw value is
/// not empty, is the text of one JSON value, and is what the text begins with past its white
/// space.
#[verifier::external_body]
pub(crate) fn read_first(text: &str) -> (r: Option<String>)
    ensures
        r matches Some(raw) ==> json_first(text@) == Some(raw@),
        r is None ==> json_first(text@) is None,
        r matches Some(raw) ==> raw@.len() > 0 && text::has_prefix(
            text::trimmed_start(text@),
            raw@,
        ),
        r matches Some(raw) ==> is_raw(raw@),
{
    let mut stream = serde_json::Deserializer::from_str(text).into_iter::<Box<RawValue>>();
    let raw: Box<RawValue> = stream.next()?.ok()?;
    Some(raw.get().to_string())
}

/// Calls `serde_json::from_str` for a string. Claimed of it: what it returns is a function
/// of the text.
#[verifier::external_body]
pub(crate) fn read_string(text: &str) -> (r: Option<String>)
    ensures
        r matches Some(s) ==> json_string(text@) == Some(s@),
        r is None ==> json_string(text@) is None,
{
    serde_json::from_str(text).ok()
}

/// Calls `serde_json::from_str` for a pair of a string and a raw value. Claimed of it:
/// what it returns is a function of the text; it succeeds only on a text whose first
/// character past white space is `[`; the raw value is a stretch of the text.
#[verifier::external_body]
pub(crate) fn read_pair(text: &str) -> (r: Option<(String, String)>)
    ensures
        r matches Some(p) ==> json_pair(text@) == Some((p.0@, p.1@)),
        r is None ==> json_pair(text@) is None,
        r matches Some(p) ==> opens_with(text@, '[') && text::contains_text(text@, p.1@),
{
    let pair: (String, Box<RawValue>) = serde_json::from_str(text).ok()?;
    Some((pair.0, pair.1.get().to_string()))
}

/// Calls `serde_json::from_str` for a `serde_json::Value` and formats the error. Claimed of
/// it: whether it fails, and the message, are a function of the text.
#[verifier::external_body]
pub(crate) fn value_error(text: &str) -> (r: Option<String>)
    ensures
        r matches Some(message) ==> json_value_error(text@) == Some(message@),
        r is None ==> json_value_error(text@) is None,
{
    let read: Result<serde_json::Value, serde_json::Error> = serde_json::from_str(text);
    read.err().map(|e| e.to_string())
}

/// The first value of `s` and what follows it, both without leading white space.
pub open spec fn value_and_rest(s: Seq<char>) -> Option<(Seq<char>, Seq<char>)> {
    let t = text::trimmed_start(s);
    match json_first(t) {
        Some(raw) => if raw.len() > 0 && text::has_prefix(t, raw) {
            Some((raw, text::trimmed_start(t.skip(raw.len() as int))))
        } else {
            None
        },
        None => None,
    }
}

pub proof fn lemma_value_and_rest(s: Seq<char>)
    ensures
        value_and_rest(s) matches Some(p) ==> p.1.len() < s.len() && text::contains_text(s, p.0)
            && is_tail_of(p.1, s),
{
    if let Some(p) = value_and_rest(s) {
        let t = text::trimmed_start(s);
        text::lemma_trimmed_start(s);
        let n = text::leading_white(s) as int;
        let u = t.skip(p.0.len() as int);
        text::lemma_trimmed_start(u);
        assert(s.subrange(n, n + p.0.len()) =~= t.subrange(0, p.0.len() as int));
        assert(text::occurs_at(s, p.0, n));
        assert(p.1 =~= s.skip(n + p.0.len() + text::leading_white(u)));
    }
}

/// `t` is what remains of `s` after some of its first characters.
pub open spec fn is_tail_of(t: Seq<char>, s: Seq<char>) -> bool {
    t.len() <= s.len() && t == s.skip(s.len() - t.len())
}

proof fn lemma_tail_contains(t: Seq<char>, s: Seq<char>, x: Seq<char>)
    requires
        is_tail_of(t, s),
        text::contains_text(t, x),
    ensures
        text::contains_text(s, x),
{
    let i = choose|i: int| text::occurs_at(t, x, i);
    let j = s.len() - t.len() + i;
    assert(s.subrange(j, j + x.len()) =~= t.subrange(i, i + x.len()));
    assert(text::occurs_at(s, x, j));
}

/// Reads the first value of a text.
pub fn take_value(s: &str) -> (r: Option<(String, String)>)
    ensures
        r matches Some(p) ==> value_and_rest(s@) == Some((p.0@, p.1@)),
        r is None ==> value_and_rest(s@) is None,
        r matches Some(p) ==> is_raw(p.0@),
{
    let t: &str = text::trim_start(s);
    match read_first(t) {
        None => None,
        Some(raw) => {
            proof {
                text::lemma_trimmed_start(s@);
                text::lemma_trimmed_start(t@);
                if t@.len() > 0 {
                    assert(!text::is_white_space(t@[0]));
                }
                assert(t@.skip(0) =~= t@);
            }
            let m: usize = raw.as_str().unicode_len();
            let n: usize = t.unicode_len();
            let rest: &str = t.substring_char(m, n);
            assert(rest@ =~= t@.skip(m as int));
            Some((raw, text::trim_start(rest).to_string()))
        },
    }
}

/// The members of an object, given what follows its opening brace or a comma: names
/// with their escapes resolved, values with the text they were written with.
pub open spec fn members_after(s: Seq<char>) -> Option<Seq<(Seq<char>, Seq<char>)>>
    decreases s.len(),
{
    match value_and_rest(s) {
        None => None,
        Some(p) => match json_string(p.0) {
            None => None,
            Some(name) => if p.1.len() == 0 || p.1[0] != ':' {
                None
            } else {
                match value_and_rest(p.1.skip(1)) {
                    None => None,
                    Some(q) => if q.1.len() == 0 || q.1.len() >= s.len() {
                        None
                    } else if q.1[0] == '}' {
                        Some(seq![(name, q.0)])
                    } else if q.1[0] == ',' {
                        match members_after(q.1.skip(1)) {
                            None => None,
                            Some(rest) => Some(seq![(name, q.0)] + rest),
                        }
                    } else {
                        None
                    },
                }
            },
        },
    }
}

/// The members of the JSON object that a text holds, in the order they are written.
pub open spec fn object_members(s: Seq<char>) -> Option<Seq<(Seq<char>, Seq<char>)>> {
    match json_raw(s) {
        None => None,
        Some(raw) => if raw.len() == 0 || raw[0] != '{' {
            None
        } else {
            let body = text::trimmed_start(raw.skip(1));
            if body.len() > 0 && body[0] == '}' {
                Some(seq![])
            } else {
                members_after(body)
            }
        },
    }
}

/// A member of a JSON object: its name, and the text of its value.
pub type Member = (String, String);

/// What a member list holds.
pub open spec fn member_texts(v: Seq<Member>) -> Seq<(Seq<char>, Seq<char>)> {
    v.map_values(|m: Member| (m.0@, m.1@))
}

proof fn lemma_members_after_verbatim(s: Seq<char>)
    ensures
        members_after(s) matches Some(ms) ==> forall|i: int|
            0 <= i < ms.len() ==> text::contains_text(s, (#[trigger] ms[i]).1),
    decreases s.len(),
{
    if let Some(ms) = members_after(s) {
        let p = value_and_rest(s).unwrap();
        lemma_value_and_rest(s);
        let u = p.1.skip(1);
        let q = value_and_rest(u).unwrap();
        lemma_value_and_rest(u);
        assert(is_tail_of(u, s)) by {
            assert(u =~= s.skip(s.len() - u.len()));
        }
        lemma_tail_contains(u, s, q.0);
        if q.1[0] == ',' {
            let w = q.1.skip(1);
            lemma_members_after_verbatim(w);
            assert(is_tail_of(w, s)) by {
                assert(w =~= s.skip(s.len() - w.len()));
            }
            let rest = members_after(w).unwrap();
            assert forall|i: int| 0 <= i < ms.len() implies text::contains_text(
                s,
                (#[trigger] ms[i]).1,
            ) by {
                if i > 0 {
                    assert(ms[i] == rest[i - 1]);
                    lemma_tail_contains(w, s, ms[i].1);
                }
            }
        }
    }
}

/// The values of an object's members stand in its text as they are.
pub proof fn lemma_members_verbatim(s: Seq<char>)
    requires
        json_raw(s) matches Some(raw) ==> raw == text::trimmed(s),
    ensures
        object_members(s) matches Some(ms) ==> forall|i: int|
            0 <= i < ms.len() ==> text::contains_text(s, (#[trigger] ms[i]).1),
{
    if let Some(ms) = object_members(s) {
        let raw = json_raw(s).unwrap();
        let tail = raw.skip(1);
        let body = text::trimmed_start(tail);
        text::lemma_trimmed(s);
        text::lemma_trimmed_start(tail);
        if !(body.len() > 0 && body[0] == '}') {
            lemma_members_after_verbatim(body);
            assert(is_tail_of(body, raw)) by {
                assert(body =~= raw.skip(raw.len() - body.len()));
            }
            assert forall|i: int| 0 <= i < ms.len() implies text::contains_text(
                s,
                (#[trigger] ms[i]).1,
            ) by {
                lemma_tail_contains(body, raw, ms[i].1);
                text::lemma_stretch_contains(
                    s,
                    text::leading_white(s) as int,
                    raw,
                    ms[i].1,
                );
            }
        }
    }
}

/// Reads the members of the JSON object that a text holds; a name that occurs twice is
/// listed twice.
pub fn read_members(s: &str) -> (r: Option<Vec<Member>>)
    ensures
        r matches Some(ms) ==> object_members(s@) == Some(member_texts(ms@)),
        r is None ==> object_members(s@) is None,
        r matches Some(ms) ==> forall|i: int|
            0 <= i < ms@.len() ==> text::contains_text(s@, (#[trigger] ms@[i]).1@),
        r is Some ==> opens_with(s@, '{'),
{
    let raw: String = match read_raw(s) {
        Some(raw) => raw,
        None => {
            return None;
        },
    };
    if !text::starts_with_char(raw.as_str(), '{') {
        return None;
    }
    proof {
        lemma_members_verbatim(s@);
        text::lemma_trimmed_end(text::trimmed_start(s@));
        assert(raw@[0] == text::trimmed_start(s@)[0]);
    }
    let n: usize = raw.as_str().unicode_len();
    let tail: &str = raw.as_str().substring_char(1, n);
    assert(tail@ =~= raw@.skip(1));
    let body: &str = text::trim_start(tail);
    let mut out: Vec<Member> = Vec::new();
    if text::starts_with_char(body, '}') {
        assert(member_texts(out@) =~= seq![]);
        return Some(out);
    }
    let mut rest: String = body.to_string();
    assert(member_texts(out@) + seq![] =~= seq![]);
    loop
        invariant
            opens_with(s@, '{'),
            object_members(s@) is Some ==> members_after(rest@) is Some && object_members(s@)
                == Some(member_texts(out@) + members_after(rest@).unwrap()),
            object_members(s@) is None ==> members_after(rest@) is None,
            object_members(s@) matches Some(ms) ==> forall|i: int|
                0 <= i < ms.len() ==> text::contains_text(s@, (#[trigger] ms[i]).1),
        decreases rest@.len(),
    {
        proof {
            lemma_value_and_rest(rest@);
        }
        let (raw_name, after_name) = match take_value(rest.as_str()) {
            Some(p) => p,
            None => {
                return None;
            },
        };
        let name: String = match read_string(raw_name.as_str()) {
            Some(name) => name,
            None => {
                return None;
            },
        };
        if !text::starts_with_char(after_name.as_str(), ':') {
            return None;
        }
        let k: usize = after_name.as_str().unicode_len();
        let value_part: &str = after_name.as_str().substring_char(1, k);
        assert(value_part@ =~= after_name@.skip(1));
        proof {
            lemma_value_and_rest(value_part@);
        }
        let (value, after_value) = match take_value(value_part) {
            Some(p) => p,
            None => {
                return None;
            },
        };
        let ghost before = member_texts(out@);
        out.push((name, value));
        assert(member_texts(out@) =~= before.push((name@, value@)));
        if text::starts_with_char(after_value.as_str(), '}') {
            proof {
                assert(before + seq![(name@, value@)] =~= member_texts(out@));
                let ms = object_members(s@).unwrap();
                assert forall|i: int| 0 <= i < out@.len() implies text::contains_text(
                    s@,
                    (#[trigger] out@[i]).1@,
                ) by {
                    assert(ms[i].1 == out@[i].1@);
                }
            }
            return Some(out);
        }
        if !text::starts_with_char(after_value.as_str(), ',') {
            return None;
        }
        let m: usize = after_value.as_str().unicode_len();
        let next: &str = after_value.as_str().substring_char(1, m);
        assert(next@ =~= after_value@.skip(1));
        proof {
            if let Some(more) = members_after(next@) {
                assert(before + (seq![(name@, value@)] + more) =~= member_texts(out@) + more);
            }
        }
        rest = next.to_string();
    }
}

/// A member of an object: where a text is, past white space, a string, a colon, a value, and then
/// a comma and more members, its members are the string with its value, as it is written, and
/// then those that follow; where a closing brace comes after the value, it is the only member.
pub proof fn law_members_are_names_with_their_values(
    s: Seq<char>,
    raw_name: Seq<char>,
    name: Seq<char>,
    after_name: Seq<char>,
    value: Seq<char>,
    after_value: Seq<char>,
)
    requires
        json_first(text::trimmed_start(s)) == Some(raw_name),
        raw_name.len() > 0,
        text::trimmed_start(s) == raw_name + after_name,
        json_string(raw_name) == Some(name),
        text::trimmed_start(after_name).len() > 0,
        text::trimmed_start(after_name)[0] == ':',
        json_first(text::trimmed_start(text::trimmed_start(after_name).skip(1))) == Some(value),
        value.len() > 0,
        text::trimmed_start(text::trimmed_start(after_name).skip(1)) == value + after_value,
        text::trimmed_start(after_value).len() > 0,
    ensures
        text::trimmed_start(after_value)[0] == '}' ==> members_after(s) == Some(
            seq![(name, value)],
        ),
        text::trimmed_start(after_value)[0] == ',' ==> (members_after(s) is Some <==> members_after(
            text::trimmed_start(after_value).skip(1),
        ) is Some) && (members_after(s) matches Some(all) ==> all == seq![(name, value)]
            + members_after(text::trimmed_start(after_value).skip(1)).unwrap()),
        text::trimmed_start(after_value)[0] != '}' && text::trimmed_start(after_value)[0] != ','
            ==> members_after(s) is None,
{
    let t = text::trimmed_start(s);
    assert(t.subrange(0, raw_name.len() as int) =~= raw_name);
    assert(t.skip(raw_name.len() as int) =~= after_name);
    let p = (raw_name, text::trimmed_start(after_name));
    assert(value_and_rest(s) == Some(p));
    let u = p.1.skip(1);
    let v = text::trimmed_start(u);
    assert(v.subrange(0, value.len() as int) =~= value);
    assert(v.skip(value.len() as int) =~= after_value);
    let q = (value, text::trimmed_start(after_value));
    assert(value_and_rest(u) == Some(q));
    lemma_value_and_rest(s);
    lemma_value_and_rest(u);
}

/// The members of an object are those that follow its opening brace, or none where its closing
/// brace follows at once; a text that is no object has none.
pub proof fn law_object_has_the_members_in_its_braces(s: Seq<char>, raw: Seq<char>)
    ensures
        json_raw(s) is None ==> object_members(s) is None,
        json_raw(s) == Some(raw) && (raw.len() == 0 || raw[0] != '{') ==> object_members(s) is None,
        json_raw(s) == Some(raw) && raw.len() > 0 && raw[0] == '{' && text::trimmed_start(
            raw.skip(1),
        ).len() > 0 && text::trimmed_start(raw.skip(1))[0] == '}' ==> object_members(s) == Some(
            Seq::<(Seq<char>, Seq<char>)>::empty(),
        ),
        json_raw(s) == Some(raw) && raw.len() > 0 && raw[0] == '{' && !(text::trimmed_start(
            raw.skip(1),
        ).len() > 0 && text::trimmed_start(raw.skip(1))[0] == '}') ==> object_members(s)
            == members_after(text::trimmed_start(raw.skip(1))),
{
}

/// What is no list of members: where no value comes first, or it is no string, or no colon
/// follows it, or no value follows the colon, or nothing follows that value.
pub proof fn law_malformed_members_are_none(s: Seq<char>)
    requires
        value_and_rest(s) matches Some(p) ==> json_string(p.0) is None || p.1.len() == 0 || p.1[0]
            != ':' || (value_and_rest(p.1.skip(1)) matches Some(q) ==> q.1.len() == 0),
    ensures
        members_after(s) is None,
        json_first(text::trimmed_start(s)) is None ==> value_and_rest(s) is None,
{
}

} // verus!
