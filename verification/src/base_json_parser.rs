//! Tool calls in the output of a model that writes them as JSON, between tokens or bare.

use vstd::prelude::*;

use crate::config;
use crate::config::JsonParserConfig;
use crate::frames;
use crate::json;
use crate::json_calls;
use crate::json_calls::parse_calls;
use crate::json_repair;
use crate::json_repair::try_repair_truncated_json;
use crate::response;
use crate::response::{CallText, ToolCallResponse, ToolDefinition};
use crate::text;

verus! {

/// The text begins with an opening brace or bracket.
pub open spec fn begins_open(s: Seq<char>) -> bool {
    s.len() > 0 && (s[0] == '{' || s[0] == '[')
}

/// Bodies without surrounding white space.
pub open spec fn trimmed_all(bodies: Seq<Seq<char>>) -> Seq<Seq<char>> {
    bodies.map_values(|body: Seq<char>| text::trimmed(body))
}

/// The body of a call that a start token opens in `rest` and no end token closes, where it
/// is a complete object that makes a call.
pub open spec fn unclosed_call(rest: Seq<char>, start: Seq<char>) -> Option<Seq<char>> {
    match text::around_first(rest, start) {
        Some(p) => {
            let body = text::trimmed(p.1);
            if body.len() > 0 && body[0] == '{' && json_calls::called(body) is Some {
                Some(body)
            } else {
                None
            }
        },
        None => None,
    }
}

/// Several bodies as the text of an array, one body as it is.
pub open spec fn joined_bodies(bodies: Seq<Seq<char>>) -> Seq<char> {
    if bodies.len() == 0 {
        seq![]
    } else if bodies.len() == 1 {
        bodies[0]
    } else {
        text::bracketed(bodies)
    }
}

/// The bodies that are not empty.
pub open spec fn filled(bodies: Seq<Seq<char>>) -> Seq<Seq<char>>
    decreases bodies.len(),
{
    if bodies.len() == 0 {
        seq![]
    } else if bodies.last().len() == 0 {
        filled(bodies.drop_last())
    } else {
        filled(bodies.drop_last()).push(bodies.last())
    }
}

/// The bodies that `start` and `end` frame in `s`, where the tokens can be searched for.
pub open spec fn closed_bodies(s: Seq<char>, start: Seq<char>, end: Seq<char>) -> Seq<Seq<char>> {
    if frames::can_frame(start, end) {
        trimmed_all(frames::framed(s, start, end))
    } else {
        seq![]
    }
}

/// What `start` and `end` frame in `s`.
pub open spec fn framed_content(s: Seq<char>, start: Seq<char>, end: Seq<char>) -> Option<
    Seq<char>,
> {
    let bodies = closed_bodies(s, start, end);
    if bodies.len() == 0 {
        None
    } else {
        Some(joined_bodies(bodies))
    }
}

/// What follows the first `start` in `s` where no end token came, if it looks like JSON.
pub open spec fn open_tail(s: Seq<char>, start: Seq<char>) -> Option<Seq<char>> {
    match text::around_first(s, start) {
        Some(p) => if begins_open(text::trimmed(p.1)) {
            Some(text::trimmed(p.1))
        } else {
            None
        },
        None => None,
    }
}

/// The JSON values that `s` begins with, separated by semicolons.
pub open spec fn streamed(s: Seq<char>) -> Seq<Seq<char>>
    decreases s.len(),
{
    match json::value_and_rest(s) {
        Some(p) => if p.1.len() > 0 && p.1[0] == ';' && p.1.len() <= s.len() {
            seq![p.0] + streamed(p.1.skip(1))
        } else {
            seq![p.0]
        },
        None => seq![],
    }
}

/// The JSON values in a segment: those that an object begins, or the elements of an array
/// that reaches to the last closing bracket. Other segments hold none.
pub open spec fn segment_values(segment: Seq<char>) -> Seq<Seq<char>> {
    let s = text::trimmed(segment);
    if s.len() > 0 && s[0] == '{' {
        streamed(s)
    } else if s.len() > 0 && s[0] == '[' {
        match text::through_last(s, ']') {
            Some(array) => match json::json_items(text::trimmed(array)) {
                Some(items) => items,
                None => seq![],
            },
            None => seq![],
        }
    } else {
        seq![]
    }
}

/// The JSON values in a list of segments.
pub open spec fn segments_values(segments: Seq<Seq<char>>) -> Seq<Seq<char>>
    decreases segments.len(),
{
    if segments.len() == 0 {
        seq![]
    } else {
        segments_values(segments.drop_last()) + segment_values(segments.last())
    }
}

/// The JSON values that `start` announces in `s`.
pub open spec fn announced_values(s: Seq<char>, start: Seq<char>) -> Seq<Seq<char>> {
    segments_values(text::segments(s, start))
}

/// The JSON values that `start` announces in `s`, as the text of an array; empty where it
/// announces none, and `None` where it does not occur.
pub open spec fn announced_content(s: Seq<char>, start: Seq<char>) -> Option<Seq<char>> {
    if !text::contains_text(s, start) {
        None
    } else {
        let values = announced_values(s, start);
        if values.len() == 0 {
            Some(seq![])
        } else {
            Some(text::bracketed(values))
        }
    }
}

/// What stands before the first `start` in `s`, or nothing. White space round it is
/// dropped, except before `[TOOL_CALLS]`.
pub open spec fn text_before(s: Seq<char>, start: Seq<char>) -> Seq<char> {
    match text::around_first(s, start) {
        Some(p) => if start == "[TOOL_CALLS]"@ {
            p.0
        } else {
            text::trimmed(p.0)
        },
        None => seq![],
    }
}

/// Several bodies as the text of an array, one body as it is.
pub fn join_bodies(bodies: &Vec<String>) -> (r: String)
    ensures
        r@ == joined_bodies(text::texts(bodies@)),
{
    if bodies.len() == 0 {
        let r: String = String::new();
        assert(r@ =~= seq![]);
        r
    } else if bodies.len() == 1 {
        assert(text::texts(bodies@)[0] == bodies@[0]@);
        bodies[0].clone()
    } else {
        text::bracket(bodies)
    }
}

/// The bodies that are not empty.
pub fn drop_empty(bodies: &Vec<String>) -> (r: Vec<String>)
    ensures
        text::texts(r@) == filled(text::texts(bodies@)),
{
    let ghost all = text::texts(bodies@);
    let mut out: Vec<String> = Vec::new();
    let mut i: usize = 0;
    assert(text::texts(out@) =~= seq![]);
    while i < bodies.len()
        invariant
            i <= bodies@.len(),
            all == text::texts(bodies@),
            text::texts(out@) == filled(all.take(i as int)),
        decreases bodies.len() - i,
    {
        assert(all.take(i + 1).drop_last() =~= all.take(i as int));
        assert(all.take(i + 1).last() == bodies@[i as int]@);
        if bodies[i].as_str().unicode_len() > 0 {
            let ghost before = text::texts(out@);
            out.push(bodies[i].clone());
            assert(text::texts(out@) =~= before.push(bodies@[i as int]@));
        }
        i = i + 1;
    }
    assert(all.take(all.len() as int) =~= all);
    out
}

/// The body of a last call that is not closed.
fn read_unclosed_call(rest: &str, start_token: &str) -> (r: Option<String>)
    ensures
        text::text_of(r) == unclosed_call(rest@, start_token@),
{
    match text::split_first(rest, start_token) {
        Some((_, after)) => {
            let body: &str = text::trim(after);
            if text::starts_with_char(body, '{') && json_calls::makes_call(body) {
                Some(body.to_string())
            } else {
                None
            }
        },
        None => None,
    }
}

/// The bodies that start and end tokens frame.
fn read_closed_bodies(input: &str, start_token: &str, end_token: &str) -> (r: Vec<String>)
    requires
        start_token@.len() > 0,
        end_token@.len() > 0,
    ensures
        text::texts(r@) == closed_bodies(input@, start_token@, end_token@),
{
    let mut bodies: Vec<String> = Vec::new();
    assert(text::texts(bodies@) =~= seq![]);
    let found: Vec<String> = match frames::find_frames(input, start_token, end_token) {
        Some(found) => found,
        None => {
            return bodies;
        },
    };
    let ghost all = text::texts(found@);
    let mut i: usize = 0;
    assert(trimmed_all(all).take(0) =~= seq![]);
    while i < found.len()
        invariant
            i <= found@.len(),
            all == text::texts(found@),
            text::texts(bodies@) == trimmed_all(all).take(i as int),
        decreases found.len() - i,
    {
        let ghost before = text::texts(bodies@);
        bodies.push(text::trim(found[i].as_str()).to_string());
        proof {
            let body = text::trimmed(found@[i as int]@);
            assert(text::texts(bodies@) =~= before.push(body));
            assert(all[i as int] == found@[i as int]@);
            assert(trimmed_all(all).take(i + 1) =~= trimmed_all(all).take(i as int).push(body));
        }
        i = i + 1;
    }
    assert(trimmed_all(all).take(all.len() as int) =~= trimmed_all(all));
    bodies
}

/// Extracts what stands between start and end tokens: the body as it is, or the text of
/// an array of the bodies where there are several.
pub fn extract_tool_call_content(input: &str, start_token: &str, end_token: &str) -> (r: Option<
    String,
>)
    requires
        start_token@.len() > 0,
        end_token@.len() > 0,
    ensures
        text::text_of(r) == framed_content(input@, start_token@, end_token@),
{
    let bodies: Vec<String> = read_closed_bodies(input, start_token, end_token);
    if bodies.len() == 0 {
        None
    } else {
        Some(join_bodies(&bodies))
    }
}

/// What follows a start token whose end token never came, if it looks like JSON.
pub fn extract_tool_call_content_eof_recovery(input: &str, start_token: &str) -> (r: Option<String>)
    ensures
        r matches Some(tail) ==> open_tail(input@, start_token@) == Some(tail@),
        r is None ==> open_tail(input@, start_token@) is None,
{
    match text::split_first(input, start_token) {
        Some((_, after)) => {
            let tail: &str = text::trim(after);
            if text::starts_with_char(tail, '{') || text::starts_with_char(tail, '[') {
                Some(tail.to_string())
            } else {
                None
            }
        },
        None => None,
    }
}

proof fn lemma_streamed_stand(s: Seq<char>)
    ensures
        text::all_stand(streamed(s), s),
    decreases s.len(),
{
    json::lemma_value_and_rest(s);
    if let Some(p) = json::value_and_rest(s) {
        if p.1.len() > 0 && p.1[0] == ';' {
            let next = p.1.skip(1);
            lemma_streamed_stand(next);
            let from = s.len() - next.len();
            assert(s.subrange(from, s.len() as int) =~= next);
            assert(text::occurs_at(s, next, from));
            let all = streamed(s);
            assert forall|i: int| 0 <= i < all.len() implies text::contains_text(
                s,
                #[trigger] all[i],
            ) by {
                if i > 0 {
                    assert(all[i] == streamed(next)[i - 1]);
                    text::lemma_contains_transitive(s, next, all[i]);
                }
            }
        }
    }
}

/// Appends the JSON values that a segment begins with, separated by semicolons. A value
/// may hold semicolons, and text that is no value may follow.
fn push_streamed(items: &mut Vec<String>, s: &str)
    ensures
        text::texts(final(items)@) == text::texts(old(items)@) + streamed(s@),
        json::all_raw(text::texts(old(items)@)) ==> json::all_raw(text::texts(final(items)@)),
{
    let ghost given = text::texts(items@);
    let mut rest: String = s.to_string();
    assert(given + streamed(s@) =~= text::texts(items@) + streamed(rest@));
    loop
        invariant
            given == text::texts(old(items)@),
            text::texts(items@) + streamed(rest@) == given + streamed(s@),
            json::all_raw(given) ==> json::all_raw(text::texts(items@)),
        decreases rest@.len(),
    {
        proof {
            json::lemma_value_and_rest(rest@);
        }
        let ghost before = text::texts(items@);
        match json::take_value(rest.as_str()) {
            None => {
                assert(before + streamed(rest@) =~= before);
                return;
            },
            Some((value, after)) => {
                let ghost v = value@;
                items.push(value);
                assert(text::texts(items@) =~= before.push(v));
                match text::strip_prefix(after.as_str(), ";") {
                    None => {
                        proof {
                            reveal_strlit(";");
                            if after@.len() > 0 && after@[0] == ';' {
                                assert(after@.subrange(0, 1) =~= ";"@);
                                assert(text::has_prefix(after@, ";"@));
                            }
                            assert(before + seq![v] =~= before.push(v));
                        }
                        return;
                    },
                    Some(next) => {
                        proof {
                            reveal_strlit(";");
                            assert(after@[0] == after@.subrange(0, 1)[0]);
                            assert(before.push(v) + streamed(next@) =~= before + (seq![v]
                                + streamed(next@)));
                        }
                        rest = next.to_string();
                    },
                }
            },
        }
    }
}

proof fn lemma_all_stand_transitive(values: Seq<Seq<char>>, t: Seq<char>, s: Seq<char>)
    requires
        text::all_stand(values, t),
        text::contains_text(s, t),
    ensures
        text::all_stand(values, s),
{
    assert forall|i: int| 0 <= i < values.len() implies text::contains_text(
        s,
        #[trigger] values[i],
    ) by {
        text::lemma_contains_transitive(s, t, values[i]);
    }
}

proof fn lemma_through_last_stands(s: Seq<char>, c: char)
    ensures
        text::through_last(s, c) matches Some(p) ==> text::contains_text(s, p),
    decreases s.len(),
{
    assert(s.subrange(0, s.len() as int) =~= s);
    assert(text::occurs_at(s, s, 0));
    if s.len() > 0 && s.last() != c {
        let t = s.drop_last();
        lemma_through_last_stands(t, c);
        assert(s.subrange(0, t.len() as int) =~= t);
        assert(text::occurs_at(s, t, 0));
        if let Some(p) = text::through_last(t, c) {
            text::lemma_contains_transitive(s, t, p);
        }
    }
}

/// Appends the JSON values in a segment.
fn push_segment(items: &mut Vec<String>, segment: &str)
    ensures
        text::texts(final(items)@) == text::texts(old(items)@) + segment_values(segment@),
        json::all_raw(text::texts(old(items)@)) ==> json::all_raw(text::texts(final(items)@)),
        text::all_stand(segment_values(segment@), segment@),
{
    let ghost given = text::texts(items@);
    assert(given + seq![] =~= given);
    let s: &str = text::trim(segment);
    proof {
        text::lemma_trimmed_stands(segment@);
    }
    if text::starts_with_char(s, '{') {
        push_streamed(items, s);
        proof {
            lemma_streamed_stand(s@);
            lemma_all_stand_transitive(streamed(s@), s@, segment@);
        }
    } else if text::starts_with_char(s, '[') {
        if let Some(array) = text::cut_after_last(s, ']') {
            if let Some(values) = json::read_items(text::trim(array)) {
                let mut values: Vec<String> = values;
                let ghost all = values@;
                let ghost kept = items@;
                items.append(&mut values);
                assert(text::texts(items@) =~= text::texts(kept) + text::texts(all));
                proof {
                    let read = text::texts(all);
                    assert forall|i: int| 0 <= i < read.len() implies text::contains_text(
                        text::trimmed(array@),
                        #[trigger] read[i],
                    ) by {
                        assert(read[i] == all[i]@);
                    }
                    text::lemma_trimmed_stands(array@);
                    lemma_through_last_stands(s@, ']');
                    lemma_all_stand_transitive(read, text::trimmed(array@), array@);
                    lemma_all_stand_transitive(read, array@, s@);
                    lemma_all_stand_transitive(read, s@, segment@);
                }
            }
        }
    }
}

/// Collects the JSON values that a start token without an end token announces.
pub fn handle_single_token_tool_calls(input: &str, start_token: &str) -> (r: Option<String>)
    requires
        start_token@.len() > 0,
    ensures
        r matches Some(content) ==> announced_content(input@, start_token@) == Some(content@),
        r is None ==> announced_content(input@, start_token@) is None,
        r is Some ==> json::all_raw(announced_values(input@, start_token@)),
        r is Some ==> text::all_stand(announced_values(input@, start_token@), input@),
{
    if !text::contains(input, start_token) {
        return None;
    }
    let segments: Vec<&str> = text::split(input, start_token);
    let ghost all = text::segments(input@, start_token@);
    proof {
        text::lemma_segments_stand(input@, start_token@);
    }
    let mut items: Vec<String> = Vec::new();
    let mut i: usize = 0;
    assert(text::texts(items@) =~= seq![]);
    while i < segments.len()
        invariant
            i <= segments@.len(),
            segments@.map_values(|p: &str| p@) == all,
            text::texts(items@) == segments_values(all.take(i as int)),
            json::all_raw(text::texts(items@)),
            text::all_stand(text::texts(items@), input@),
            text::all_stand(all, input@),
        decreases segments.len() - i,
    {
        push_segment(&mut items, segments[i]);
        assert(all[i as int] == segments@[i as int]@);
        proof {
            lemma_all_stand_transitive(segment_values(all[i as int]), all[i as int], input@);
        }
        assert(all.take(i + 1).drop_last() =~= all.take(i as int));
        i = i + 1;
    }
    assert(all.take(all.len() as int) =~= all);
    if items.len() == 0 {
        let empty: String = String::new();
        assert(empty@ =~= seq![]);
        return Some(empty);
    }
    Some(text::bracket(&items))
}

/// The normal text before a start token.
pub fn try_parse_normal_text(input: &str, start_token: &str) -> (r: String)
    ensures
        r@ == text_before(input@, start_token@),
{
    match text::split_first(input, start_token) {
        Some((before, _)) => {
            if text::same_text(start_token, "[TOOL_CALLS]") {
                before.to_string()
            } else {
                text::trim(before).to_string()
            }
        },
        None => {
            let r: String = String::new();
            assert(r@ =~= seq![]);
            r
        },
    }
}

/// What a start and an end token extract from a text.
pub struct Content {
    pub payload: Seq<char>,
    /// A start token occurs and nothing usable follows it.
    pub blank: bool,
    /// The payload stands between a start and an end token.
    pub framed: bool,
    /// The body of a call that follows the framed ones and is not closed.
    pub trailing: Option<Seq<char>>,
    /// The payload lists the values that the start token announces.
    pub announced: bool,
}

/// The body of a last call that is not closed, where it is to be recovered.
pub open spec fn trailing_body(
    s: Seq<char>,
    start: Seq<char>,
    end: Seq<char>,
    c: config::JsonParserConfigView,
) -> Option<Seq<char>> {
    if c.recover_trailing_unclosed_call && c.allow_eof_recovery {
        unclosed_call(frames::after_frames(s, start, end), start)
    } else {
        None
    }
}

/// What one start token and one end token extract from `s`. An empty end token means that
/// nothing closes a call; an empty start token extracts nothing. Where a last call that is not
/// closed is recovered, empty bodies before it are left out.
pub open spec fn pair_content(
    s: Seq<char>,
    start: Seq<char>,
    end: Seq<char>,
    c: config::JsonParserConfigView,
) -> Option<Content> {
    if start.len() == 0 {
        None
    } else if end.len() == 0 {
        match announced_content(s, start) {
            Some(payload) => Some(
                Content {
                    payload,
                    blank: !(payload.len() > 0 && payload[0] == '['),
                    framed: false,
                    trailing: None,
                    announced: true,
                },
            ),
            None => None,
        }
    } else {
        match framed_content(s, start, end) {
            Some(payload) => match trailing_body(s, start, end, c) {
                Some(body) => {
                    let kept = joined_bodies(filled(closed_bodies(s, start, end)));
                    Some(
                        Content {
                            payload: kept,
                            blank: kept.len() == 0,
                            framed: true,
                            trailing: Some(body),
                            announced: false,
                        },
                    )
                },
                None => Some(
                    Content {
                        payload,
                        blank: payload.len() == 0,
                        framed: true,
                        trailing: None,
                        announced: false,
                    },
                ),
            },
            None => if c.allow_eof_recovery {
                match open_tail(s, start) {
                    Some(payload) => Some(
                        Content {
                            payload,
                            blank: false,
                            framed: false,
                            trailing: None,
                            announced: false,
                        },
                    ),
                    None => None,
                }
            } else {
                None
            },
        }
    }
}

/// What a start token extracts with the first of the end tokens that extracts something.
pub open spec fn content_of_start(
    s: Seq<char>,
    start: Seq<char>,
    ends: Seq<Seq<char>>,
    c: config::JsonParserConfigView,
) -> Option<Content>
    decreases ends.len(),
{
    if ends.len() == 0 {
        None
    } else {
        match pair_content(s, start, ends[0], c) {
            Some(content) => Some(content),
            None => content_of_start(s, start, ends.skip(1), c),
        }
    }
}

/// The first of the start tokens that extracts something, and what it extracts.
pub open spec fn content_of_any(
    s: Seq<char>,
    starts: Seq<Seq<char>>,
    ends: Seq<Seq<char>>,
    c: config::JsonParserConfigView,
) -> Option<(Seq<char>, Content)>
    decreases starts.len(),
{
    if starts.len() == 0 {
        None
    } else {
        match content_of_start(s, starts[0], ends, c) {
            Some(content) => Some((starts[0], content)),
            None => content_of_any(s, starts.skip(1), ends, c),
        }
    }
}

/// One of the tokens that are not empty stands in `s`.
pub open spec fn holds_token(s: Seq<char>, tokens: Seq<Seq<char>>) -> bool {
    exists|i: int|
        0 <= i < tokens.len() && (#[trigger] tokens[i]).len() > 0 && text::contains_text(
            s,
            tokens[i],
        )
}

/// The narration before a call: as it was emitted, white space that leads the message
/// included, or as the family trims it.
pub open spec fn narration(
    message: Seq<char>,
    before: Seq<char>,
    as_trimmed: Seq<char>,
    c: config::JsonParserConfigView,
) -> Seq<char> {
    if c.preserve_normal_text_whitespace {
        message.take(text::leading_white(message) as int) + before
    } else {
        as_trimmed
    }
}

/// A payload parted from the text before it.
pub struct Extraction {
    pub payload: Seq<char>,
    /// The text before it, as the family trims it.
    pub normal: Seq<char>,
    /// The text before it, as the family hands it on where a call is found.
    pub narrated: Seq<char>,
    pub blank: bool,
    pub framed: bool,
    pub trailing: Option<Seq<char>>,
    /// The start token that announces the values that the payload lists.
    pub announced: Option<Seq<char>>,
}

/// The payload of a message. Without a start token, or in bare mode, it begins at the
/// first opening brace or bracket; with one, the tokens extract it. Where nothing is
/// extracted, the whole text is both payload and normal text.
pub open spec fn extraction(message: Seq<char>, c: config::JsonParserConfigView) -> Extraction {
    let s = text::trimmed(message);
    let whole = Extraction {
        payload: s,
        normal: s,
        narrated: s,
        blank: false,
        framed: false,
        trailing: None,
        announced: None,
    };
    if c.bare_json_mode || !holds_token(s, c.start_tokens) {
        match text::first_opening(s, 0) {
            Some(i) => Extraction {
                payload: text::trimmed(s.skip(i)),
                normal: text::trimmed(s.take(i)),
                narrated: narration(message, s.take(i), text::trimmed(s.take(i)), c),
                ..whole
            },
            None => whole,
        }
    } else {
        match content_of_any(s, c.start_tokens, c.end_tokens, c) {
            Some((start, content)) => Extraction {
                payload: content.payload,
                normal: text_before(s, start),
                narrated: match text::around_first(s, start) {
                    Some(p) => narration(message, p.0, text_before(s, start), c),
                    None => seq![],
                },
                blank: content.blank,
                framed: content.framed,
                trailing: content.trailing,
                announced: if content.announced {
                    Some(start)
                } else {
                    None
                },
            },
            None => whole,
        }
    }
}

/// The calls in a payload that truncation left open, where there are any.
pub open spec fn repaired_calls(payload: Seq<char>, c: config::JsonParserConfigView) -> Option<
    Seq<CallText>,
> {
    if !(c.allow_eof_recovery && c.repair_truncated_body) {
        None
    } else {
        match json_repair::repaired(payload) {
            None => None,
            Some(whole) => match json_calls::recognized_calls(whole) {
                Some(calls) => if calls.len() > 0 {
                    Some(calls)
                } else {
                    None
                },
                None => None,
            },
        }
    }
}

/// The first of the tokens, passing over empty ones, that `s` begins with.
pub open spec fn leading_token(s: Seq<char>, tokens: Seq<Seq<char>>) -> Option<Seq<char>>
    decreases tokens.len(),
{
    if tokens.len() == 0 {
        None
    } else if tokens[0].len() > 0 && text::has_prefix(s, tokens[0]) {
        Some(tokens[0])
    } else {
        leading_token(s, tokens.skip(1))
    }
}

/// The first of the tokens, passing over empty ones, that `s` ends with.
pub open spec fn trailing_token(s: Seq<char>, tokens: Seq<Seq<char>>) -> Option<Seq<char>>
    decreases tokens.len(),
{
    if tokens.len() == 0 {
        None
    } else if tokens[0].len() > 0 && text::has_suffix(s, tokens[0]) {
        Some(tokens[0])
    } else {
        trailing_token(s, tokens.skip(1))
    }
}

/// `s` without the tokens, and the white space, that it begins with.
pub open spec fn without_leading(s: Seq<char>, tokens: Seq<Seq<char>>) -> Seq<char>
    decreases s.len(),
{
    let t = text::trimmed(s);
    match leading_token(t, tokens) {
        Some(token) => if 0 < token.len() <= t.len() <= s.len() {
            without_leading(t.skip(token.len() as int), tokens)
        } else {
            t
        },
        None => t,
    }
}

/// `s` without the tokens, and the white space, that it ends with.
pub open spec fn without_trailing(s: Seq<char>, tokens: Seq<Seq<char>>) -> Seq<char>
    decreases s.len(),
{
    let t = text::trimmed(s);
    match trailing_token(t, tokens) {
        Some(token) => if 0 < token.len() <= t.len() <= s.len() {
            without_trailing(t.take(t.len() - token.len()), tokens)
        } else {
            t
        },
        None => t,
    }
}

/// The payload without start tokens at its front and end tokens at its back. Tokens inside
/// it, such as in a string, stay.
pub open spec fn stripped(payload: Seq<char>, c: config::JsonParserConfigView) -> Seq<char> {
    without_trailing(without_leading(payload, c.start_tokens), c.end_tokens)
}

/// What parsing a message gives: calls, and the text that is no call.
pub struct Outcome {
    pub calls: Seq<CallText>,
    pub normal: Seq<char>,
}

/// Where no call was found, strict recovery strips the markers off and parses what is
/// left, or drops it.
pub open spec fn strict_recovery(s: Seq<char>, c: config::JsonParserConfigView) -> bool {
    &&& c.strip_markup_on_recovery
    &&& c.allow_eof_recovery
    &&& !c.bare_json_mode
    &&& holds_token(s, c.start_tokens) || holds_token(s, c.end_tokens)
}

/// What the payload of an extraction from the trimmed message `s` comes to. The narration is
/// kept as it was emitted only where a call is found.
pub open spec fn settled_payload(
    s: Seq<char>,
    e: Extraction,
    c: config::JsonParserConfigView,
) -> Outcome {
    match json_calls::recognized_calls(e.payload) {
        Some(calls) => Outcome {
            calls,
            normal: if calls.len() > 0 {
                e.narrated
            } else {
                e.normal
            },
        },
        None => match repaired_calls(e.payload, c) {
            Some(calls) => Outcome { calls, normal: e.narrated },
            None => if e.blank || (e.framed && c.drop_unusable_json_wrapper && json::json_raw(
                e.payload,
            ) is Some) {
                Outcome { calls: seq![], normal: seq![] }
            } else if strict_recovery(s, c) {
                Outcome {
                    calls: match json_calls::recognized_calls(stripped(e.payload, c)) {
                        Some(calls) => calls,
                        None => seq![],
                    },
                    normal: seq![],
                }
            } else {
                Outcome { calls: seq![], normal: s }
            },
        },
    }
}

/// The payload makes no call, repaired or not.
pub open spec fn makes_none(e: Extraction, c: config::JsonParserConfigView) -> bool {
    json_calls::recognized_calls(e.payload) is None && repaired_calls(e.payload, c) is None
}

/// The payload goes to strict recovery: it makes no call and is not dropped before.
pub open spec fn is_salvaged(s: Seq<char>, e: Extraction, c: config::JsonParserConfigView) -> bool {
    &&& makes_none(e, c)
    &&& !e.blank
    &&& !(e.framed && c.drop_unusable_json_wrapper && json::json_raw(e.payload) is Some)
    &&& strict_recovery(s, c)
}

/// Strict recovery takes over for a message.
pub open spec fn recovered_strictly(message: Seq<char>, c: config::JsonParserConfigView) -> bool {
    &&& text::trimmed(message).len() > 0
    &&& c.start_tokens.len() > 0
    &&& is_salvaged(text::trimmed(message), extraction(message, c), c)
}

/// The payload is neither empty nor JSON and comes back as text.
pub open spec fn is_unreadable(
    s: Seq<char>,
    e: Extraction,
    c: config::JsonParserConfigView,
) -> bool {
    &&& makes_none(e, c)
    &&& !e.blank
    &&& !strict_recovery(s, c)
    &&& json::json_raw(e.payload) is None
}

/// The call that follows the payload and is not closed. A payload that cannot be read comes back
/// as text, with all that follows it.
pub open spec fn trailing_call(
    s: Seq<char>,
    e: Extraction,
    c: config::JsonParserConfigView,
) -> Option<CallText> {
    match e.trailing {
        Some(body) => if is_unreadable(s, e, c) {
            None
        } else {
            json_calls::called(body)
        },
        None => None,
    }
}

/// What an extraction from the trimmed message `s` comes to: what its payload comes to and, where
/// a last call that is not closed is recovered, that call. Strict recovery lets no text pass.
pub open spec fn settled(s: Seq<char>, e: Extraction, c: config::JsonParserConfigView) -> Outcome {
    let closed = settled_payload(s, e, c);
    match trailing_call(s, e, c) {
        Some(call) => Outcome {
            calls: closed.calls.push(call),
            normal: if strict_recovery(s, c) && makes_none(e, c) {
                seq![]
            } else {
                e.narrated
            },
        },
        None => closed,
    }
}

/// What parsing a message gives.
pub open spec fn outcome(message: Seq<char>, c: config::JsonParserConfigView) -> Outcome {
    let s = text::trimmed(message);
    if s.len() == 0 {
        Outcome { calls: seq![], normal: seq![] }
    } else if c.start_tokens.len() == 0 && !c.bare_json_mode {
        Outcome { calls: seq![], normal: s }
    } else {
        settled(s, extraction(message, c), c)
    }
}

/// Whether a text holds one of the tokens that are not empty.
fn holds_any(s: &str, tokens: &Vec<String>) -> (r: bool)
    ensures
        r == holds_token(s@, text::texts(tokens@)),
{
    let ghost all = text::texts(tokens@);
    let mut i: usize = 0;
    while i < tokens.len()
        invariant
            i <= tokens@.len(),
            all == text::texts(tokens@),
            forall|k: int|
                0 <= k < i ==> (#[trigger] all[k]).len() == 0 || !text::contains_text(s@, all[k]),
        decreases tokens.len() - i,
    {
        assert(all[i as int] == tokens@[i as int]@);
        if tokens[i].as_str().unicode_len() > 0 && text::contains(s, tokens[i].as_str()) {
            return true;
        }
        i = i + 1;
    }
    false
}

/// A payload, whether nothing usable follows its start token, whether it is framed, the body of a
/// call that follows it and is not closed, and whether it lists announced values.
struct FoundContent {
    payload: String,
    blank: bool,
    framed: bool,
    trailing: Option<String>,
    announced: bool,
}

impl FoundContent {
    spec fn text(&self) -> Content {
        Content {
            payload: self.payload@,
            blank: self.blank,
            framed: self.framed,
            trailing: text::text_of(self.trailing),
            announced: self.announced,
        }
    }

    /// An announced payload lists the announced values, which are the texts of JSON values and
    /// stand in `s` as they are.
    spec fn announces_stretches(&self, s: Seq<char>, start: Seq<char>) -> bool {
        self.announced ==> {
            &&& self.trailing is None
            &&& self.blank == (self.payload@.len() == 0 || self.payload@[0] != '[')
            &&& announced_content(s, start) == Some(self.payload@)
            &&& json::all_raw(announced_values(s, start))
            &&& text::all_stand(announced_values(s, start), s)
        }
    }
}

/// Extracts with one start token and one end token.
fn extract_pair(
    s: &str,
    start_token: &str,
    end_token: &str,
    config: &JsonParserConfig,
) -> (r: Option<FoundContent>)
    ensures
        r matches Some(x) ==> pair_content(s@, start_token@, end_token@, config@) == Some(x.text()),
        r is None ==> pair_content(s@, start_token@, end_token@, config@) is None,
        r matches Some(x) ==> x.announces_stretches(s@, start_token@),
{
    if start_token.unicode_len() == 0 {
        return None;
    }
    if end_token.unicode_len() == 0 {
        return match handle_single_token_tool_calls(s, start_token) {
            Some(payload) => {
                let blank: bool = !text::starts_with_char(payload.as_str(), '[');
                Some(
                    FoundContent { payload, blank, framed: false, trailing: None, announced: true },
                )
            },
            None => None,
        };
    }
    if let Some(payload) = extract_tool_call_content(s, start_token, end_token) {
        if config.recover_trailing_unclosed_call && config.allow_eof_recovery {
            let rest: &str = frames::rest_after_frames(s, start_token, end_token);
            if let Some(body) = read_unclosed_call(rest, start_token) {
                let bodies: Vec<String> = read_closed_bodies(s, start_token, end_token);
                let kept: String = join_bodies(&drop_empty(&bodies));
                let blank: bool = kept.as_str().unicode_len() == 0;
                return Some(
                    FoundContent {
                        payload: kept,
                        blank,
                        framed: true,
                        trailing: Some(body),
                        announced: false,
                    },
                );
            }
        }
        let blank: bool = payload.as_str().unicode_len() == 0;
        return Some(
            FoundContent { payload, blank, framed: true, trailing: None, announced: false },
        );
    }
    if !config.allow_eof_recovery {
        return None;
    }
    match extract_tool_call_content_eof_recovery(s, start_token) {
        Some(payload) => Some(
            FoundContent {
                payload,
                blank: false,
                framed: false,
                trailing: None,
                announced: false,
            },
        ),
        None => None,
    }
}

/// Extracts with one start token and the end tokens in turn.
fn extract_with_start(s: &str, start_token: &str, config: &JsonParserConfig) -> (r: Option<
    FoundContent,
>)
    ensures
        r matches Some(x) ==> content_of_start(s@, start_token@, config@.end_tokens, config@)
            == Some(x.text()),
        r is None ==> content_of_start(s@, start_token@, config@.end_tokens, config@) is None,
        r matches Some(x) ==> x.announces_stretches(s@, start_token@),
{
    let ends: &Vec<String> = &config.tool_call_end_tokens;
    let ghost all = config@.end_tokens;
    let mut i: usize = 0;
    assert(all.skip(0) =~= all);
    while i < ends.len()
        invariant
            ends == config.tool_call_end_tokens,
            all == text::texts(ends@),
            i <= ends@.len(),
            content_of_start(s@, start_token@, all, config@) == content_of_start(
                s@,
                start_token@,
                all.skip(i as int),
                config@,
            ),
        decreases ends.len() - i,
    {
        assert(all[i as int] == ends@[i as int]@);
        assert(all.skip(i as int)[0] == all[i as int]);
        assert(all.skip(i as int).skip(1) =~= all.skip(i + 1));
        if let Some(x) = extract_pair(s, start_token, ends[i].as_str(), config) {
            return Some(x);
        }
        i = i + 1;
    }
    None
}

/// A payload parted from the text before it.
struct PartedMessage {
    payload: String,
    normal: String,
    narrated: String,
    blank: bool,
    framed: bool,
    trailing: Option<String>,
    announced: Option<String>,
}

impl PartedMessage {
    spec fn text(&self) -> Extraction {
        Extraction {
            payload: self.payload@,
            normal: self.normal@,
            narrated: self.narrated@,
            blank: self.blank,
            framed: self.framed,
            trailing: text::text_of(self.trailing),
            announced: text::text_of(self.announced),
        }
    }

    fn whole(s: &str) -> (r: Self)
        ensures
            r.text() == (Extraction {
                payload: s@,
                normal: s@,
                narrated: s@,
                blank: false,
                framed: false,
                trailing: None,
                announced: None,
            }),
    {
        PartedMessage {
            payload: s.to_string(),
            normal: s.to_string(),
            narrated: s.to_string(),
            blank: false,
            framed: false,
            trailing: None,
            announced: None,
        }
    }
}

/// The narration before a call.
fn narrate(
    message: &str,
    before: &str,
    as_trimmed: String,
    config: &JsonParserConfig,
) -> (r: String)
    ensures
        r@ == narration(message@, before@, as_trimmed@, config@),
{
    if !config.preserve_normal_text_whitespace {
        return as_trimmed;
    }
    proof {
        text::lemma_trimmed_start(message@);
    }
    let n: usize = message.unicode_len();
    let m: usize = text::trim_start(message).unicode_len();
    let lead: &str = message.substring_char(0, n - m);
    assert(lead@ =~= message@.take(text::leading_white(message@) as int));
    let mut out: String = lead.to_string();
    out.append(before);
    out
}

/// Parts the payload of a message from the text before it.
fn extract(message: &str, s: &str, config: &JsonParserConfig) -> (r: PartedMessage)
    requires
        s@ == text::trimmed(message@),
    ensures
        r.text() == extraction(message@, config@),
        r.announced matches Some(start) ==> r.trailing is None && json::all_raw(
            announced_values(s@, start@),
        ) && text::all_stand(announced_values(s@, start@), s@) && announced_content(s@, start@)
            == Some(r.payload@) && r.blank == (r.payload@.len() == 0 || r.payload@[0] != '['),
{
    if config.bare_json_mode || !holds_any(s, &config.tool_call_start_tokens) {
        return match text::find_opening(s) {
            Some(i) => {
                let n: usize = s.unicode_len();
                let before: &str = s.substring_char(0, i);
                let after: &str = s.substring_char(i, n);
                assert(before@ =~= s@.take(i as int));
                assert(after@ =~= s@.skip(i as int));
                PartedMessage {
                    payload: text::trim(after).to_string(),
                    normal: text::trim(before).to_string(),
                    narrated: narrate(message, before, text::trim(before).to_string(), config),
                    blank: false,
                    framed: false,
                    trailing: None,
                    announced: None,
                }
            },
            None => PartedMessage::whole(s),
        };
    }
    let starts: &Vec<String> = &config.tool_call_start_tokens;
    let ghost all = config@.start_tokens;
    let mut i: usize = 0;
    assert(all.skip(0) =~= all);
    while i < starts.len()
        invariant
            s@ == text::trimmed(message@),
            !config@.bare_json_mode,
            holds_token(s@, config@.start_tokens),
            starts == config.tool_call_start_tokens,
            all == text::texts(starts@),
            all == config@.start_tokens,
            i <= starts@.len(),
            content_of_any(s@, all, config@.end_tokens, config@) == content_of_any(
                s@,
                all.skip(i as int),
                config@.end_tokens,
                config@,
            ),
        decreases starts.len() - i,
    {
        assert(all[i as int] == starts@[i as int]@);
        assert(all.skip(i as int)[0] == all[i as int]);
        assert(all.skip(i as int).skip(1) =~= all.skip(i + 1));
        let start_token: &str = starts[i].as_str();
        if let Some(x) = extract_with_start(s, start_token, config) {
            let as_trimmed: String = try_parse_normal_text(s, start_token);
            let normal: String = as_trimmed.clone();
            let narrated: String = match text::split_first(s, start_token) {
                Some((before, _)) => narrate(message, before, as_trimmed, config),
                None => as_trimmed,
            };
            return PartedMessage {
                payload: x.payload,
                normal,
                narrated,
                blank: x.blank,
                framed: x.framed,
                trailing: x.trailing,
                announced: if x.announced {
                    Some(start_token.to_string())
                } else {
                    None
                },
            };
        }
        i = i + 1;
    }
    PartedMessage::whole(s)
}

/// What follows the first of the tokens that a text begins with.
fn drop_leading_token<'a>(s: &'a str, tokens: &Vec<String>) -> (r: Option<&'a str>)
    ensures
        r matches Some(rest) ==> leading_token(s@, text::texts(tokens@)) matches Some(token) && 0
            < token.len() <= s@.len() && rest@ == s@.skip(token.len() as int),
        r is None ==> leading_token(s@, text::texts(tokens@)) is None,
{
    let ghost all = text::texts(tokens@);
    let mut i: usize = 0;
    assert(all.skip(0) =~= all);
    while i < tokens.len()
        invariant
            all == text::texts(tokens@),
            i <= tokens@.len(),
            leading_token(s@, all) == leading_token(s@, all.skip(i as int)),
        decreases tokens.len() - i,
    {
        assert(all[i as int] == tokens@[i as int]@);
        assert(all.skip(i as int)[0] == all[i as int]);
        assert(all.skip(i as int).skip(1) =~= all.skip(i + 1));
        if tokens[i].as_str().unicode_len() > 0 {
            if let Some(rest) = text::strip_prefix(s, tokens[i].as_str()) {
                return Some(rest);
            }
        }
        i = i + 1;
    }
    None
}

/// What precedes the first of the tokens that a text ends with.
fn drop_trailing_token<'a>(s: &'a str, tokens: &Vec<String>) -> (r: Option<&'a str>)
    ensures
        r matches Some(rest) ==> trailing_token(s@, text::texts(tokens@)) matches Some(token) && 0
            < token.len() <= s@.len() && rest@ == s@.take(s@.len() - token.len()),
        r is None ==> trailing_token(s@, text::texts(tokens@)) is None,
{
    let ghost all = text::texts(tokens@);
    let mut i: usize = 0;
    assert(all.skip(0) =~= all);
    while i < tokens.len()
        invariant
            all == text::texts(tokens@),
            i <= tokens@.len(),
            trailing_token(s@, all) == trailing_token(s@, all.skip(i as int)),
        decreases tokens.len() - i,
    {
        assert(all[i as int] == tokens@[i as int]@);
        assert(all.skip(i as int)[0] == all[i as int]);
        assert(all.skip(i as int).skip(1) =~= all.skip(i + 1));
        if tokens[i].as_str().unicode_len() > 0 {
            if let Some(rest) = text::strip_suffix(s, tokens[i].as_str()) {
                return Some(rest);
            }
        }
        i = i + 1;
    }
    None
}

/// Strips tokens off the front of a text.
fn strip_leading<'a>(s: &'a str, tokens: &Vec<String>) -> (r: &'a str)
    ensures
        r@ == without_leading(s@, text::texts(tokens@)),
{
    let mut rest: &'a str = s;
    loop
        invariant
            without_leading(rest@, text::texts(tokens@)) == without_leading(
                s@,
                text::texts(tokens@),
            ),
        decreases rest@.len(),
    {
        let t: &'a str = text::trim(rest);
        proof {
            text::lemma_trimmed(rest@);
        }
        match drop_leading_token(t, tokens) {
            Some(next) => {
                rest = next;
            },
            None => {
                return t;
            },
        }
    }
}

/// Strips tokens off the back of a text.
fn strip_trailing<'a>(s: &'a str, tokens: &Vec<String>) -> (r: &'a str)
    ensures
        r@ == without_trailing(s@, text::texts(tokens@)),
{
    let mut rest: &'a str = s;
    loop
        invariant
            without_trailing(rest@, text::texts(tokens@)) == without_trailing(
                s@,
                text::texts(tokens@),
            ),
        decreases rest@.len(),
    {
        let t: &'a str = text::trim(rest);
        proof {
            text::lemma_trimmed(rest@);
        }
        match drop_trailing_token(t, tokens) {
            Some(next) => {
                rest = next;
            },
            None => {
                return t;
            },
        }
    }
}

/// Strips start tokens off the front of a payload and end tokens off its back.
fn strip_markers<'a>(payload: &'a str, config: &JsonParserConfig) -> (r: &'a str)
    ensures
        r@ == stripped(payload@, config@),
{
    strip_trailing(
        strip_leading(payload, &config.tool_call_start_tokens),
        &config.tool_call_end_tokens,
    )
}

/// What came of reading a payload.
pub enum Reading {
    /// The payload, as it is or repaired, was recognized as these calls.
    Recognized(Vec<ToolCallResponse>),
    /// The payload is not usable and is dropped.
    Dropped,
    /// The payload was read again without its markers; these calls were recognized.
    Salvaged(Option<Vec<ToolCallResponse>>),
    /// The payload is JSON that makes no call, and comes back as text.
    Unusable,
    /// The payload is no call.
    Unread,
}

/// The calls that a reading found.
pub open spec fn reading_calls(reading: Reading) -> Seq<ToolCallResponse> {
    match reading {
        Reading::Recognized(calls) => calls@,
        Reading::Salvaged(Some(calls)) => calls@,
        _ => seq![],
    }
}

/// The text that a reading lets pass: the narration as it was emitted where it found a call, the
/// trimmed narration where the payload was recognized without one, the whole trimmed message
/// where the payload comes back as text.
pub open spec fn reading_text(
    reading: Reading,
    trimmed: Seq<char>,
    normal: Seq<char>,
    narrated: Seq<char>,
) -> Seq<char> {
    match reading {
        Reading::Recognized(calls) => if calls@.len() > 0 {
            narrated
        } else {
            normal
        },
        Reading::Salvaged(_) => seq![],
        Reading::Dropped => seq![],
        Reading::Unusable => trimmed,
        Reading::Unread => trimmed,
    }
}

/// The calls and the normal text that a reading comes to. A last call that is not closed follows
/// those of the reading, with the narration before it; after a payload that is unread it is text.
pub fn settle(
    reading: Reading,
    trailing: Option<ToolCallResponse>,
    trimmed: &str,
    normal_text: String,
    narrated: String,
) -> (r: (Vec<ToolCallResponse>, Option<String>))
    ensures
        r.1 is Some,
        trailing is Some && !(reading is Unread) ==> r.0@ == reading_calls(reading).push(
            trailing.unwrap(),
        ) && r.1 == Some(narrated),
        trailing is None || reading is Unread ==> r.0@ == reading_calls(reading)
            && r.1.unwrap()@ == reading_text(reading, trimmed@, normal_text@, narrated@),
{
    let unread: bool = matches!(reading, Reading::Unread);
    let (calls, text) = match reading {
        Reading::Recognized(calls) => {
            if calls.len() > 0 {
                (calls, narrated.clone())
            } else {
                (calls, normal_text)
            }
        },
        Reading::Salvaged(Some(calls)) => (calls, String::new()),
        Reading::Salvaged(None) => (Vec::new(), String::new()),
        Reading::Dropped => (Vec::new(), String::new()),
        Reading::Unusable => (Vec::new(), trimmed.to_string()),
        Reading::Unread => (Vec::new(), trimmed.to_string()),
    };
    let mut calls: Vec<ToolCallResponse> = calls;
    if let Some(call) = trailing {
        if !unread {
            calls.push(call);
            return (calls, Some(narrated));
        }
    }
    (calls, Some(text))
}

/// The number of bytes that UTF-8 takes for a character.
pub open spec fn utf8_width(c: char) -> nat {
    if c <= '\u{7f}' {
        1
    } else if c <= '\u{7ff}' {
        2
    } else if c <= '\u{ffff}' {
        3
    } else {
        4
    }
}

/// The number of bytes that UTF-8 takes for a text.
pub open spec fn utf8_len(s: Seq<char>) -> nat
    decreases s.len(),
{
    if s.len() == 0 {
        0
    } else {
        utf8_len(s.drop_last()) + utf8_width(s.last())
    }
}

/// A prefix of a start token shows in `s`: as the whole of it, anywhere in it where the
/// prefix takes at least three bytes, else at its end.
pub open spec fn prefix_shows(s: Seq<char>, prefix: Seq<char>) -> bool {
    ||| s == prefix
    ||| utf8_len(prefix) >= 3 && text::contains_text(s, prefix)
    ||| utf8_len(prefix) < 3 && text::has_suffix(s, prefix)
}

/// A start token, or a part of it that more text may complete, shows in `s`.
pub open spec fn token_may_start(s: Seq<char>, token: Seq<char>) -> bool {
    exists|n: int| 0 < n <= token.len() && prefix_shows(s, #[trigger] token.take(n))
}

/// The text holds an opening brace or bracket.
pub open spec fn has_opening(s: Seq<char>) -> bool {
    exists|i: int| 0 <= i < s.len() && (#[trigger] s[i] == '{' || s[i] == '[')
}

/// A tool call may start in the chunk.
pub open spec fn detects(chunk: Seq<char>, c: config::JsonParserConfigView) -> bool {
    let s = text::trimmed(chunk);
    &&& s.len() > 0
    &&& {
        ||| holds_token(s, c.start_tokens)
        ||| exists|i: int|
            0 <= i < c.start_tokens.len() && token_may_start(s, #[trigger] c.start_tokens[i])
        ||| has_opening(s)
    }
}

proof fn lemma_first_opening(s: Seq<char>, from: int)
    requires
        0 <= from,
    ensures
        text::first_opening(s, from) matches Some(i) ==> from <= i < s.len(),
        text::first_opening(s, from) is Some <==> exists|i: int|
            from <= i < s.len() && (#[trigger] s[i] == '{' || s[i] == '['),
    decreases s.len() - from,
{
    if from < s.len() && s[from] != '{' && s[from] != '[' {
        lemma_first_opening(s, from + 1);
    }
}

/// Whether a text takes at least three bytes in UTF-8.
fn takes_three_bytes(v: &Vec<char>, n: usize) -> (r: bool)
    requires
        n <= v@.len(),
    ensures
        r == (utf8_len(v@.take(n as int)) >= 3),
{
    let mut total: usize = 0;
    let mut i: usize = 0;
    while i < n && total < 3
        invariant
            i <= n <= v@.len(),
            total == utf8_len(v@.take(i as int)),
            total <= 6,
        decreases n - i,
    {
        let c: char = v[i];
        let width: usize = if c <= '\u{7f}' {
            1
        } else if c <= '\u{7ff}' {
            2
        } else if c <= '\u{ffff}' {
            3
        } else {
            4
        };
        assert(v@.take(i + 1).drop_last() =~= v@.take(i as int));
        total = total + width;
        i = i + 1;
    }
    proof {
        lemma_utf8_len_grows(v@, i as int, n as int);
    }
    total >= 3
}

proof fn lemma_utf8_len_grows(s: Seq<char>, m: int, n: int)
    requires
        0 <= m <= n <= s.len(),
    ensures
        utf8_len(s.take(m)) <= utf8_len(s.take(n)),
    decreases n,
{
    if m < n {
        lemma_utf8_len_grows(s, m, n - 1);
        assert(s.take(n).drop_last() =~= s.take(n - 1));
    }
}

/// Whether a start token, or a part of it, shows in a text.
fn may_start(s: &str, token: &str) -> (r: bool)
    ensures
        r == token_may_start(s@, token@),
{
    let v: Vec<char> = text::chars_of(token);
    let mut n: usize = 1;
    while n <= v.len()
        invariant
            v@ == token@,
            1 <= n <= v@.len() + 1,
            forall|k: int| 0 < k < n ==> !prefix_shows(s@, #[trigger] token@.take(k)),
        decreases v.len() + 1 - n,
    {
        let prefix: &str = token.substring_char(0, n);
        assert(prefix@ =~= token@.take(n as int));
        let shows: bool = text::same_text(s, prefix) || if takes_three_bytes(&v, n) {
            text::contains(s, prefix)
        } else {
            text::strip_suffix(s, prefix).is_some()
        };
        assert(shows == prefix_shows(s@, token@.take(n as int)));
        if shows {
            return true;
        }
        if n == v.len() {
            return false;
        }
        n = n + 1;
    }
    false
}

/// Whether a tool call may start in a chunk of a stream: it holds a start token, a part of
/// one that the next chunk may complete, or an opening brace or bracket.
pub fn detect_tool_call_start_basic_json(chunk: &str, config: &JsonParserConfig) -> (r: bool)
    ensures
        r == detects(chunk@, config@),
{
    let s: &str = text::trim(chunk);
    if s.unicode_len() == 0 {
        return false;
    }
    if holds_any(s, &config.tool_call_start_tokens) {
        return true;
    }
    let tokens: &Vec<String> = &config.tool_call_start_tokens;
    let ghost all = config@.start_tokens;
    let mut i: usize = 0;
    while i < tokens.len()
        invariant
            tokens == config.tool_call_start_tokens,
            all == config@.start_tokens,
            all == text::texts(tokens@),
            s@ == text::trimmed(chunk@),
            s@.len() > 0,
            i <= tokens@.len(),
            forall|k: int| 0 <= k < i ==> !token_may_start(s@, #[trigger] all[k]),
        decreases tokens.len() - i,
    {
        assert(all[i as int] == tokens@[i as int]@);
        if may_start(s, tokens[i].as_str()) {
            return true;
        }
        i = i + 1;
    }
    proof {
        lemma_first_opening(s@, 0);
    }
    text::find_opening(s).is_some()
}

proof fn lemma_opens_json(s: Seq<char>)
    requires
        json_calls::opens_json(s),
    ensures
        has_opening(s),
        text::trimmed(s) == s ==> begins_open(s),
{
    text::lemma_trimmed_start(s);
    text::lemma_trimmed(s);
    let n = text::leading_white(s) as int;
    assert(s[n] == text::trimmed_start(s)[0]);
    if text::trimmed(s) == s {
        assert(!text::is_white_space(s[0]));
        assert(n == 0);
    }
}

proof fn lemma_trimmed_opens_nothing(s: Seq<char>)
    requires
        !has_opening(s),
    ensures
        !has_opening(text::trimmed(s)),
        text::trimmed(s).len() <= s.len(),
{
    text::lemma_trimmed(s);
    let t = text::trimmed(s);
    if has_opening(t) {
        let i = choose|i: int| 0 <= i < t.len() && (#[trigger] t[i] == '{' || t[i] == '[');
        assert(s[text::leading_white(s) + i] == t[i]);
    }
}

proof fn lemma_stretch_opens_nothing(s: Seq<char>, i: int, j: int)
    requires
        !has_opening(s),
        0 <= i <= j <= s.len(),
    ensures
        !has_opening(s.subrange(i, j)),
{
    let t = s.subrange(i, j);
    if has_opening(t) {
        let k = choose|k: int| 0 <= k < t.len() && (#[trigger] t[k] == '{' || t[k] == '[');
        assert(s[i + k] == t[k]);
    }
}

proof fn lemma_without_leading_opens_nothing(s: Seq<char>, tokens: Seq<Seq<char>>)
    requires
        !has_opening(s),
    ensures
        !has_opening(without_leading(s, tokens)),
    decreases s.len(),
{
    lemma_trimmed_opens_nothing(s);
    let t = text::trimmed(s);
    if let Some(token) = leading_token(t, tokens) {
        if 0 < token.len() <= t.len() {
            let n = token.len() as int;
            lemma_stretch_opens_nothing(t, n, t.len() as int);
            assert(t.skip(n) =~= t.subrange(n, t.len() as int));
            lemma_without_leading_opens_nothing(t.skip(n), tokens);
        }
    }
}

proof fn lemma_without_trailing_opens_nothing(s: Seq<char>, tokens: Seq<Seq<char>>)
    requires
        !has_opening(s),
    ensures
        !has_opening(without_trailing(s, tokens)),
    decreases s.len(),
{
    lemma_trimmed_opens_nothing(s);
    let t = text::trimmed(s);
    if let Some(token) = trailing_token(t, tokens) {
        if 0 < token.len() <= t.len() {
            let n = t.len() - token.len();
            lemma_stretch_opens_nothing(t, 0, n);
            assert(t.take(n) =~= t.subrange(0, n));
            lemma_without_trailing_opens_nothing(t.take(n), tokens);
        }
    }
}

/// No end token has come yet.
pub open spec fn no_end_token(s: Seq<char>, ends: Seq<Seq<char>>) -> bool {
    forall|i: int|
        0 <= i < ends.len() ==> (#[trigger] ends[i]).len() > 0 && !text::contains_text(s, ends[i])
}

proof fn lemma_nothing_framed(s: Seq<char>, start: Seq<char>, end: Seq<char>)
    requires
        !text::contains_text(s, end),
    ensures
        framed_content(s, start, end) is None,
{
    text::lemma_first_at(s, start, 0);
    if let Some(p) = text::around_first(s, start) {
        let from = s.len() - p.1.len();
        text::lemma_contains_text(p.1, end);
        assert(s.subrange(from, s.len() as int) =~= p.1);
        assert(text::occurs_at(s, p.1, from));
        if text::contains_text(p.1, end) {
            text::lemma_stretch_contains(s, from, p.1, end);
        }
    }
    assert(frames::framed(s, start, end) =~= seq![]);
}

proof fn lemma_start_extracts_nothing(
    s: Seq<char>,
    start: Seq<char>,
    ends: Seq<Seq<char>>,
    c: config::JsonParserConfigView,
)
    requires
        !c.allow_eof_recovery,
        no_end_token(s, ends),
    ensures
        content_of_start(s, start, ends, c) is None,
    decreases ends.len(),
{
    if ends.len() > 0 {
        assert(ends[0].len() > 0);
        lemma_nothing_framed(s, start, ends[0]);
        let rest = ends.skip(1);
        assert forall|i: int| 0 <= i < rest.len() implies (#[trigger] rest[i]).len() > 0
            && !text::contains_text(s, rest[i]) by {
            assert(rest[i] == ends[i + 1]);
        }
        lemma_start_extracts_nothing(s, start, rest, c);
    }
}

proof fn lemma_tokens_extract_nothing(
    s: Seq<char>,
    starts: Seq<Seq<char>>,
    ends: Seq<Seq<char>>,
    c: config::JsonParserConfigView,
)
    requires
        !c.allow_eof_recovery,
        no_end_token(s, ends),
    ensures
        content_of_any(s, starts, ends, c) is None,
    decreases starts.len(),
{
    if starts.len() > 0 {
        lemma_start_extracts_nothing(s, starts[0], ends, c);
        lemma_tokens_extract_nothing(s, starts.skip(1), ends, c);
    }
}

/// The trimmed text `s` is a call that a start token has opened and that more text has to
/// close.
pub open spec fn awaits_end(s: Seq<char>, c: config::JsonParserConfigView) -> bool {
    &&& !c.allow_eof_recovery
    &&& !c.bare_json_mode
    &&& holds_token(s, c.start_tokens)
    &&& no_end_token(s, c.end_tokens)
    &&& !begins_open(s)
}

/// The trimmed text `s` holds nothing that tells of a call.
pub open spec fn is_plain(s: Seq<char>, c: config::JsonParserConfigView) -> bool {
    &&& !has_opening(s)
    &&& c.bare_json_mode || !holds_token(s, c.start_tokens)
    &&& !strict_recovery(s, c)
}

/// The arguments of each call stand in the message as they are.
pub open spec fn all_verbatim(calls: Seq<ToolCallResponse>, message: Seq<char>) -> bool {
    forall|i: int|
        0 <= i < calls.len() ==> text::contains_text(
            message,
            (#[trigger] calls[i]).function.arguments@,
        )
}

proof fn lemma_all_verbatim(
    calls: Seq<ToolCallResponse>,
    values: Seq<Seq<char>>,
    message: Seq<char>,
)
    requires
        json_calls::arguments_stand(calls, values),
        text::all_stand(values, message),
    ensures
        all_verbatim(calls, message),
{
    assert forall|i: int| 0 <= i < calls.len() implies text::contains_text(
        message,
        (#[trigger] calls[i]).function.arguments@,
    ) by {
        text::lemma_stands_in_one(values, message, calls[i].function.arguments@);
    }
}

proof fn lemma_after_frames_stands(s: Seq<char>, start: Seq<char>, end: Seq<char>)
    ensures
        text::contains_text(s, frames::after_frames(s, start, end)),
    decreases s.len(),
{
    assert(s.subrange(0, s.len() as int) =~= s);
    assert(text::occurs_at(s, s, 0));
    text::lemma_around_first_stands(s, start);
    if let Some((_, after)) = text::around_first(s, start) {
        text::lemma_around_first_stands(after, end);
        if let Some((_, rest)) = text::around_first(after, end) {
            text::lemma_contains_transitive(s, after, rest);
            if rest.len() < s.len() {
                lemma_after_frames_stands(rest, start, end);
                text::lemma_contains_transitive(s, rest, frames::after_frames(rest, start, end));
            }
        }
    }
}

proof fn lemma_trailing_body_stands(
    s: Seq<char>,
    start: Seq<char>,
    ends: Seq<Seq<char>>,
    c: config::JsonParserConfigView,
)
    ensures
        content_of_start(s, start, ends, c) matches Some(content) ==> (content.trailing matches Some(
            body,
        ) ==> text::contains_text(s, body) && json_calls::called(body) is Some && body.len() > 0
            && body[0] == '{' && c.recover_trailing_unclosed_call && c.allow_eof_recovery),
    decreases ends.len(),
{
    if ends.len() > 0 {
        let rest = frames::after_frames(s, start, ends[0]);
        lemma_after_frames_stands(s, start, ends[0]);
        text::lemma_around_first_stands(rest, start);
        if let Some(p) = text::around_first(rest, start) {
            text::lemma_trimmed_stands(p.1);
            text::lemma_contains_transitive(rest, p.1, text::trimmed(p.1));
            text::lemma_contains_transitive(s, rest, text::trimmed(p.1));
        }
        lemma_trailing_body_stands(s, start, ends.skip(1), c);
    }
}

proof fn lemma_any_trailing_body_stands(
    s: Seq<char>,
    starts: Seq<Seq<char>>,
    ends: Seq<Seq<char>>,
    c: config::JsonParserConfigView,
)
    ensures
        content_of_any(s, starts, ends, c) matches Some(p) ==> (p.1.trailing matches Some(body)
            ==> text::contains_text(s, body) && json_calls::called(body) is Some && body.len() > 0
            && body[0] == '{' && c.recover_trailing_unclosed_call && c.allow_eof_recovery),
    decreases starts.len(),
{
    if starts.len() > 0 {
        lemma_trailing_body_stands(s, starts[0], ends, c);
        lemma_any_trailing_body_stands(s, starts.skip(1), ends, c);
    }
}

/// A last call that is recovered though it is not closed stands in the message as it is, after a
/// start token; it is an object, and is recovered only where the family does so and the stream has
/// ended.
pub proof fn law_trailing_call_stands_in_the_message(
    message: Seq<char>,
    c: config::JsonParserConfigView,
)
    ensures
        extraction(message, c).trailing matches Some(body) ==> {
            &&& text::contains_text(message, body)
            &&& json_calls::called(body) is Some
            &&& body.len() > 0
            &&& body[0] == '{'
            &&& c.recover_trailing_unclosed_call
            &&& c.allow_eof_recovery
            &&& !c.bare_json_mode
            &&& holds_token(text::trimmed(message), c.start_tokens)
        },
{
    let s = text::trimmed(message);
    lemma_any_trailing_body_stands(s, c.start_tokens, c.end_tokens, c);
    text::lemma_trimmed_stands(message);
    if let Some(body) = extraction(message, c).trailing {
        text::lemma_contains_transitive(message, s, body);
    }
}

/// A failure to parse a message.
#[derive(Clone, Debug, PartialEq, Eq)]
pub struct ToolCallParseError {
    pub message: String,
}

/// Reads the payload of a message.
fn read_payload(e: &PartedMessage, s: &str, config: &JsonParserConfig) -> (r: Reading)
    ensures
        response::calls_ask(reading_calls(r), settled_payload(s@, e.text(), config@).calls),
        reading_text(r, s@, e.normal@, e.narrated@) == settled_payload(
            s@,
            e.text(),
            config@,
        ).normal,
        r is Recognized <==> !makes_none(e.text(), config@),
        r is Salvaged <==> is_salvaged(s@, e.text(), config@),
        e.trailing is Some ==> (r is Unread <==> is_unreadable(s@, e.text(), config@)),
        json_calls::recognized_calls(e.payload@) is Some ==> all_verbatim(
            reading_calls(r),
            e.payload@,
        ),
        makes_none(e.text(), config@) ==> all_verbatim(
            reading_calls(r),
            stripped(e.payload@, config@),
        ),
        forall|values: Seq<Seq<char>>|
            json::all_raw(values) && e.payload@ == #[trigger] text::bracketed(values)
                ==> json_calls::recognized_calls(e.payload@) == Some(
                json_calls::item_calls(values),
            ) && json_calls::arguments_stand(reading_calls(r), values),
        !json_calls::opens_json(e.payload@) ==> json_calls::recognized_calls(e.payload@) is None,
        json::opens_with(e.payload@, '{') ==> json::json_items(e.payload@) is None
            && json::json_pair(e.payload@) is None,
        !has_opening(e.payload@) ==> makes_none(e.text(), config@) && reading_calls(r).len() == 0,
{
    let payload: &str = e.payload.as_str();
    proof {
        if !has_opening(payload@) {
            json_repair::lemma_repair_opens_nothing(payload@);
            lemma_without_leading_opens_nothing(payload@, config@.start_tokens);
            lemma_without_trailing_opens_nothing(
                without_leading(payload@, config@.start_tokens),
                config@.end_tokens,
            );
        }
    }
    if let Some(calls) = parse_calls(payload) {
        proof {
            lemma_opens_json(payload@);
        }
        return Reading::Recognized(calls);
    }
    if config.allow_eof_recovery && config.repair_truncated_body {
        if let Some(whole) = try_repair_truncated_json(payload) {
            if let Some(calls) = parse_calls(whole.as_str()) {
                proof {
                    lemma_opens_json(whole@);
                }
                if calls.len() > 0 {
                    return Reading::Recognized(calls);
                }
            }
        }
    }
    if e.blank {
        return Reading::Dropped;
    }
    if e.framed && config.drop_unusable_json_wrapper && json::read_raw(payload).is_some() {
        return Reading::Dropped;
    }
    if recovers_strictly(s, config) {
        let salvaged: Option<Vec<ToolCallResponse>> = parse_calls(strip_markers(payload, config));
        proof {
            if salvaged is Some {
                lemma_opens_json(stripped(payload@, config@));
            }
        }
        return Reading::Salvaged(salvaged);
    }
    if e.trailing.is_some() && json::read_raw(payload).is_some() {
        return Reading::Unusable;
    }
    Reading::Unread
}

/// Whether strict recovery takes over where no call was found.
fn recovers_strictly(s: &str, config: &JsonParserConfig) -> (r: bool)
    ensures
        r == strict_recovery(s@, config@),
{
    config.strip_markup_on_recovery && config.allow_eof_recovery && !config.bare_json_mode && (
    holds_any(s, &config.tool_call_start_tokens) || holds_any(s, &config.tool_call_end_tokens))
}

proof fn lemma_verbatim_in(calls: Seq<ToolCallResponse>, t: Seq<char>, s: Seq<char>)
    requires
        all_verbatim(calls, t),
        text::contains_text(s, t),
    ensures
        all_verbatim(calls, s),
{
    assert forall|i: int| 0 <= i < calls.len() implies text::contains_text(
        s,
        (#[trigger] calls[i]).function.arguments@,
    ) by {
        text::lemma_contains_transitive(s, t, calls[i].function.arguments@);
    }
}

/// The calls that follow from an extraction: `calls`, and the last call where one is recovered.
pub open spec fn with_trailing(calls: Seq<CallText>, e: Extraction) -> Seq<CallText> {
    match e.trailing {
        Some(body) => match json_calls::called(body) {
            Some(call) => calls.push(call),
            None => calls,
        },
        None => calls,
    }
}

/// Parses the output of a model into tool calls and the text that is no call. The calls may
/// stand between tokens, after a start token, or bare; each is an object with the name of a
/// function and its arguments, or an array of such objects.
///
/// Parsing never fails. Where a message yields calls, a call may be detected in it. Text
/// that tells of no call, and a call that still awaits its end token, come back as they are,
/// trimmed. The arguments of a call stand in the message as they are, where the payload
/// stands in it and is recognized without repair, and where strict recovery finds the call in
/// what is left of the payload without its markers, if that stands in the message. Where a
/// start token extracts with an empty end token, the calls are those that the announced values
/// make, and their arguments stand in the message as they are. Where the tokens frame several
/// JSON values, the calls are those that these values make, and the last call where it is
/// recovered. Where the payload is an object whose one member `name` is a string, and whose
/// arguments stand under one member, there is one call, with exactly the characters of that
/// string for its name and exactly the text of that member for its arguments.
pub fn try_tool_call_parse_basic_json(
    message: &str,
    config: &JsonParserConfig,
    _tools: Option<&[ToolDefinition]>,
) -> (r: Result<(Vec<ToolCallResponse>, Option<String>), ToolCallParseError>)
    ensures
        r is Ok,
        r.unwrap().1 is Some,
        response::calls_ask(r.unwrap().0@, outcome(message@, config@).calls),
        r.unwrap().1.unwrap()@ == outcome(message@, config@).normal,
        r.unwrap().0@.len() > 0 ==> detects(message@, config@),
        is_plain(text::trimmed(message@), config@) || awaits_end(text::trimmed(message@), config@)
            ==> r.unwrap().0@.len() == 0 && r.unwrap().1.unwrap()@ == text::trimmed(message@),
        json_calls::recognized_calls(extraction(message@, config@).payload) is Some
            && text::contains_text(message@, extraction(message@, config@).payload)
            ==> all_verbatim(r.unwrap().0@, message@),
        makes_none(extraction(message@, config@), config@) && text::contains_text(
            message@,
            stripped(extraction(message@, config@).payload, config@),
        ) ==> all_verbatim(r.unwrap().0@, message@),
        extraction(message@, config@).announced matches Some(start) ==> response::calls_ask(
            r.unwrap().0@,
            json_calls::item_calls(announced_values(text::trimmed(message@), start)),
        ) && all_verbatim(r.unwrap().0@, message@),
        config@.bare_json_mode || config@.start_tokens.len() > 0 ==> forall|values: Seq<Seq<char>>|
            json::all_raw(values) && extraction(message@, config@).payload
                == #[trigger] text::bracketed(values) ==> response::calls_ask(
                r.unwrap().0@,
                with_trailing(
                    json_calls::item_calls(values),
                    extraction(message@, config@),
                ),
            ) && (text::all_stand(values, message@) ==> all_verbatim(r.unwrap().0@, message@)),
        (config@.bare_json_mode || config@.start_tokens.len() > 0) && extraction(
            message@,
            config@,
        ).trailing is None && json::opens_with(extraction(message@, config@).payload, '{')
            && json::object_members(extraction(message@, config@).payload) is Some ==> forall|
            i: int,
            j: int,
        |
            #![trigger json::object_members(extraction(message@, config@).payload).unwrap()[i],
                json::object_members(extraction(message@, config@).payload).unwrap()[j]]
            json_calls::stands_once(
                json::object_members(extraction(message@, config@).payload).unwrap(),
                i,
                "name"@,
            ) && json::json_string(
                json::object_members(extraction(message@, config@).payload).unwrap()[i].1,
            ) is Some && json_calls::holds_arguments(
                json::object_members(extraction(message@, config@).payload).unwrap(),
                j,
            ) ==> {
                &&& r.unwrap().0@.len() == 1
                &&& r.unwrap().0@[0].function.name@ == json::json_string(
                    json::object_members(extraction(message@, config@).payload).unwrap()[i].1,
                ).unwrap()
                &&& r.unwrap().0@[0].function.arguments@ == json::object_members(
                    extraction(message@, config@).payload,
                ).unwrap()[j].1
                &&& r.unwrap().1.unwrap()@ == extraction(message@, config@).narrated
            },
{
    let s: &str = text::trim(message);
    proof {
        text::law_trim_twice(message@);
        law_trailing_call_stands_in_the_message(message@, config@);
        if !config@.bare_json_mode && holds_token(s@, config@.start_tokens) {
            if awaits_end(s@, config@) {
                lemma_tokens_extract_nothing(
                    s@,
                    config@.start_tokens,
                    config@.end_tokens,
                    config@,
                );
            }
        } else {
            lemma_first_opening(s@, 0);
        }
        if json_calls::opens_json(s@) {
            lemma_opens_json(s@);
        }
    }
    if s.unicode_len() == 0 {
        assert(s@ =~= seq![]);
        return Ok(settle(Reading::Unread, None, s, String::new(), String::new()));
    }
    if config.tool_call_start_tokens.len() == 0 && !config.bare_json_mode {
        return Ok(settle(Reading::Unread, None, s, String::new(), String::new()));
    }
    let e: PartedMessage = extract(message, s, config);
    let reading: Reading = read_payload(&e, s, config);
    let trailing: Option<ToolCallResponse> = match &e.trailing {
        Some(body) => json_calls::read_any_call(body.as_str()),
        None => None,
    };
    let ghost found = reading_calls(reading);
    let ghost ex = extraction(message@, config@);
    proof {
        if trailing is Some {
            let body = ex.trailing.unwrap();
            text::lemma_contains_transitive(
                message@,
                body,
                trailing.unwrap().function.arguments@,
            );
        }
        if text::contains_text(message@, ex.payload) && json_calls::recognized_calls(ex.payload)
            is Some {
            lemma_verbatim_in(found, ex.payload, message@);
        }
        if makes_none(ex, config@) && text::contains_text(message@, stripped(ex.payload, config@)) {
            lemma_verbatim_in(found, stripped(ex.payload, config@), message@);
        }
        assert forall|values: Seq<Seq<char>>|
            json::all_raw(values) && ex.payload == #[trigger] text::bracketed(values)
                && text::all_stand(values, message@) implies all_verbatim(found, message@) by {
            lemma_all_verbatim(found, values, message@);
        }
        if json::opens_with(ex.payload, '{') && json::object_members(ex.payload) is Some {
            let members = json::object_members(ex.payload).unwrap();
            assert forall|i: int, j: int|
                #![trigger members[i], members[j]]
                json_calls::stands_once(members, i, "name"@) && json::json_string(members[i].1)
                    is Some && json_calls::holds_arguments(
                    members,
                    j,
                ) implies json_calls::recognized_calls(ex.payload) == Some(
                seq![
                    CallText {
                        name: json::json_string(members[i].1).unwrap(),
                        arguments: members[j].1,
                    },
                ],
            ) by {
                json_calls::law_object_makes_the_call_it_names(
                    ex.payload,
                    members,
                    i,
                    j,
                    json::json_string(members[i].1).unwrap(),
                );
            }
        }
        if let Some(start) = ex.announced {
            let values = announced_values(s@, start);
            text::lemma_trimmed_stands(message@);
            lemma_all_stand_transitive(values, s@, message@);
            if values.len() > 0 {
                assert(ex.payload == text::bracketed(values));
            }
        }
    }
    let recognized: bool = matches!(reading, Reading::Recognized(_));
    let narrated: String = if !recognized && trailing.is_some() && recovers_strictly(s, config) {
        String::new()
    } else {
        e.narrated
    };
    Ok(settle(reading, trailing, s, e.normal, narrated))
}

/// Whether strict recovery takes over for a message, so that what it recovers or drops can be
/// reported. No text comes back then: where parsing gives no call either, the content is lost.
pub fn strict_recovery_takes_over(message: &str, config: &JsonParserConfig) -> (r: bool)
    ensures
        r == recovered_strictly(message@, config@),
        r ==> outcome(message@, config@).normal.len() == 0,
{
    let s: &str = text::trim(message);
    if s.unicode_len() == 0 || config.tool_call_start_tokens.len() == 0 || !recovers_strictly(
        s,
        config,
    ) {
        return false;
    }
    let e: PartedMessage = extract(message, s, config);
    matches!(read_payload(&e, s, config), Reading::Salvaged(_))
}

/// A call between its tokens is found: where a message is some narration, the start token,
/// a body that is recognized, and the end token, parsing gives the calls of the body and the
/// narration, which is kept as it was emitted only where a call is found.
pub proof fn law_closed_call_is_found(
    message: Seq<char>,
    narrated: Seq<char>,
    body: Seq<char>,
    calls: Seq<CallText>,
    c: config::JsonParserConfigView,
)
    requires
        !c.bare_json_mode,
        c.start_tokens.len() == 1,
        c.end_tokens.len() == 1,
        c.start_tokens[0].len() > 0,
        c.end_tokens[0].len() > 0,
        frames::can_frame(c.start_tokens[0], c.end_tokens[0]),
        text::trimmed(message) == message,
        text::around_first(message, c.start_tokens[0]) == Some(
            (narrated, body + c.end_tokens[0]),
        ),
        text::around_first(body + c.end_tokens[0], c.end_tokens[0]) == Some(
            (body, Seq::<char>::empty()),
        ),
        json_calls::recognized_calls(text::trimmed(body)) == Some(calls),
    ensures
        text::contains_text(message, extraction(message, c).payload),
        outcome(message, c).calls == calls,
        outcome(message, c).normal == if c.start_tokens[0] == "[TOOL_CALLS]"@ || (
        c.preserve_normal_text_whitespace && calls.len() > 0) {
            narrated
        } else {
            text::trimmed(narrated)
        },
{
    let start = c.start_tokens[0];
    let end = c.end_tokens[0];
    let none = Seq::<char>::empty();
    text::lemma_contains_text(message, start);
    assert(text::contains_text(message, c.start_tokens[0]));
    assert(holds_token(message, c.start_tokens));
    text::lemma_first_at(message, start, 0);
    assert(frames::first_frame(none, start, end) is None);
    assert(frames::framed(none, start, end) =~= seq![]);
    let found = frames::framed(message, start, end);
    assert(found =~= seq![body]);
    assert(frames::after_frames(none, start, end) == none);
    assert(frames::after_frames(message, start, end) == none);
    assert(text::around_first(none, start) is None);
    assert(unclosed_call(none, start) is None);
    assert(trimmed_all(found) =~= seq![text::trimmed(body)]);
    let content = Content {
        payload: text::trimmed(body),
        blank: text::trimmed(body).len() == 0,
        framed: true,
        trailing: None,
        announced: false,
    };
    assert(pair_content(message, start, end, c) == Some(content));
    assert(content_of_start(message, start, c.end_tokens, c) == Some(content));
    assert(content_of_any(message, c.start_tokens, c.end_tokens, c) == Some((start, content)));
    assert(message.len() > 0);
    text::lemma_trimmed(body);
    text::lemma_first_at(message, start, 0);
    let from = (narrated.len() + start.len() + text::leading_white(body)) as int;
    assert(message.skip((narrated.len() + start.len()) as int) =~= body + end);
    assert(message.subrange(from, from + text::trimmed(body).len()) =~= text::trimmed(body)) by {
        assert forall|k: int| 0 <= k < text::trimmed(body).len() implies message[from + k]
            == text::trimmed(body)[k] by {
            assert((body + end)[text::leading_white(body) + k] == message[from + k]);
        }
    }
    assert(text::occurs_at(message, text::trimmed(body), from));
    text::lemma_trimmed(message);
    text::lemma_trimmed_start(message);
    assert(message.take(0) + narrated =~= narrated);
}

proof fn lemma_framed_stand(s: Seq<char>, start: Seq<char>, end: Seq<char>)
    ensures
        text::all_stand(frames::framed(s, start, end), s),
        frames::framed(s, start, end).len() > 0 ==> text::contains_text(s, start),
    decreases s.len(),
{
    text::lemma_around_first_stands(s, start);
    text::lemma_contains_text(s, start);
    if let Some((_, after)) = text::around_first(s, start) {
        text::lemma_around_first_stands(after, end);
        if let Some((body, rest)) = text::around_first(after, end) {
            text::lemma_contains_transitive(s, after, body);
            text::lemma_contains_transitive(s, after, rest);
            if rest.len() < s.len() {
                lemma_framed_stand(rest, start, end);
                lemma_all_stand_transitive(frames::framed(rest, start, end), rest, s);
                let all = frames::framed(s, start, end);
                assert forall|i: int| 0 <= i < all.len() implies text::contains_text(
                    s,
                    #[trigger] all[i],
                ) by {
                    if i > 0 {
                        assert(all[i] == frames::framed(rest, start, end)[i - 1]);
                    }
                }
            }
        }
    }
}

/// Several calls between tokens are taken together: where the start and the end token frame
/// more than one body, the payload is the text of an array of the bodies, each of which stands
/// in the message as it is.
pub proof fn law_closed_bodies_are_joined(message: Seq<char>, c: config::JsonParserConfigView)
    requires
        !c.bare_json_mode,
        c.start_tokens.len() == 1,
        c.end_tokens.len() == 1,
        c.start_tokens[0].len() > 0,
        c.end_tokens[0].len() > 0,
        frames::can_frame(c.start_tokens[0], c.end_tokens[0]),
        frames::framed(text::trimmed(message), c.start_tokens[0], c.end_tokens[0]).len() > 1,
        trailing_body(text::trimmed(message), c.start_tokens[0], c.end_tokens[0], c) is None,
    ensures
        ({
            let bodies = trimmed_all(
                frames::framed(text::trimmed(message), c.start_tokens[0], c.end_tokens[0]),
            );
            &&& extraction(message, c).payload == text::bracketed(bodies)
            &&& text::all_stand(bodies, message)
        }),
{
    let s = text::trimmed(message);
    let start = c.start_tokens[0];
    let end = c.end_tokens[0];
    let found = frames::framed(s, start, end);
    let bodies = trimmed_all(found);
    lemma_framed_stand(s, start, end);
    assert(text::contains_text(s, c.start_tokens[0]));
    assert(holds_token(s, c.start_tokens));
    let payload = text::bracketed(bodies);
    assert(framed_content(s, start, end) == Some(payload));
    let content = Content {
        payload,
        blank: false,
        framed: true,
        trailing: None,
        announced: false,
    };
    assert(pair_content(s, start, end, c) == Some(content));
    assert(content_of_start(s, start, c.end_tokens, c) == Some(content));
    text::lemma_trimmed_stands(message);
    assert forall|i: int| 0 <= i < bodies.len() implies text::contains_text(
        message,
        #[trigger] bodies[i],
    ) by {
        assert(bodies[i] == text::trimmed(found[i]));
        text::lemma_trimmed_stands(found[i]);
        text::lemma_contains_transitive(s, found[i], bodies[i]);
        text::lemma_contains_transitive(message, s, bodies[i]);
    }
}

/// A last call that is not closed takes nothing from the closed ones: where it is recovered, it
/// follows the calls that the closed bodies make, and the narration is kept.
pub proof fn law_last_call_follows_the_closed_ones(
    message: Seq<char>,
    body: Seq<char>,
    calls: Seq<CallText>,
    c: config::JsonParserConfigView,
)
    requires
        extraction(message, c).trailing == Some(body),
        json_calls::recognized_calls(extraction(message, c).payload) == Some(calls),
    ensures
        json_calls::called(body) matches Some(call) && outcome(message, c).calls == calls.push(call),
        outcome(message, c).normal == extraction(message, c).narrated,
{
    law_trailing_call_stands_in_the_message(message, c);
    let s = text::trimmed(message);
    let i = choose|i: int|
        0 <= i < c.start_tokens.len() && (#[trigger] c.start_tokens[i]).len() > 0
            && text::contains_text(s, c.start_tokens[i]);
    let at = choose|at: int| text::occurs_at(s, c.start_tokens[i], at);
    assert(s.len() > 0);
}

proof fn lemma_empty_end_announces(
    s: Seq<char>,
    start: Seq<char>,
    ends: Seq<Seq<char>>,
    k: int,
    c: config::JsonParserConfigView,
)
    requires
        start.len() > 0,
        text::contains_text(s, start),
        0 <= k < ends.len(),
        ends[k].len() == 0,
        forall|i: int| 0 <= i < k ==> pair_content(s, start, #[trigger] ends[i], c) is None,
    ensures
        content_of_start(s, start, ends, c) matches Some(content) && content.announced,
    decreases k,
{
    if k > 0 {
        let rest = ends.skip(1);
        assert(pair_content(s, start, ends[0], c) is None);
        assert(rest[k - 1] == ends[k]);
        assert forall|i: int| 0 <= i < k - 1 implies pair_content(s, start, #[trigger] rest[i], c)
            is None by {
            assert(rest[i] == ends[i + 1]);
        }
        lemma_empty_end_announces(s, start, rest, k - 1, c);
    }
}

proof fn lemma_first_start_extracts(
    s: Seq<char>,
    starts: Seq<Seq<char>>,
    j: int,
    ends: Seq<Seq<char>>,
    c: config::JsonParserConfigView,
)
    requires
        0 <= j < starts.len(),
        content_of_start(s, starts[j], ends, c) is Some,
        forall|i: int| 0 <= i < j ==> content_of_start(s, #[trigger] starts[i], ends, c) is None,
    ensures
        content_of_any(s, starts, ends, c) == Some(
            (starts[j], content_of_start(s, starts[j], ends, c).unwrap()),
        ),
    decreases j,
{
    if j > 0 {
        let rest = starts.skip(1);
        assert(content_of_start(s, starts[0], ends, c) is None);
        assert(rest[j - 1] == starts[j]);
        assert forall|i: int| 0 <= i < j - 1 implies content_of_start(
            s,
            #[trigger] rest[i],
            ends,
            c,
        ) is None by {
            assert(rest[i] == starts[i + 1]);
        }
        lemma_first_start_extracts(s, rest, j - 1, ends, c);
    }
}

/// A start token that stands in a message announces calls where one of the end tokens is empty,
/// the end tokens before that one extract nothing with it, and the start tokens before it
/// extract nothing at all.
pub proof fn law_empty_end_token_announces(
    message: Seq<char>,
    j: int,
    k: int,
    c: config::JsonParserConfigView,
)
    requires
        !c.bare_json_mode,
        0 <= j < c.start_tokens.len(),
        c.start_tokens[j].len() > 0,
        text::contains_text(text::trimmed(message), c.start_tokens[j]),
        forall|i: int|
            0 <= i < j ==> content_of_start(
                text::trimmed(message),
                #[trigger] c.start_tokens[i],
                c.end_tokens,
                c,
            ) is None,
        0 <= k < c.end_tokens.len(),
        c.end_tokens[k].len() == 0,
        forall|i: int|
            0 <= i < k ==> pair_content(
                text::trimmed(message),
                c.start_tokens[j],
                #[trigger] c.end_tokens[i],
                c,
            ) is None,
    ensures
        extraction(message, c).announced == Some(c.start_tokens[j]),
{
    let s = text::trimmed(message);
    assert(holds_token(s, c.start_tokens));
    lemma_empty_end_announces(s, c.start_tokens[j], c.end_tokens, k, c);
    lemma_first_start_extracts(s, c.start_tokens, j, c.end_tokens, c);
}

/// Without a start token, or in bare mode, the payload stands in the message as it is.
pub proof fn law_unmarked_payload_stands_in_the_message(
    message: Seq<char>,
    c: config::JsonParserConfigView,
)
    requires
        c.bare_json_mode || !holds_token(text::trimmed(message), c.start_tokens),
    ensures
        text::contains_text(message, extraction(message, c).payload),
{
    let s = text::trimmed(message);
    text::lemma_trimmed(message);
    let lead = text::leading_white(message) as int;
    assert(text::occurs_at(message, s, lead));
    lemma_first_opening(s, 0);
    if let Some(i) = text::first_opening(s, 0) {
        let tail = s.skip(i);
        text::lemma_trimmed(tail);
        let from = i + text::leading_white(tail);
        let payload = text::trimmed(tail);
        assert(s.subrange(from, from + payload.len()) =~= payload) by {
            assert forall|k: int| 0 <= k < payload.len() implies s[from + k] == payload[k] by {
                assert(tail[text::leading_white(tail) + k] == s[from + k]);
            }
        }
        assert(text::occurs_at(s, payload, from));
        text::lemma_stretch_contains(message, lead, s, payload);
    }
}

/// A message that is all white space gives no call and no text.
pub proof fn law_blank_message(message: Seq<char>, c: config::JsonParserConfigView)
    requires
        text::trimmed(message).len() == 0,
    ensures
        outcome(message, c).calls.len() == 0,
        outcome(message, c).normal.len() == 0,
        !detects(message, c),
{
}

/// In bare mode the tokens are ignored.
pub proof fn law_bare_mode_ignores_tokens(
    message: Seq<char>,
    c: config::JsonParserConfigView,
    start_tokens: Seq<Seq<char>>,
    end_tokens: Seq<Seq<char>>,
)
    requires
        c.bare_json_mode,
    ensures
        outcome(message, c) == outcome(
            message,
            (config::JsonParserConfigView { start_tokens, end_tokens, ..c }),
        ),
{
    let d = config::JsonParserConfigView { start_tokens, end_tokens, ..c };
    assert(extraction(message, c) == extraction(message, d));
}

proof fn lemma_start_same(
    s: Seq<char>,
    start: Seq<char>,
    ends: Seq<Seq<char>>,
    c: config::JsonParserConfigView,
    d: config::JsonParserConfigView,
)
    requires
        !c.allow_eof_recovery,
        !d.allow_eof_recovery,
    ensures
        content_of_start(s, start, ends, c) == content_of_start(s, start, ends, d),
    decreases ends.len(),
{
    if ends.len() > 0 {
        lemma_start_same(s, start, ends.skip(1), c, d);
    }
}

proof fn lemma_tokens_same(
    s: Seq<char>,
    starts: Seq<Seq<char>>,
    ends: Seq<Seq<char>>,
    c: config::JsonParserConfigView,
    d: config::JsonParserConfigView,
)
    requires
        !c.allow_eof_recovery,
        !d.allow_eof_recovery,
    ensures
        content_of_any(s, starts, ends, c) == content_of_any(s, starts, ends, d),
    decreases starts.len(),
{
    if starts.len() > 0 {
        lemma_start_same(s, starts[0], ends, c, d);
        lemma_tokens_same(s, starts.skip(1), ends, c, d);
    }
}

/// Recovery takes effect only where `allow_eof_recovery` is on: while a stream has not
/// ended, the switches for strict recovery, for repair and for a last call that is not
/// closed change nothing.
pub proof fn law_no_recovery_before_the_end(
    message: Seq<char>,
    c: config::JsonParserConfigView,
    strip_markup_on_recovery: bool,
    repair_truncated_body: bool,
    recover_trailing_unclosed_call: bool,
)
    requires
        !c.allow_eof_recovery,
    ensures
        outcome(message, c) == outcome(
            message,
            (config::JsonParserConfigView {
                strip_markup_on_recovery,
                repair_truncated_body,
                recover_trailing_unclosed_call,
                ..c
            }),
        ),
{
    let d = config::JsonParserConfigView {
        strip_markup_on_recovery,
        repair_truncated_body,
        recover_trailing_unclosed_call,
        ..c
    };
    lemma_tokens_same(text::trimmed(message), c.start_tokens, c.end_tokens, c, d);
    assert(extraction(message, c) == extraction(message, d));
}

/// Strict recovery lets no marker into the normal text: where a marker stands in the
/// message and its payload makes no call, repaired or not, the normal text is empty.
pub proof fn law_strict_recovery_leaks_nothing(message: Seq<char>, c: config::JsonParserConfigView)
    requires
        strict_recovery(text::trimmed(message), c),
        c.start_tokens.len() > 0,
        json_calls::recognized_calls(extraction(message, c).payload) is None,
        repaired_calls(extraction(message, c).payload, c) is None,
    ensures
        outcome(message, c).normal.len() == 0,
{
}

/// A chunk that ends in a part of a start token is held back as the possible start of a
/// call, so that the rest of the token can still arrive.
pub proof fn law_partial_start_is_detected(
    chunk: Seq<char>,
    c: config::JsonParserConfigView,
    i: int,
    n: int,
)
    requires
        0 <= i < c.start_tokens.len(),
        0 < n <= c.start_tokens[i].len(),
        text::has_suffix(text::trimmed(chunk), c.start_tokens[i].take(n)),
    ensures
        detects(chunk, c),
{
    let s = text::trimmed(chunk);
    let prefix = c.start_tokens[i].take(n);
    assert(text::occurs_at(s, prefix, s.len() - prefix.len()));
    assert(prefix_shows(s, prefix));
    assert(token_may_start(s, c.start_tokens[i]));
}

/// None of the tokens before the given position stands in the text; empty tokens stand nowhere.
pub open spec fn earlier_absent(s: Seq<char>, tokens: Seq<Seq<char>>, j: int) -> bool {
    forall|i: int|
        0 <= i < j ==> (#[trigger] tokens[i]).len() == 0 || !text::contains_text(s, tokens[i])
}

/// The text does not hold the token before the given position.
pub open spec fn stands_first_at(s: Seq<char>, token: Seq<char>, n: int) -> bool {
    forall|k: int| 0 <= k < n ==> #[trigger] s.skip(k).take(token.len() as int) != token
}

proof fn lemma_absent_start_extracts_nothing(
    s: Seq<char>,
    start: Seq<char>,
    ends: Seq<Seq<char>>,
    c: config::JsonParserConfigView,
)
    requires
        start.len() == 0 || !text::contains_text(s, start),
    ensures
        content_of_start(s, start, ends, c) is None,
    decreases ends.len(),
{
    text::lemma_contains_text(s, start);
    if ends.len() > 0 {
        if start.len() > 0 {
            assert(frames::framed(s, start, ends[0]) =~= seq![]);
            assert(closed_bodies(s, start, ends[0]).len() == 0);
        }
        assert(pair_content(s, start, ends[0], c) is None);
        lemma_absent_start_extracts_nothing(s, start, ends.skip(1), c);
    }
}

proof fn lemma_extraction_by_start(
    message: Seq<char>,
    before: Seq<char>,
    after: Seq<char>,
    j: int,
    content: Content,
    c: config::JsonParserConfigView,
)
    requires
        !c.bare_json_mode,
        0 <= j < c.start_tokens.len(),
        c.start_tokens[j].len() > 0,
        earlier_absent(text::trimmed(message), c.start_tokens, j),
        text::around_first(text::trimmed(message), c.start_tokens[j]) == Some((before, after)),
        content_of_start(text::trimmed(message), c.start_tokens[j], c.end_tokens, c) == Some(
            content,
        ),
    ensures
        ({
            let e = extraction(message, c);
            let start = c.start_tokens[j];
            &&& e.payload == content.payload
            &&& e.blank == content.blank
            &&& e.framed == content.framed
            &&& e.trailing == content.trailing
            &&& e.announced == if content.announced {
                Some(start)
            } else {
                None
            }
            &&& e.normal == if start == "[TOOL_CALLS]"@ {
                before
            } else {
                text::trimmed(before)
            }
            &&& c.preserve_normal_text_whitespace ==> e.narrated == message.take(
                text::leading_white(message) as int,
            ) + before
            &&& !c.preserve_normal_text_whitespace ==> e.narrated == e.normal
        }),
        text::trimmed(message).len() > 0,
{
    let s = text::trimmed(message);
    let start = c.start_tokens[j];
    text::lemma_contains_text(s, start);
    assert(text::contains_text(s, c.start_tokens[j]));
    assert(holds_token(s, c.start_tokens));
    text::lemma_around_first_stands(s, start);
    assert forall|i: int| 0 <= i < j implies content_of_start(
        s,
        #[trigger] c.start_tokens[i],
        c.end_tokens,
        c,
    ) is None by {
        lemma_absent_start_extracts_nothing(s, c.start_tokens[i], c.end_tokens, c);
    }
    lemma_first_start_extracts(s, c.start_tokens, j, c.end_tokens, c);
}

/// What stands between a start token and the first end token is the payload, without the white
/// space round it: where the trimmed message is some narration, a start token that stands nowhere
/// earlier, a body, the end token, and text in which the start token does not stand. Start tokens
/// that go before this one do not stand in the message. The narration is what stands before the
/// start token.
pub proof fn law_closed_body_is_the_payload(
    message: Seq<char>,
    before: Seq<char>,
    j: int,
    body: Seq<char>,
    after: Seq<char>,
    c: config::JsonParserConfigView,
)
    requires
        !c.bare_json_mode,
        0 <= j < c.start_tokens.len(),
        c.start_tokens[j].len() > 0,
        c.end_tokens.len() > 0,
        c.end_tokens[0].len() > 0,
        frames::can_frame(c.start_tokens[j], c.end_tokens[0]),
        text::trimmed(message) == before + c.start_tokens[j] + (body + c.end_tokens[0] + after),
        earlier_absent(text::trimmed(message), c.start_tokens, j),
        stands_first_at(text::trimmed(message), c.start_tokens[j], before.len() as int),
        stands_first_at(body + c.end_tokens[0] + after, c.end_tokens[0], body.len() as int),
        !text::contains_text(after, c.start_tokens[j]),
    ensures
        ({
            let e = extraction(message, c);
            &&& e.payload == text::trimmed(body)
            &&& e.framed
            &&& e.blank == (text::trimmed(body).len() == 0)
            &&& e.trailing is None
            &&& e.announced is None
            &&& e.normal == if c.start_tokens[j] == "[TOOL_CALLS]"@ {
                before
            } else {
                text::trimmed(before)
            }
            &&& c.preserve_normal_text_whitespace ==> e.narrated == message.take(
                text::leading_white(message) as int,
            ) + before
            &&& !c.preserve_normal_text_whitespace ==> e.narrated == e.normal
        }),
        text::trimmed(message).len() > 0,
{
    let s = text::trimmed(message);
    let start = c.start_tokens[j];
    let end = c.end_tokens[0];
    text::law_first_occurrence_parts(before, start, body + end + after);
    frames::law_first_body_is_framed(before, start, body, end, after);
    text::lemma_contains_text(after, start);
    assert(text::around_first(after, start) is None);
    frames::law_nothing_is_framed_without_both_tokens(after, start, end);
    let found = frames::framed(s, start, end);
    assert(found =~= seq![body]);
    assert(trimmed_all(found) =~= seq![text::trimmed(body)]);
    assert(unclosed_call(after, start) is None);
    let content = Content {
        payload: text::trimmed(body),
        blank: text::trimmed(body).len() == 0,
        framed: true,
        trailing: None,
        announced: false,
    };
    assert(pair_content(s, start, end, c) == Some(content));
    assert(content_of_start(s, start, c.end_tokens, c) == Some(content));
    lemma_extraction_by_start(message, before, body + end + after, j, content, c);
}

/// Where the output ends before an end token came, and recovery is allowed, what follows the
/// start token is the payload, without the white space round it, if it begins with a brace or a
/// bracket.
pub proof fn law_open_body_is_the_payload_at_the_end(
    message: Seq<char>,
    before: Seq<char>,
    j: int,
    body: Seq<char>,
    c: config::JsonParserConfigView,
)
    requires
        !c.bare_json_mode,
        c.allow_eof_recovery,
        0 <= j < c.start_tokens.len(),
        c.start_tokens[j].len() > 0,
        c.end_tokens.len() > 0,
        c.end_tokens[0].len() > 0,
        text::trimmed(message) == before + c.start_tokens[j] + body,
        earlier_absent(text::trimmed(message), c.start_tokens, j),
        stands_first_at(text::trimmed(message), c.start_tokens[j], before.len() as int),
        !text::contains_text(body, c.end_tokens[0]),
        text::trimmed(body).len() > 0,
        text::trimmed(body)[0] == '{' || text::trimmed(body)[0] == '[',
    ensures
        ({
            let e = extraction(message, c);
            &&& e.payload == text::trimmed(body)
            &&& !e.framed
            &&& !e.blank
            &&& e.trailing is None
            &&& e.announced is None
            &&& e.normal == if c.start_tokens[j] == "[TOOL_CALLS]"@ {
                before
            } else {
                text::trimmed(before)
            }
            &&& c.preserve_normal_text_whitespace ==> e.narrated == message.take(
                text::leading_white(message) as int,
            ) + before
            &&& !c.preserve_normal_text_whitespace ==> e.narrated == e.normal
        }),
        text::trimmed(message).len() > 0,
{
    let s = text::trimmed(message);
    let start = c.start_tokens[j];
    let end = c.end_tokens[0];
    text::law_first_occurrence_parts(before, start, body);
    frames::law_nothing_is_framed_without_both_tokens(s, start, end);
    assert(closed_bodies(s, start, end).len() == 0);
    let content = Content {
        payload: text::trimmed(body),
        blank: false,
        framed: false,
        trailing: None,
        announced: false,
    };
    assert(pair_content(s, start, end, c) == Some(content));
    assert(content_of_start(s, start, c.end_tokens, c) == Some(content));
    lemma_extraction_by_start(message, before, body, j, content, c);
}

/// Where nothing has to close a call, since the end token is empty and the end tokens before it
/// have not come, the payload lists the values that the start token announces, as an array.
pub proof fn law_announced_values_are_the_payload(
    message: Seq<char>,
    before: Seq<char>,
    j: int,
    k: int,
    after: Seq<char>,
    c: config::JsonParserConfigView,
)
    requires
        !c.bare_json_mode,
        0 <= j < c.start_tokens.len(),
        c.start_tokens[j].len() > 0,
        0 <= k < c.end_tokens.len(),
        c.end_tokens[k].len() == 0,
        k > 0 ==> !c.allow_eof_recovery,
        text::trimmed(message) == before + c.start_tokens[j] + after,
        earlier_absent(text::trimmed(message), c.start_tokens, j),
        stands_first_at(text::trimmed(message), c.start_tokens[j], before.len() as int),
        forall|i: int|
            0 <= i < k ==> (#[trigger] c.end_tokens[i]).len() > 0 && !text::contains_text(
                after,
                c.end_tokens[i],
            ),
    ensures
        ({
            let e = extraction(message, c);
            let values = announced_values(text::trimmed(message), c.start_tokens[j]);
            &&& e.announced == Some(c.start_tokens[j])
            &&& values.len() > 0 ==> e.payload == seq!['['] + text::joined(values, seq![','])
                + seq![']'] && !e.blank
            &&& values.len() == 0 ==> e.payload.len() == 0 && e.blank
            &&& !e.framed
            &&& e.trailing is None
            &&& e.normal == if c.start_tokens[j] == "[TOOL_CALLS]"@ {
                before
            } else {
                text::trimmed(before)
            }
            &&& c.preserve_normal_text_whitespace ==> e.narrated == message.take(
                text::leading_white(message) as int,
            ) + before
            &&& !c.preserve_normal_text_whitespace ==> e.narrated == e.normal
        }),
        text::trimmed(message).len() > 0,
{
    let s = text::trimmed(message);
    let start = c.start_tokens[j];
    text::law_first_occurrence_parts(before, start, after);
    assert forall|i: int| 0 <= i < k implies pair_content(s, start, #[trigger] c.end_tokens[i], c)
        is None by {
        frames::law_nothing_is_framed_without_both_tokens(s, start, c.end_tokens[i]);
        assert(closed_bodies(s, start, c.end_tokens[i]).len() == 0);
    }
    let values = announced_values(s, start);
    let payload = announced_content(s, start).unwrap();
    lemma_first_end_extracts(s, start, c.end_tokens, k, c);
    let content = pair_content(s, start, c.end_tokens[k], c).unwrap();
    lemma_extraction_by_start(message, before, after, j, content, c);
}

proof fn lemma_first_end_extracts(
    s: Seq<char>,
    start: Seq<char>,
    ends: Seq<Seq<char>>,
    k: int,
    c: config::JsonParserConfigView,
)
    requires
        0 <= k < ends.len(),
        pair_content(s, start, ends[k], c) is Some,
        forall|i: int| 0 <= i < k ==> pair_content(s, start, #[trigger] ends[i], c) is None,
    ensures
        content_of_start(s, start, ends, c) == pair_content(s, start, ends[k], c),
    decreases k,
{
    if k > 0 {
        let rest = ends.skip(1);
        assert(pair_content(s, start, ends[0], c) is None);
        assert(rest[k - 1] == ends[k]);
        assert forall|i: int| 0 <= i < k - 1 implies pair_content(s, start, #[trigger] rest[i], c)
            is None by {
            assert(rest[i] == ends[i + 1]);
        }
        lemma_first_end_extracts(s, start, rest, k - 1, c);
    }
}

/// Without a start token in the message, or in bare mode, the payload begins at the first opening
/// brace or bracket, and what stands before it is the narration.
pub proof fn law_bare_payload_begins_at_the_first_opening(
    message: Seq<char>,
    before: Seq<char>,
    rest: Seq<char>,
    c: config::JsonParserConfigView,
)
    requires
        c.bare_json_mode || earlier_absent(
            text::trimmed(message),
            c.start_tokens,
            c.start_tokens.len() as int,
        ),
        text::trimmed(message) == before + rest,
        forall|k: int| 0 <= k < before.len() ==> #[trigger] before[k] != '{' && before[k] != '[',
        rest.len() > 0,
        rest[0] == '{' || rest[0] == '[',
    ensures
        ({
            let e = extraction(message, c);
            &&& e.payload == rest
            &&& e.normal == text::trimmed(before)
            &&& c.preserve_normal_text_whitespace ==> e.narrated == message.take(
                text::leading_white(message) as int,
            ) + before
            &&& !c.preserve_normal_text_whitespace ==> e.narrated == text::trimmed(before)
            &&& !e.blank
            &&& !e.framed
            &&& e.trailing is None
            &&& e.announced is None
        }),
{
    let s = text::trimmed(message);
    text::law_first_opening_is_first(s, 0);
    let n = before.len() as int;
    assert(s[n] == rest[0]);
    let i = text::first_opening(s, 0).unwrap();
    if i < n {
        assert(s[i] == before[i]);
    }
    assert(i == n);
    assert(s.take(n) =~= before);
    assert(s.skip(n) =~= rest);
    text::lemma_trimmed(message);
    let none = Seq::<char>::empty();
    assert(none + rest + none =~= rest);
    assert(rest[rest.len() - 1] == s[s.len() - 1]);
    assert(!text::is_white_space(rest[0])) by {
        assert('{' != ' ' && '[' != ' ');
    }
    text::law_trim_keeps_what_stands_between(none, rest, none);
    if !c.bare_json_mode && holds_token(s, c.start_tokens) {
        let i = choose|i: int|
            0 <= i < c.start_tokens.len() && (#[trigger] c.start_tokens[i]).len() > 0
                && text::contains_text(s, c.start_tokens[i]);
        assert(c.start_tokens[i].len() == 0 || !text::contains_text(s, c.start_tokens[i]));
    }
}

/// A payload that is recognized gives its calls, all of them and in their order. The narration
/// comes with them as the family hands it on where there is a call, and trimmed where there is
/// none.
pub proof fn law_recognized_payload_gives_its_calls(
    message: Seq<char>,
    calls: Seq<CallText>,
    c: config::JsonParserConfigView,
)
    requires
        text::trimmed(message).len() > 0,
        c.bare_json_mode || c.start_tokens.len() > 0,
        extraction(message, c).trailing is None,
        json_calls::recognized_calls(extraction(message, c).payload) == Some(calls),
    ensures
        outcome(message, c).calls == calls,
        calls.len() > 0 ==> outcome(message, c).normal == extraction(message, c).narrated,
        calls.len() == 0 ==> outcome(message, c).normal == extraction(message, c).normal,
{
}

/// A payload that truncation left open is closed and read at the end of a stream: where it is not
/// recognized as it stands, and closing what it left open gives a text that is recognized with at
/// least one call, parsing gives all of those calls, however many, and the narration. A last call
/// that follows closed ones comes after them.
pub proof fn law_truncated_payload_gives_all_its_calls(
    message: Seq<char>,
    whole: Seq<char>,
    calls: Seq<CallText>,
    c: config::JsonParserConfigView,
)
    requires
        text::trimmed(message).len() > 0,
        c.bare_json_mode || c.start_tokens.len() > 0,
        c.allow_eof_recovery,
        c.repair_truncated_body,
        json_calls::recognized_calls(extraction(message, c).payload) is None,
        json_repair::repaired(extraction(message, c).payload) == Some(whole),
        json_calls::recognized_calls(whole) == Some(calls),
        calls.len() > 0,
    ensures
        extraction(message, c).trailing is None ==> outcome(message, c).calls == calls,
        extraction(message, c).trailing is Some ==> outcome(message, c).calls.len() >= calls.len()
            && outcome(message, c).calls.take(calls.len() as int) == calls,
        outcome(message, c).normal == extraction(message, c).narrated,
{
    if let Some(body) = extraction(message, c).trailing {
        law_trailing_call_stands_in_the_message(message, c);
        let call = json_calls::called(body).unwrap();
        assert(calls.push(call).take(calls.len() as int) =~= calls);
    }
}

/// The output of a model that was cut off inside a call, after its start token, gives all the
/// calls that closing what was left open gives, and the text before the start token.
pub proof fn law_truncated_output_gives_all_its_calls(
    message: Seq<char>,
    before: Seq<char>,
    j: int,
    body: Seq<char>,
    whole: Seq<char>,
    calls: Seq<CallText>,
    c: config::JsonParserConfigView,
)
    requires
        !c.bare_json_mode,
        c.allow_eof_recovery,
        c.repair_truncated_body,
        0 <= j < c.start_tokens.len(),
        c.start_tokens[j].len() > 0,
        c.end_tokens.len() > 0,
        c.end_tokens[0].len() > 0,
        text::trimmed(message) == before + c.start_tokens[j] + body,
        earlier_absent(text::trimmed(message), c.start_tokens, j),
        stands_first_at(text::trimmed(message), c.start_tokens[j], before.len() as int),
        !text::contains_text(body, c.end_tokens[0]),
        text::trimmed(body).len() > 0,
        text::trimmed(body)[0] == '{' || text::trimmed(body)[0] == '[',
        json_calls::recognized_calls(text::trimmed(body)) is None,
        json_repair::repaired(text::trimmed(body)) == Some(whole),
        json_calls::recognized_calls(whole) == Some(calls),
        calls.len() > 0,
    ensures
        outcome(message, c).calls == calls,
        c.preserve_normal_text_whitespace ==> outcome(message, c).normal == message.take(
            text::leading_white(message) as int,
        ) + before,
        !c.preserve_normal_text_whitespace ==> outcome(message, c).normal == if c.start_tokens[j]
            == "[TOOL_CALLS]"@ {
            before
        } else {
            text::trimmed(before)
        },
{
    law_open_body_is_the_payload_at_the_end(message, before, j, body, c);
    law_truncated_payload_gives_all_its_calls(message, whole, calls, c);
}

/// A call that stands between its tokens is parsed as it is written: where the body is an object
/// with one member `name` that holds a string and one member that holds the arguments, there is
/// one call, with exactly the characters of that string and exactly the text of that member, and
/// the text before the start token.
pub proof fn law_closed_object_is_the_call_it_names(
    message: Seq<char>,
    before: Seq<char>,
    j: int,
    body: Seq<char>,
    after: Seq<char>,
    members: Seq<(Seq<char>, Seq<char>)>,
    n: int,
    a: int,
    name: Seq<char>,
    c: config::JsonParserConfigView,
)
    requires
        !c.bare_json_mode,
        0 <= j < c.start_tokens.len(),
        c.start_tokens[j].len() > 0,
        c.end_tokens.len() > 0,
        c.end_tokens[0].len() > 0,
        frames::can_frame(c.start_tokens[j], c.end_tokens[0]),
        text::trimmed(message) == before + c.start_tokens[j] + (body + c.end_tokens[0] + after),
        earlier_absent(text::trimmed(message), c.start_tokens, j),
        stands_first_at(text::trimmed(message), c.start_tokens[j], before.len() as int),
        stands_first_at(body + c.end_tokens[0] + after, c.end_tokens[0], body.len() as int),
        !text::contains_text(after, c.start_tokens[j]),
        json::json_items(text::trimmed(body)) is None,
        json::json_pair(text::trimmed(body)) is None,
        json::object_members(text::trimmed(body)) == Some(members),
        json_calls::stands_once(members, n, "name"@),
        json::json_string(members[n].1) == Some(name),
        json_calls::holds_arguments(members, a),
    ensures
        outcome(message, c).calls.len() == 1,
        outcome(message, c).calls[0].name == name,
        outcome(message, c).calls[0].arguments == members[a].1,
        c.preserve_normal_text_whitespace ==> outcome(message, c).normal == message.take(
            text::leading_white(message) as int,
        ) + before,
        !c.preserve_normal_text_whitespace ==> outcome(message, c).normal == if c.start_tokens[j]
            == "[TOOL_CALLS]"@ {
            before
        } else {
            text::trimmed(before)
        },
{
    law_closed_body_is_the_payload(message, before, j, body, after, c);
    json_calls::law_object_makes_the_call_it_names(text::trimmed(body), members, n, a, name);
    let calls = seq![CallText { name, arguments: members[a].1 }];
    law_recognized_payload_gives_its_calls(message, calls, c);
}

/// A call that stands in a message without tokens is parsed as it is written, from the first
/// opening brace on.
pub proof fn law_bare_object_is_the_call_it_names(
    message: Seq<char>,
    before: Seq<char>,
    object: Seq<char>,
    members: Seq<(Seq<char>, Seq<char>)>,
    n: int,
    a: int,
    name: Seq<char>,
    c: config::JsonParserConfigView,
)
    requires
        c.bare_json_mode || (c.start_tokens.len() > 0 && earlier_absent(
            text::trimmed(message),
            c.start_tokens,
            c.start_tokens.len() as int,
        )),
        text::trimmed(message) == before + object,
        forall|k: int| 0 <= k < before.len() ==> #[trigger] before[k] != '{' && before[k] != '[',
        object.len() > 0,
        object[0] == '{',
        json::json_items(object) is None,
        json::json_pair(object) is None,
        json::object_members(object) == Some(members),
        json_calls::stands_once(members, n, "name"@),
        json::json_string(members[n].1) == Some(name),
        json_calls::holds_arguments(members, a),
    ensures
        outcome(message, c).calls.len() == 1,
        outcome(message, c).calls[0].name == name,
        outcome(message, c).calls[0].arguments == members[a].1,
        !c.preserve_normal_text_whitespace ==> outcome(message, c).normal == text::trimmed(before),
        c.preserve_normal_text_whitespace ==> outcome(message, c).normal == message.take(
            text::leading_white(message) as int,
        ) + before,
{
    law_bare_payload_begins_at_the_first_opening(message, before, object, c);
    json_calls::law_object_makes_the_call_it_names(object, members, n, a, name);
    let calls = seq![CallText { name, arguments: members[a].1 }];
    law_recognized_payload_gives_its_calls(message, calls, c);
}

/// A message whose payload makes no call, as it stands or closed. Where nothing usable follows
/// the start token, or the payload is complete JSON between its tokens and the family drops such
/// a wrapper, nothing comes back. Else, where strict recovery is on and a marker stands in the
/// message, no text comes back, and the calls are those of the payload without its markers. Else
/// the whole trimmed message comes back as text, with no call.
pub proof fn law_payload_without_calls(message: Seq<char>, c: config::JsonParserConfigView)
    requires
        text::trimmed(message).len() > 0,
        c.bare_json_mode || c.start_tokens.len() > 0,
        extraction(message, c).trailing is None,
        json_calls::recognized_calls(extraction(message, c).payload) is None,
        c.allow_eof_recovery && c.repair_truncated_body ==> (json_repair::repaired(
            extraction(message, c).payload,
        ) matches Some(whole) ==> (json_calls::recognized_calls(whole) matches Some(calls)
            ==> calls.len() == 0)),
    ensures
        ({
            let e = extraction(message, c);
            let s = text::trimmed(message);
            let marked = (exists|i: int|
                0 <= i < c.start_tokens.len() && (#[trigger] c.start_tokens[i]).len() > 0
                    && text::contains_text(s, c.start_tokens[i])) || (exists|i: int|
                0 <= i < c.end_tokens.len() && (#[trigger] c.end_tokens[i]).len() > 0
                    && text::contains_text(s, c.end_tokens[i]));
            let dropped = e.blank || (e.framed && c.drop_unusable_json_wrapper && json::json_raw(
                e.payload,
            ) is Some);
            let strict = c.strip_markup_on_recovery && c.allow_eof_recovery && !c.bare_json_mode
                && marked;
            &&& dropped ==> outcome(message, c).calls.len() == 0 && outcome(message, c).normal.len()
                == 0
            &&& !dropped && strict ==> outcome(message, c).normal.len() == 0 && (
            json_calls::recognized_calls(stripped(e.payload, c)) matches Some(calls) ==> outcome(
                message,
                c,
            ).calls == calls) && (json_calls::recognized_calls(stripped(e.payload, c)) is None
                ==> outcome(message, c).calls.len() == 0)
            &&& !dropped && !strict ==> outcome(message, c).calls.len() == 0 && outcome(
                message,
                c,
            ).normal == s
        }),
{
}

/// Where a family has no start tokens and is not parsed bare, every message is text.
pub proof fn law_without_tokens_all_is_text(message: Seq<char>, c: config::JsonParserConfigView)
    requires
        c.start_tokens.len() == 0,
        !c.bare_json_mode,
    ensures
        outcome(message, c).calls.len() == 0,
        outcome(message, c).normal == text::trimmed(message),
{
    assert(text::trimmed(message).len() == 0 ==> text::trimmed(message) =~= seq![]);
}

/// A call that a start token has opened and that no end token has closed yet stays text while the
/// stream goes on: the whole message comes back, trimmed, and no call.
pub proof fn law_open_call_stays_text_before_the_end(
    message: Seq<char>,
    c: config::JsonParserConfigView,
)
    requires
        !c.allow_eof_recovery,
        !c.bare_json_mode,
        c.start_tokens.len() > 0,
        text::trimmed(message).len() > 0,
        exists|i: int|
            0 <= i < c.start_tokens.len() && (#[trigger] c.start_tokens[i]).len() > 0
                && text::contains_text(text::trimmed(message), c.start_tokens[i]),
        forall|i: int|
            0 <= i < c.end_tokens.len() ==> (#[trigger] c.end_tokens[i]).len() > 0
                && !text::contains_text(text::trimmed(message), c.end_tokens[i]),
        json_calls::recognized_calls(text::trimmed(message)) is None,
    ensures
        outcome(message, c).calls.len() == 0,
        outcome(message, c).normal == text::trimmed(message),
{
    lemma_tokens_extract_nothing(text::trimmed(message), c.start_tokens, c.end_tokens, c);
    assert(extraction(message, c).payload == text::trimmed(message));
}

/// Several bodies are joined as an array of them, in their order; one body is taken as it is.
/// Leaving out empty bodies keeps the others, in their order.
pub proof fn law_bodies_are_joined_in_order(
    a: Seq<Seq<char>>,
    b: Seq<Seq<char>>,
    body: Seq<char>,
)
    ensures
        joined_bodies(seq![body]) == body,
        joined_bodies(Seq::empty()).len() == 0,
        a.len() > 0 && b.len() > 0 ==> joined_bodies(a + b) == seq!['['] + text::joined(
            a,
            seq![','],
        ) + seq![','] + text::joined(b, seq![',']) + seq![']'],
        filled(a + b) == filled(a) + filled(b),
        body.len() > 0 ==> filled(seq![body]) == seq![body],
        body.len() == 0 ==> filled(seq![body]).len() == 0,
        filled(Seq::empty()).len() == 0,
    decreases b.len(),
{
    assert(seq![body].drop_last() =~= Seq::empty());
    assert(filled(seq![body].drop_last()) =~= seq![]);
    if body.len() > 0 {
        assert(filled(seq![body]) =~= seq![body]);
    }
    if a.len() > 0 && b.len() > 0 {
        text::law_joining_two_lists(a, b, seq![',']);
        assert(joined_bodies(a + b) =~= seq!['['] + text::joined(a, seq![',']) + seq![',']
            + text::joined(b, seq![',']) + seq![']']);
    }
    if b.len() == 0 {
        assert(a + b =~= a);
        assert(filled(a + b) =~= filled(a) + filled(b));
    } else {
        law_bodies_are_joined_in_order(a, b.drop_last(), body);
        assert((a + b).drop_last() =~= a + b.drop_last());
        assert(filled(a + b) =~= filled(a) + filled(b));
    }
}

/// What two tokens frame is each body without the white space round it: one body as it is, several
/// as an array; and nothing where they frame nothing.
pub proof fn law_framed_content_is_the_bodies(
    s: Seq<char>,
    start: Seq<char>,
    end: Seq<char>,
    bodies: Seq<Seq<char>>,
)
    requires
        frames::can_frame(start, end),
        frames::framed(s, start, end).len() == bodies.len(),
        forall|i: int|
            0 <= i < bodies.len() ==> #[trigger] bodies[i] == text::trimmed(
                frames::framed(s, start, end)[i],
            ),
    ensures
        bodies.len() == 0 ==> framed_content(s, start, end) is None,
        bodies.len() == 1 ==> framed_content(s, start, end) == Some(bodies[0]),
        bodies.len() > 1 ==> framed_content(s, start, end) == Some(
            seq!['['] + text::joined(bodies, seq![',']) + seq![']'],
        ),
{
    assert(closed_bodies(s, start, end) =~= bodies);
}

/// What follows an open start token is taken where it looks like JSON: without the white space
/// round it, and only where it then begins with a brace or a bracket.
pub proof fn law_open_tail_looks_like_json(before: Seq<char>, start: Seq<char>, tail: Seq<char>)
    requires
        stands_first_at(before + start + tail, start, before.len() as int),
    ensures
        text::trimmed(tail).len() > 0 && (text::trimmed(tail)[0] == '{' || text::trimmed(tail)[0]
            == '[') ==> open_tail(before + start + tail, start) == Some(text::trimmed(tail)),
        !(text::trimmed(tail).len() > 0 && (text::trimmed(tail)[0] == '{' || text::trimmed(tail)[0]
            == '[')) ==> open_tail(before + start + tail, start) is None,
{
    text::law_first_occurrence_parts(before, start, tail);
}

/// The normal text is what stands before the first start token: as it is before `[TOOL_CALLS]`,
/// without the white space round it before any other. Without a start token there is none.
pub proof fn law_normal_text_stands_before_the_token(
    before: Seq<char>,
    start: Seq<char>,
    after: Seq<char>,
    s: Seq<char>,
)
    requires
        stands_first_at(before + start + after, start, before.len() as int),
    ensures
        start == "[TOOL_CALLS]"@ ==> text_before(before + start + after, start) == before,
        start != "[TOOL_CALLS]"@ ==> text_before(before + start + after, start) == text::trimmed(
            before,
        ),
        !text::contains_text(s, start) ==> text_before(s, start).len() == 0,
{
    text::law_first_occurrence_parts(before, start, after);
    text::lemma_contains_text(s, start);
}

/// The values that a text begins with: a value that a semicolon follows, and then those after the
/// semicolon; a value that none follows is the last; and there is none where no value is.
pub proof fn law_values_are_parted_by_semicolons(
    s: Seq<char>,
    value: Seq<char>,
    after: Seq<char>,
)
    requires
        json::json_first(text::trimmed_start(s)) == Some(value),
        value.len() > 0,
        text::trimmed_start(s) == value + after,
    ensures
        text::trimmed_start(after).len() > 0 && text::trimmed_start(after)[0] == ';' ==> streamed(s)
            == seq![value] + streamed(text::trimmed_start(after).skip(1)),
        !(text::trimmed_start(after).len() > 0 && text::trimmed_start(after)[0] == ';') ==> streamed(
            s,
        ) == seq![value],
{
    let t = text::trimmed_start(s);
    assert(t.subrange(0, value.len() as int) =~= value);
    assert(t.skip(value.len() as int) =~= after);
    assert(json::value_and_rest(s) == Some((value, text::trimmed_start(after))));
    json::lemma_value_and_rest(s);
}

/// A text that begins with no value gives none.
pub proof fn law_no_value_gives_none(s: Seq<char>)
    requires
        json::json_first(text::trimmed_start(s)) is None,
    ensures
        streamed(s).len() == 0,
{
}

/// The values of a segment: those that an object begins, the elements of an array that reaches to
/// the last closing bracket, and none of any other text.
pub proof fn law_segment_holds_objects_or_an_array(segment: Seq<char>, array: Seq<char>)
    ensures
        ({
            let s = text::trimmed(segment);
            &&& s.len() > 0 && s[0] == '{' ==> segment_values(segment) == streamed(s)
            &&& s.len() == 0 || (s[0] != '{' && s[0] != '[') ==> segment_values(segment).len() == 0
            &&& s.len() > 0 && s[0] == '[' && text::through_last(s, ']') == Some(array) ==> (
            json::json_items(text::trimmed(array)) matches Some(items) ==> segment_values(segment)
                == items) && (json::json_items(text::trimmed(array)) is None ==> segment_values(
                segment,
            ).len() == 0)
            &&& s.len() > 0 && s[0] == '[' && text::through_last(s, ']') is None
                ==> segment_values(segment).len() == 0
        }),
{
}

/// The values of segments are those of each, in the order of the segments; the values that a
/// start token announces are those of the segments that it parts the text into.
pub proof fn law_segments_give_their_values_in_order(
    a: Seq<Seq<char>>,
    b: Seq<Seq<char>>,
    segment: Seq<char>,
    s: Seq<char>,
    start: Seq<char>,
)
    ensures
        segments_values(a + b) == segments_values(a) + segments_values(b),
        segments_values(seq![segment]) == segment_values(segment),
        segments_values(Seq::empty()).len() == 0,
        announced_values(s, start) == segments_values(text::segments(s, start)),
        !text::contains_text(s, start) ==> announced_content(s, start) is None,
        text::contains_text(s, start) && announced_values(s, start).len() == 0
            ==> announced_content(s, start) == Some(Seq::<char>::empty()),
        text::contains_text(s, start) && announced_values(s, start).len() > 0
            ==> announced_content(s, start) == Some(
            seq!['['] + text::joined(announced_values(s, start), seq![',']) + seq![']'],
        ),
    decreases b.len(),
{
    assert(seq![segment].drop_last() =~= Seq::empty());
    assert(segments_values(seq![segment].drop_last()) =~= seq![]);
    assert(segments_values(seq![segment]) =~= segment_values(segment));
    if b.len() == 0 {
        assert(a + b =~= a);
        assert(segments_values(a + b) =~= segments_values(a) + segments_values(b));
    } else {
        law_segments_give_their_values_in_order(a, b.drop_last(), segment, s, start);
        assert((a + b).drop_last() =~= a + b.drop_last());
        assert(segments_values(a + b) =~= segments_values(a) + segments_values(b));
    }
}

/// A last call that is not closed is found after the closed one: where the trimmed message is some
/// text, a start token, a body, the end token, some text, a start token again, and a body that
/// nothing closes, the last body is recovered, without the white space round it, where it begins
/// with a brace and makes a call; the closed body stays the payload.
pub proof fn law_unclosed_last_call_is_found(
    message: Seq<char>,
    before: Seq<char>,
    j: int,
    body: Seq<char>,
    between: Seq<char>,
    last: Seq<char>,
    c: config::JsonParserConfigView,
)
    requires
        !c.bare_json_mode,
        c.allow_eof_recovery,
        c.recover_trailing_unclosed_call,
        0 <= j < c.start_tokens.len(),
        c.start_tokens[j].len() > 0,
        c.end_tokens.len() > 0,
        c.end_tokens[0].len() > 0,
        frames::can_frame(c.start_tokens[j], c.end_tokens[0]),
        text::trimmed(message) == before + c.start_tokens[j] + (body + c.end_tokens[0] + (between
            + c.start_tokens[j] + last)),
        earlier_absent(text::trimmed(message), c.start_tokens, j),
        stands_first_at(text::trimmed(message), c.start_tokens[j], before.len() as int),
        stands_first_at(
            body + c.end_tokens[0] + (between + c.start_tokens[j] + last),
            c.end_tokens[0],
            body.len() as int,
        ),
        stands_first_at(
            between + c.start_tokens[j] + last,
            c.start_tokens[j],
            between.len() as int,
        ),
        !text::contains_text(last, c.end_tokens[0]),
        text::trimmed(last).len() > 0,
        text::trimmed(last)[0] == '{',
        json_calls::called(text::trimmed(last)) is Some,
    ensures
        ({
            let e = extraction(message, c);
            &&& e.trailing == Some(text::trimmed(last))
            &&& e.payload == text::trimmed(body)
            &&& e.framed
            &&& e.blank == (text::trimmed(body).len() == 0)
            &&& c.preserve_normal_text_whitespace ==> e.narrated == message.take(
                text::leading_white(message) as int,
            ) + before
        }),
        text::trimmed(body).len() == 0 && json_calls::recognized_calls(text::trimmed(body)) is None
            && json_repair::repaired(text::trimmed(body)) is None && !c.strip_markup_on_recovery
            ==> outcome(message, c).calls == seq![json_calls::called(text::trimmed(last)).unwrap()]
            && outcome(message, c).normal == extraction(message, c).narrated,
{
    let s = text::trimmed(message);
    let start = c.start_tokens[j];
    let end = c.end_tokens[0];
    let rest = between + start + last;
    text::law_first_occurrence_parts(before, start, body + end + rest);
    frames::law_first_body_is_framed(before, start, body, end, rest);
    text::law_first_occurrence_parts(between, start, last);
    frames::law_nothing_is_framed_without_both_tokens(rest, start, end);
    let found = frames::framed(s, start, end);
    let t = text::trimmed(body);
    assert(found =~= seq![body]);
    assert(trimmed_all(found) =~= seq![t]);
    law_bodies_are_joined_in_order(Seq::empty(), Seq::empty(), t);
    if t.len() == 0 {
        assert(filled(seq![t]) =~= seq![]);
        assert(t =~= seq![]);
    }
    assert(unclosed_call(rest, start) == Some(text::trimmed(last)));
    let content = Content {
        payload: t,
        blank: t.len() == 0,
        framed: true,
        trailing: Some(text::trimmed(last)),
        announced: false,
    };
    assert(pair_content(s, start, end, c) == Some(content));
    assert(content_of_start(s, start, c.end_tokens, c) == Some(content));
    lemma_extraction_by_start(message, before, body + end + rest, j, content, c);
    if t.len() == 0 && json_calls::recognized_calls(t) is None && json_repair::repaired(t) is None
        && !c.strip_markup_on_recovery {
        let none = Seq::<CallText>::empty();
        let call = json_calls::called(text::trimmed(last)).unwrap();
        assert(none.push(call) =~= seq![call]);
    }
}

/// A payload that neither begins with a start token nor ends with an end token, and has no white
/// space round it, is left as it is when its markers are stripped.
pub proof fn law_unmarked_payload_is_not_stripped(
    payload: Seq<char>,
    c: config::JsonParserConfigView,
)
    requires
        text::trimmed(payload) == payload,
        forall|i: int|
            0 <= i < c.start_tokens.len() ==> (#[trigger] c.start_tokens[i]).len() == 0
                || !text::has_prefix(payload, c.start_tokens[i]),
        forall|i: int|
            0 <= i < c.end_tokens.len() ==> (#[trigger] c.end_tokens[i]).len() == 0
                || !text::has_suffix(payload, c.end_tokens[i]),
    ensures
        stripped(payload, c) == payload,
{
    lemma_no_leading_token(payload, c.start_tokens);
    lemma_no_trailing_token(payload, c.end_tokens);
}

proof fn lemma_no_leading_token(s: Seq<char>, tokens: Seq<Seq<char>>)
    requires
        forall|i: int|
            0 <= i < tokens.len() ==> (#[trigger] tokens[i]).len() == 0 || !text::has_prefix(
                s,
                tokens[i],
            ),
    ensures
        leading_token(s, tokens) is None,
    decreases tokens.len(),
{
    if tokens.len() > 0 {
        assert(tokens[0].len() == 0 || !text::has_prefix(s, tokens[0]));
        let rest = tokens.skip(1);
        assert forall|i: int| 0 <= i < rest.len() implies (#[trigger] rest[i]).len() == 0
            || !text::has_prefix(s, rest[i]) by {
            assert(rest[i] == tokens[i + 1]);
        }
        lemma_no_leading_token(s, rest);
    }
}

proof fn lemma_no_trailing_token(s: Seq<char>, tokens: Seq<Seq<char>>)
    requires
        forall|i: int|
            0 <= i < tokens.len() ==> (#[trigger] tokens[i]).len() == 0 || !text::has_suffix(
                s,
                tokens[i],
            ),
    ensures
        trailing_token(s, tokens) is None,
    decreases tokens.len(),
{
    if tokens.len() > 0 {
        assert(tokens[0].len() == 0 || !text::has_suffix(s, tokens[0]));
        let rest = tokens.skip(1);
        assert forall|i: int| 0 <= i < rest.len() implies (#[trigger] rest[i]).len() == 0
            || !text::has_suffix(s, rest[i]) by {
            assert(rest[i] == tokens[i + 1]);
        }
        lemma_no_trailing_token(s, rest);
    }
}

proof fn lemma_is_leading_token(s: Seq<char>, tokens: Seq<Seq<char>>, j: int)
    requires
        0 <= j < tokens.len(),
        tokens[j].len() > 0,
        text::has_prefix(s, tokens[j]),
        forall|i: int|
            0 <= i < j ==> (#[trigger] tokens[i]).len() == 0 || !text::has_prefix(s, tokens[i]),
    ensures
        leading_token(s, tokens) == Some(tokens[j]),
    decreases j,
{
    if j > 0 {
        assert(tokens[0].len() == 0 || !text::has_prefix(s, tokens[0]));
        let rest = tokens.skip(1);
        assert(rest[j - 1] == tokens[j]);
        assert forall|i: int| 0 <= i < j - 1 implies (#[trigger] rest[i]).len() == 0
            || !text::has_prefix(s, rest[i]) by {
            assert(rest[i] == tokens[i + 1]);
        }
        lemma_is_leading_token(s, rest, j - 1);
    }
}

proof fn lemma_is_trailing_token(s: Seq<char>, tokens: Seq<Seq<char>>, j: int)
    requires
        0 <= j < tokens.len(),
        tokens[j].len() > 0,
        text::has_suffix(s, tokens[j]),
        forall|i: int|
            0 <= i < j ==> (#[trigger] tokens[i]).len() == 0 || !text::has_suffix(s, tokens[i]),
    ensures
        trailing_token(s, tokens) == Some(tokens[j]),
    decreases j,
{
    if j > 0 {
        assert(tokens[0].len() == 0 || !text::has_suffix(s, tokens[0]));
        let rest = tokens.skip(1);
        assert(rest[j - 1] == tokens[j]);
        assert forall|i: int| 0 <= i < j - 1 implies (#[trigger] rest[i]).len() == 0
            || !text::has_suffix(s, rest[i]) by {
            assert(rest[i] == tokens[i + 1]);
        }
        lemma_is_trailing_token(s, rest, j - 1);
    }
}

/// A start token that a payload begins with is stripped, with the white space round it, and then
/// those that what follows begins with. Of several tokens that it begins with, the first in the
/// list is taken.
pub proof fn law_start_token_is_stripped(
    payload: Seq<char>,
    rest: Seq<char>,
    j: int,
    c: config::JsonParserConfigView,
)
    requires
        0 <= j < c.start_tokens.len(),
        c.start_tokens[j].len() > 0,
        text::trimmed(payload) == c.start_tokens[j] + rest,
        forall|i: int|
            0 <= i < j ==> (#[trigger] c.start_tokens[i]).len() == 0 || !text::has_prefix(
                text::trimmed(payload),
                c.start_tokens[i],
            ),
    ensures
        stripped(payload, c) == stripped(rest, c),
{
    let t = text::trimmed(payload);
    let token = c.start_tokens[j];
    text::lemma_trimmed(payload);
    assert(t.subrange(0, token.len() as int) =~= token);
    lemma_is_leading_token(t, c.start_tokens, j);
    assert(t.skip(token.len() as int) =~= rest);
}

/// An end token that a payload ends with is stripped, with the white space round it, and then
/// those that what precedes it ends with, where the payload begins with no start token, before
/// and after. Of several tokens that it ends with, the first in the list is taken.
pub proof fn law_end_token_is_stripped(
    payload: Seq<char>,
    rest: Seq<char>,
    j: int,
    c: config::JsonParserConfigView,
)
    requires
        0 <= j < c.end_tokens.len(),
        c.end_tokens[j].len() > 0,
        text::trimmed(payload) == rest + c.end_tokens[j],
        forall|i: int|
            0 <= i < c.start_tokens.len() ==> (#[trigger] c.start_tokens[i]).len() == 0
                || (!text::has_prefix(text::trimmed(payload), c.start_tokens[i])
                && !text::has_prefix(text::trimmed(rest), c.start_tokens[i])),
        forall|i: int|
            0 <= i < j ==> (#[trigger] c.end_tokens[i]).len() == 0 || !text::has_suffix(
                text::trimmed(payload),
                c.end_tokens[i],
            ),
    ensures
        stripped(payload, c) == stripped(rest, c),
{
    let t = text::trimmed(payload);
    let token = c.end_tokens[j];
    text::law_trim_twice(payload);
    text::lemma_trimmed(payload);
    lemma_no_leading_token(t, c.start_tokens);
    assert(without_leading(payload, c.start_tokens) == t);
    assert(t.subrange(t.len() - token.len(), t.len() as int) =~= token);
    lemma_is_trailing_token(t, c.end_tokens, j);
    assert(t.take(t.len() - token.len()) =~= rest);
    let u = text::trimmed(rest);
    text::law_trim_twice(rest);
    text::lemma_trimmed(rest);
    lemma_no_leading_token(u, c.start_tokens);
    assert(without_leading(rest, c.start_tokens) == u);
    assert(without_trailing(rest, c.end_tokens) == without_trailing(u, c.end_tokens));
}

/// Strict recovery takes over exactly where it is on, at the end of a stream, for a family that is
/// not parsed bare, where a marker stands in the message, its payload makes no call, as it stands
/// or closed, something usable follows the start token, and the family does not drop the wrapper.
pub proof fn law_strict_recovery_takes_over_where_nothing_else_did(
    message: Seq<char>,
    c: config::JsonParserConfigView,
)
    ensures
        ({
            let e = extraction(message, c);
            let s = text::trimmed(message);
            let marked = (exists|i: int|
                0 <= i < c.start_tokens.len() && (#[trigger] c.start_tokens[i]).len() > 0
                    && text::contains_text(s, c.start_tokens[i])) || (exists|i: int|
                0 <= i < c.end_tokens.len() && (#[trigger] c.end_tokens[i]).len() > 0
                    && text::contains_text(s, c.end_tokens[i]));
            let closed_makes_one = c.repair_truncated_body && (json_repair::repaired(
                e.payload,
            ) matches Some(whole) && json_calls::recognized_calls(whole) matches Some(calls)
                && calls.len() > 0);
            recovered_strictly(message, c) <==> {
                &&& c.strip_markup_on_recovery
                &&& c.allow_eof_recovery
                &&& !c.bare_json_mode
                &&& c.start_tokens.len() > 0
                &&& s.len() > 0
                &&& marked
                &&& json_calls::recognized_calls(e.payload) is None
                &&& !closed_makes_one
                &&& !e.blank
                &&& !(e.framed && c.drop_unusable_json_wrapper && json::json_raw(e.payload) is Some)
            }
        }),
{
}

proof fn lemma_utf8_width(c: char)
    ensures
        utf8_width(c) == vstd::utf8::encode_scalar(c as u32).len(),
{
    vstd::utf8::char_is_scalar(c);
}

proof fn lemma_utf8_len(s: Seq<char>)
    ensures
        utf8_len(s) == vstd::utf8::encode_utf8(s).len(),
    decreases s.len(),
{
    if s.len() > 0 {
        let t = s.drop_first();
        lemma_utf8_len(t);
        lemma_utf8_len_front(s);
        lemma_utf8_width(s[0]);
    }
}

proof fn lemma_utf8_len_front(s: Seq<char>)
    requires
        s.len() > 0,
    ensures
        utf8_len(s) == utf8_width(s[0]) + utf8_len(s.drop_first()),
    decreases s.len(),
{
    if s.len() == 1 {
        assert(s.drop_last() =~= seq![]);
        assert(s.drop_first() =~= seq![]);
    } else {
        lemma_utf8_len_front(s.drop_last());
        assert(s.drop_last().drop_first() =~= s.drop_first().drop_last());
    }
}

/// A tool call may start in a chunk exactly where the chunk, trimmed, holds an opening brace or
/// bracket, or a start token, or ends with the first characters of one, or holds anywhere the
/// first characters of one that take at least three bytes.
pub proof fn law_call_may_start_where_a_token_shows(
    chunk: Seq<char>,
    c: config::JsonParserConfigView,
)
    ensures
        ({
            let s = text::trimmed(chunk);
            detects(chunk, c) <==> s.len() > 0 && {
                ||| exists|i: int| 0 <= i < s.len() && (#[trigger] s[i] == '{' || s[i] == '[')
                ||| exists|i: int|
                    0 <= i < c.start_tokens.len() && (#[trigger] c.start_tokens[i]).len() > 0
                        && text::contains_text(s, c.start_tokens[i])
                ||| exists|i: int, n: int|
                    0 <= i < c.start_tokens.len() && 0 < n <= c.start_tokens[i].len() && (
                    text::has_suffix(s, #[trigger] c.start_tokens[i].take(n)) || (
                    vstd::utf8::encode_utf8(c.start_tokens[i].take(n)).len() >= 3
                        && text::contains_text(s, c.start_tokens[i].take(n))))
            }
        }),
{
    let s = text::trimmed(chunk);
    assert forall|i: int, n: int|
        0 <= i < c.start_tokens.len() && 0 < n <= c.start_tokens[i].len() implies prefix_shows(
        s,
        #[trigger] c.start_tokens[i].take(n),
    ) == (text::has_suffix(s, c.start_tokens[i].take(n)) || (vstd::utf8::encode_utf8(
        c.start_tokens[i].take(n),
    ).len() >= 3 && text::contains_text(s, c.start_tokens[i].take(n)))) by {
        let p = c.start_tokens[i].take(n);
        lemma_utf8_len(p);
        if s == p {
            assert(s.subrange(0, s.len() as int) =~= s);
            assert(text::has_suffix(s, p));
        }
        if text::has_suffix(s, p) {
            assert(text::occurs_at(s, p, s.len() - p.len()));
        }
    }
    assert forall|i: int| 0 <= i < c.start_tokens.len() implies token_may_start(
        s,
        #[trigger] c.start_tokens[i],
    ) == exists|n: int|
        0 < n <= c.start_tokens[i].len() && (text::has_suffix(
            s,
            #[trigger] c.start_tokens[i].take(n),
        ) || (vstd::utf8::encode_utf8(c.start_tokens[i].take(n)).len() >= 3 && text::contains_text(
            s,
            c.start_tokens[i].take(n),
        ))) by {
    }
}

/// The number of bytes that a text takes is that of its encoding.
pub proof fn law_width_is_that_of_the_encoding(s: Seq<char>)
    ensures
        utf8_len(s) == vstd::utf8::encode_utf8(s).len(),
{
    lemma_utf8_len(s);
}

/// What a reading of a payload comes to: the calls that it found, and the text that it lets pass.
/// The narration is handed on where there is a call, and trimmed where a payload was recognized
/// without one. A payload that comes back as text brings the whole trimmed message; a payload
/// that was dropped or salvaged brings no text.
pub proof fn law_reading_lets_its_text_pass(
    reading: Reading,
    trimmed: Seq<char>,
    normal: Seq<char>,
    narrated: Seq<char>,
)
    ensures
        reading matches Reading::Recognized(calls) ==> reading_calls(reading) == calls@ && (
        calls@.len() > 0 ==> reading_text(reading, trimmed, normal, narrated) == narrated) && (
        calls@.len() == 0 ==> reading_text(reading, trimmed, normal, narrated) == normal),
        reading matches Reading::Salvaged(Some(calls)) ==> reading_calls(reading) == calls@,
        reading == Reading::Salvaged(None) ==> reading_calls(reading).len() == 0,
        reading is Salvaged || reading is Dropped ==> reading_text(
            reading,
            trimmed,
            normal,
            narrated,
        ).len() == 0,
        reading is Dropped || reading is Unusable || reading is Unread ==> reading_calls(
            reading,
        ).len() == 0,
        reading is Unusable || reading is Unread ==> reading_text(
            reading,
            trimmed,
            normal,
            narrated,
        ) == trimmed,
{
}

/// A last start token that no call follows changes nothing: where what follows it does not begin
/// with a brace or makes no call, or the family does not recover a last call, or the stream has
/// not ended, the closed body is the payload and nothing follows it.
pub proof fn law_unclosed_text_is_no_last_call(
    message: Seq<char>,
    before: Seq<char>,
    j: int,
    body: Seq<char>,
    between: Seq<char>,
    last: Seq<char>,
    c: config::JsonParserConfigView,
)
    requires
        !c.bare_json_mode,
        0 <= j < c.start_tokens.len(),
        c.start_tokens[j].len() > 0,
        c.end_tokens.len() > 0,
        c.end_tokens[0].len() > 0,
        frames::can_frame(c.start_tokens[j], c.end_tokens[0]),
        text::trimmed(message) == before + c.start_tokens[j] + (body + c.end_tokens[0] + (between
            + c.start_tokens[j] + last)),
        earlier_absent(text::trimmed(message), c.start_tokens, j),
        stands_first_at(text::trimmed(message), c.start_tokens[j], before.len() as int),
        stands_first_at(
            body + c.end_tokens[0] + (between + c.start_tokens[j] + last),
            c.end_tokens[0],
            body.len() as int,
        ),
        stands_first_at(
            between + c.start_tokens[j] + last,
            c.start_tokens[j],
            between.len() as int,
        ),
        !text::contains_text(last, c.end_tokens[0]),
        !(text::trimmed(last).len() > 0 && text::trimmed(last)[0] == '{') || json_calls::called(
            text::trimmed(last),
        ) is None || !c.allow_eof_recovery || !c.recover_trailing_unclosed_call,
    ensures
        ({
            let e = extraction(message, c);
            &&& e.trailing is None
            &&& e.payload == text::trimmed(body)
            &&& e.framed
            &&& e.blank == (text::trimmed(body).len() == 0)
        }),
{
    let s = text::trimmed(message);
    let start = c.start_tokens[j];
    let end = c.end_tokens[0];
    let rest = between + start + last;
    text::law_first_occurrence_parts(before, start, body + end + rest);
    frames::law_first_body_is_framed(before, start, body, end, rest);
    text::law_first_occurrence_parts(between, start, last);
    frames::law_nothing_is_framed_without_both_tokens(rest, start, end);
    let found = frames::framed(s, start, end);
    let t = text::trimmed(body);
    assert(found =~= seq![body]);
    assert(trimmed_all(found) =~= seq![t]);
    let content = Content {
        payload: t,
        blank: t.len() == 0,
        framed: true,
        trailing: None,
        announced: false,
    };
    assert(pair_content(s, start, end, c) == Some(content));
    assert(content_of_start(s, start, c.end_tokens, c) == Some(content));
    lemma_extraction_by_start(message, before, body + end + rest, j, content, c);
}

/// A last call after a payload that makes none, as it stands or closed. Where the payload is not
/// JSON, something usable follows the first start token, and strict recovery does not take over,
/// the whole message comes back as text and the last call with it. Else the last call comes after
/// what strict recovery finds, which is nothing where the payload is dropped, with the narration,
/// or with no text where strict recovery is on.
pub proof fn law_last_call_after_a_payload_without_calls(
    message: Seq<char>,
    body: Seq<char>,
    call: CallText,
    c: config::JsonParserConfigView,
)
    requires
        extraction(message, c).trailing == Some(body),
        json_calls::called(body) == Some(call),
        json_calls::recognized_calls(extraction(message, c).payload) is None,
        c.repair_truncated_body ==> (json_repair::repaired(
            extraction(message, c).payload,
        ) matches Some(whole) ==> (json_calls::recognized_calls(whole) matches Some(calls)
            ==> calls.len() == 0)),
    ensures
        ({
            let e = extraction(message, c);
            let s = text::trimmed(message);
            let strict = c.strip_markup_on_recovery;
            let dropped = e.blank || (e.framed && c.drop_unusable_json_wrapper && json::json_raw(
                e.payload,
            ) is Some);
            &&& !e.blank && !strict && json::json_raw(e.payload) is None ==> outcome(
                message,
                c,
            ).calls.len() == 0 && outcome(message, c).normal == s
            &&& !strict && (e.blank || json::json_raw(e.payload) is Some) ==> outcome(
                message,
                c,
            ).calls == seq![call] && outcome(message, c).normal == e.narrated
            &&& strict && dropped ==> outcome(message, c).calls == seq![call] && outcome(
                message,
                c,
            ).normal.len() == 0
            &&& strict && !dropped && json_calls::recognized_calls(stripped(e.payload, c)) is None
                ==> outcome(message, c).calls == seq![call] && outcome(message, c).normal.len() == 0
            &&& strict && !dropped ==> (json_calls::recognized_calls(
                stripped(e.payload, c),
            ) matches Some(calls) ==> outcome(message, c).calls == calls.push(call) && outcome(
                message,
                c,
            ).normal.len() == 0)
        }),
{
    law_trailing_call_stands_in_the_message(message, c);
    let s = text::trimmed(message);
    let i = choose|i: int|
        0 <= i < c.start_tokens.len() && (#[trigger] c.start_tokens[i]).len() > 0
            && text::contains_text(s, c.start_tokens[i]);
    let at = choose|at: int| text::occurs_at(s, c.start_tokens[i], at);
    assert(s.len() > 0);
    let none = Seq::<CallText>::empty();
    assert(none.push(call) =~= seq![call]);
}

/// Of the start tokens, the first in the list that extracts something counts, and of the end
/// tokens the first that extracts something with it.
pub proof fn law_first_tokens_that_extract_count(
    s: Seq<char>,
    j: int,
    k: int,
    starts: Seq<Seq<char>>,
    ends: Seq<Seq<char>>,
    c: config::JsonParserConfigView,
)
    requires
        0 <= j < starts.len(),
        0 <= k < ends.len(),
        pair_content(s, starts[j], ends[k], c) is Some,
        forall|i: int| 0 <= i < k ==> pair_content(s, starts[j], #[trigger] ends[i], c) is None,
        forall|i: int| 0 <= i < j ==> content_of_start(s, #[trigger] starts[i], ends, c) is None,
    ensures
        content_of_start(s, starts[j], ends, c) == pair_content(s, starts[j], ends[k], c),
        content_of_any(s, starts, ends, c) == Some(
            (starts[j], pair_content(s, starts[j], ends[k], c).unwrap()),
        ),
{
    lemma_first_end_extracts(s, starts[j], ends, k, c);
    lemma_first_start_extracts(s, starts, j, ends, c);
}

/// Calls that a start token announces, with nothing to close them, are those that the announced
/// values make, in their order, with the text before the start token. Where it announces no value,
/// nothing comes back.
pub proof fn law_announced_values_make_the_calls(
    message: Seq<char>,
    before: Seq<char>,
    j: int,
    k: int,
    after: Seq<char>,
    c: config::JsonParserConfigView,
)
    requires
        !c.bare_json_mode,
        0 <= j < c.start_tokens.len(),
        c.start_tokens[j].len() > 0,
        0 <= k < c.end_tokens.len(),
        c.end_tokens[k].len() == 0,
        k > 0 ==> !c.allow_eof_recovery,
        text::trimmed(message) == before + c.start_tokens[j] + after,
        earlier_absent(text::trimmed(message), c.start_tokens, j),
        stands_first_at(text::trimmed(message), c.start_tokens[j], before.len() as int),
        forall|i: int|
            0 <= i < k ==> (#[trigger] c.end_tokens[i]).len() > 0 && !text::contains_text(
                after,
                c.end_tokens[i],
            ),
        announced_values(text::trimmed(message), c.start_tokens[j]).len() > 0 ==> json::json_items(
            text::bracketed(announced_values(text::trimmed(message), c.start_tokens[j])),
        ) == Some(announced_values(text::trimmed(message), c.start_tokens[j])),
        json_calls::recognized_calls(Seq::empty()) is None,
    ensures
        ({
            let values = announced_values(text::trimmed(message), c.start_tokens[j]);
            let calls = json_calls::item_calls(values);
            let normal = if c.start_tokens[j] == "[TOOL_CALLS]"@ {
                before
            } else {
                text::trimmed(before)
            };
            &&& outcome(message, c).calls == calls
            &&& values.len() == 0 ==> outcome(message, c).normal.len() == 0
            &&& values.len() > 0 && calls.len() == 0 ==> outcome(message, c).normal == normal
            &&& calls.len() > 0 && !c.preserve_normal_text_whitespace ==> outcome(message, c).normal
                == normal
            &&& calls.len() > 0 && c.preserve_normal_text_whitespace ==> outcome(message, c).normal
                == message.take(text::leading_white(message) as int) + before
        }),
{
    law_announced_values_are_the_payload(message, before, j, k, after, c);
    let s = text::trimmed(message);
    let values = announced_values(s, c.start_tokens[j]);
    let e = extraction(message, c);
    json_calls::law_calls_of_two_lists(Seq::empty(), Seq::empty(), Seq::empty());
    if values.len() > 0 {
        assert(e.payload == text::bracketed(values));
        law_recognized_payload_gives_its_calls(message, json_calls::item_calls(values), c);
    } else {
        assert(values =~= Seq::empty());
        assert(e.payload =~= Seq::empty());
        json_repair::law_what_is_lacking_follows_the_text(Seq::empty(), ' ');
        assert(json_repair::repaired(e.payload) is None);
        law_payload_without_calls(message, c);
        assert(outcome(message, c).calls =~= json_calls::item_calls(values));
    }
}

/// Several calls, each between its tokens, give the calls of all of them, in their order.
pub proof fn law_closed_bodies_make_the_calls(
    message: Seq<char>,
    bodies: Seq<Seq<char>>,
    c: config::JsonParserConfigView,
)
    requires
        !c.bare_json_mode,
        c.start_tokens.len() == 1,
        c.end_tokens.len() == 1,
        c.start_tokens[0].len() > 0,
        c.end_tokens[0].len() > 0,
        frames::can_frame(c.start_tokens[0], c.end_tokens[0]),
        bodies.len() > 1,
        frames::framed(text::trimmed(message), c.start_tokens[0], c.end_tokens[0]).len()
            == bodies.len(),
        forall|i: int|
            0 <= i < bodies.len() ==> #[trigger] bodies[i] == text::trimmed(
                frames::framed(text::trimmed(message), c.start_tokens[0], c.end_tokens[0])[i],
            ),
        !c.recover_trailing_unclosed_call || !c.allow_eof_recovery || !text::contains_text(
            frames::after_frames(text::trimmed(message), c.start_tokens[0], c.end_tokens[0]),
            c.start_tokens[0],
        ),
        json::json_items(text::bracketed(bodies)) == Some(bodies),
    ensures
        outcome(message, c).calls == json_calls::item_calls(bodies),
        json_calls::item_calls(bodies).len() > 0 ==> outcome(message, c).normal == extraction(
            message,
            c,
        ).narrated,
{
    let s = text::trimmed(message);
    let start = c.start_tokens[0];
    let end = c.end_tokens[0];
    let rest = frames::after_frames(s, start, end);
    text::lemma_contains_text(rest, start);
    assert(trailing_body(s, start, end, c) is None);
    law_closed_bodies_are_joined(message, c);
    assert(trimmed_all(frames::framed(s, start, end)) =~= bodies);
    lemma_framed_stand(s, start, end);
    assert(text::contains_text(s, c.start_tokens[0]));
    assert(holds_token(s, c.start_tokens));
    let at = choose|at: int| text::occurs_at(s, start, at);
    assert(s.len() > 0);
    let content = Content {
        payload: text::bracketed(bodies),
        blank: false,
        framed: true,
        trailing: None,
        announced: false,
    };
    assert(framed_content(s, start, end) == Some(text::bracketed(bodies)));
    assert(pair_content(s, start, end, c) == Some(content));
    assert(content_of_start(s, start, c.end_tokens, c) == Some(content));
    assert(content_of_any(s, c.start_tokens, c.end_tokens, c) == Some((start, content)));
    assert(extraction(message, c).trailing is None);
    law_recognized_payload_gives_its_calls(message, json_calls::item_calls(bodies), c);
}

proof fn lemma_no_start_extracts(
    s: Seq<char>,
    starts: Seq<Seq<char>>,
    ends: Seq<Seq<char>>,
    c: config::JsonParserConfigView,
)
    requires
        forall|i: int|
            0 <= i < starts.len() ==> content_of_start(s, #[trigger] starts[i], ends, c) is None,
    ensures
        content_of_any(s, starts, ends, c) is None,
    decreases starts.len(),
{
    if starts.len() > 0 {
        assert(content_of_start(s, starts[0], ends, c) is None);
        let rest = starts.skip(1);
        assert forall|i: int| 0 <= i < rest.len() implies content_of_start(
            s,
            #[trigger] rest[i],
            ends,
            c,
        ) is None by {
            assert(rest[i] == starts[i + 1]);
        }
        lemma_no_start_extracts(s, rest, ends, c);
    }
}

/// Where a start token stands in the message but what follows it is neither closed nor looks like
/// JSON, the whole trimmed message is both payload and text, also at the end of a stream.
pub proof fn law_start_token_before_plain_text_extracts_nothing(
    message: Seq<char>,
    before: Seq<char>,
    after: Seq<char>,
    c: config::JsonParserConfigView,
)
    requires
        !c.bare_json_mode,
        c.start_tokens.len() == 1,
        c.end_tokens.len() == 1,
        c.start_tokens[0].len() > 0,
        c.end_tokens[0].len() > 0,
        text::trimmed(message) == before + c.start_tokens[0] + after,
        stands_first_at(text::trimmed(message), c.start_tokens[0], before.len() as int),
        !text::contains_text(after, c.end_tokens[0]),
        !(text::trimmed(after).len() > 0 && (text::trimmed(after)[0] == '{' || text::trimmed(
            after,
        )[0] == '[')) || !c.allow_eof_recovery,
    ensures
        ({
            let e = extraction(message, c);
            &&& e.payload == text::trimmed(message)
            &&& e.normal == text::trimmed(message)
            &&& e.narrated == text::trimmed(message)
            &&& !e.blank
            &&& !e.framed
            &&& e.trailing is None
            &&& e.announced is None
        }),
{
    let s = text::trimmed(message);
    let start = c.start_tokens[0];
    let end = c.end_tokens[0];
    text::law_first_occurrence_parts(before, start, after);
    assert(text::contains_text(s, c.start_tokens[0]));
    assert(holds_token(s, c.start_tokens));
    frames::law_nothing_is_framed_without_both_tokens(s, start, end);
    assert(closed_bodies(s, start, end).len() == 0);
    assert(pair_content(s, start, end, c) is None);
    assert(c.end_tokens.skip(1).len() == 0);
    assert(content_of_start(s, start, c.end_tokens.skip(1), c) is None);
    assert(content_of_start(s, start, c.end_tokens, c) is None);
    lemma_no_start_extracts(s, c.start_tokens, c.end_tokens, c);
}

/// A message without an opening brace or bracket, and without a start token where the family has
/// any to look for, is payload and text as a whole.
pub proof fn law_message_without_opening_is_text(
    message: Seq<char>,
    c: config::JsonParserConfigView,
)
    requires
        c.bare_json_mode || earlier_absent(
            text::trimmed(message),
            c.start_tokens,
            c.start_tokens.len() as int,
        ),
        forall|k: int|
            0 <= k < text::trimmed(message).len() ==> #[trigger] text::trimmed(message)[k] != '{'
                && text::trimmed(message)[k] != '[',
    ensures
        ({
            let e = extraction(message, c);
            &&& e.payload == text::trimmed(message)
            &&& e.normal == text::trimmed(message)
            &&& e.narrated == text::trimmed(message)
            &&& !e.blank
            &&& !e.framed
            &&& e.trailing is None
            &&& e.announced is None
        }),
{
    let s = text::trimmed(message);
    text::law_first_opening_is_first(s, 0);
    if !c.bare_json_mode && holds_token(s, c.start_tokens) {
        let i = choose|i: int|
            0 <= i < c.start_tokens.len() && (#[trigger] c.start_tokens[i]).len() > 0
                && text::contains_text(s, c.start_tokens[i]);
        assert(c.start_tokens[i].len() == 0 || !text::contains_text(s, c.start_tokens[i]));
    }
}

} // verus!
