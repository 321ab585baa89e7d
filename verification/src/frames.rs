//! Bodies framed by a start token and an end token.

use regex::RegexBuilder;
use vstd::prelude::*;

use crate::text;

verus! {

/// The bodies that `start` and `end` frame in `s`: from the left, a body reaches from a start
/// token to the nearest end token after it, and the search goes on past that end token.
pub open spec fn framed(s: Seq<char>, start: Seq<char>, end: Seq<char>) -> Seq<Seq<char>>
    decreases s.len(),
{
    match first_frame(s, start, end) {
        Some((body, rest)) => if rest.len() < s.len() {
            seq![body] + framed(rest, start, end)
        } else {
            seq![]
        },
        None => seq![],
    }
}

/// The first body that `start` and `end` frame in `s`, and what follows its end token.
pub open spec fn first_frame(s: Seq<char>, start: Seq<char>, end: Seq<char>) -> Option<
    (Seq<char>, Seq<char>),
> {
    match text::around_first(s, start) {
        Some((_, after)) => text::around_first(after, end),
        None => None,
    }
}

/// What follows the last frame, which is all where there is no frame.
pub open spec fn after_frames(s: Seq<char>, start: Seq<char>, end: Seq<char>) -> Seq<char>
    decreases s.len(),
{
    match first_frame(s, start, end) {
        Some((_, rest)) => if rest.len() < s.len() {
            after_frames(rest, start, end)
        } else {
            s
        },
        None => s,
    }
}

/// What follows the last frame in a text.
pub fn rest_after_frames<'a>(s: &'a str, start: &str, end: &str) -> (r: &'a str)
    ensures
        r@ == after_frames(s@, start@, end@),
{
    let mut rest: &'a str = s;
    loop
        invariant
            after_frames(rest@, start@, end@) == after_frames(s@, start@, end@),
        decreases rest@.len(),
    {
        match text::split_first(rest, start) {
            None => {
                return rest;
            },
            Some((_, opened)) => match text::split_first(opened, end) {
                None => {
                    return rest;
                },
                Some((_, next)) => {
                    if next.unicode_len() < rest.unicode_len() {
                        rest = next;
                    } else {
                        return rest;
                    }
                },
            },
        }
    }
}

/// The characters that a regular expression gives a meaning of their own.
pub open spec fn is_meta(c: char) -> bool {
    ||| c == '\\'
    ||| c == '.'
    ||| c == '+'
    ||| c == '*'
    ||| c == '?'
    ||| c == '('
    ||| c == ')'
    ||| c == '|'
    ||| c == '['
    ||| c == ']'
    ||| c == '{'
    ||| c == '}'
    ||| c == '^'
    ||| c == '$'
    ||| c == '#'
    ||| c == '&'
    ||| c == '-'
    ||| c == '~'
}

/// `s` with a backslash before each character that has a meaning of its own.
pub open spec fn escaped(s: Seq<char>) -> Seq<char>
    decreases s.len(),
{
    if s.len() == 0 {
        seq![]
    } else if is_meta(s.last()) {
        escaped(s.drop_last()) + seq!['\\', s.last()]
    } else {
        escaped(s.drop_last()).push(s.last())
    }
}

/// The pattern whose first group is the shortest body between two literal tokens.
pub open spec fn frame_pattern(start: Seq<char>, end: Seq<char>) -> Seq<char> {
    escaped(start) + "(.*?)"@ + escaped(end)
}

/// The text is a pattern that frames a body between two non-empty tokens.
pub open spec fn is_frame_pattern(pattern: Seq<char>) -> bool {
    exists|start: Seq<char>, end: Seq<char>|
        start.len() > 0 && end.len() > 0 && pattern == #[trigger] frame_pattern(start, end)
}

/// Whether the pattern compiles, with `.` matching line breaks, within the size that a
/// compiled pattern may have on a machine with words of so many bits.
pub uninterp spec fn pattern_compiles(pattern: Seq<char>, word_bits: nat) -> bool;

/// Whether `start` and `end` are small enough to search for.
pub open spec fn can_frame(start: Seq<char>, end: Seq<char>) -> bool {
    pattern_compiles(frame_pattern(start, end), usize::BITS as nat)
}

/// Calls `regex::escape`, which puts a backslash before each meta character and keeps the
/// others.
#[verifier::external_body]
fn escape_pattern(literal: &str) -> (r: String)
    ensures
        r@ == escaped(literal@),
{
    regex::escape(literal)
}

/// Calls `RegexBuilder::build`, with `.` matching line breaks, and `Regex::captures_iter`.
/// Claimed of them: whether the pattern compiles is a function of the pattern and of the
/// width of a machine word, by which the size of the compiled pattern is counted; the matches
/// of a pattern that frames a body between two literal tokens are the framed bodies, from
/// the left and without overlap, and group 1 is the body.
#[verifier::external_body]
fn capture_bodies(pattern: &str, input: &str) -> (r: Option<Vec<String>>)
    requires
        is_frame_pattern(pattern@),
    ensures
        r is Some <==> pattern_compiles(pattern@, usize::BITS as nat),
        r matches Some(bodies) ==> forall|start: Seq<char>, end: Seq<char>|
            start.len() > 0 && end.len() > 0 && pattern@ == #[trigger] frame_pattern(start, end)
                ==> text::texts(bodies@) == framed(input@, start, end),
{
    let regex = RegexBuilder::new(pattern).dot_matches_new_line(true).build().ok()?;
    Some(regex.captures_iter(input).map(|captures| captures[1].to_string()).collect())
}

/// Finds the bodies that two tokens frame in a text; `None` where the tokens are too large
/// to search for.
pub fn find_frames(input: &str, start: &str, end: &str) -> (r: Option<Vec<String>>)
    requires
        start@.len() > 0,
        end@.len() > 0,
    ensures
        r is Some <==> can_frame(start@, end@),
        r matches Some(bodies) ==> text::texts(bodies@) == framed(input@, start@, end@),
{
    let mut pattern: String = escape_pattern(start);
    pattern.append("(.*?)");
    let tail: String = escape_pattern(end);
    pattern.append(tail.as_str());
    assert(pattern@ == frame_pattern(start@, end@));
    capture_bodies(pattern.as_str(), input)
}

/// The first body between two tokens: where a text is something, a start token that stands nowhere
/// earlier, a body, an end token that stands nowhere earlier after the start token, and a rest,
/// the framed bodies are the body, as it is, and then those of the rest; and what follows the
/// last frame is what follows the last frame of the rest.
pub proof fn law_first_body_is_framed(
    before: Seq<char>,
    start: Seq<char>,
    body: Seq<char>,
    end: Seq<char>,
    rest: Seq<char>,
)
    requires
        start.len() > 0,
        forall|k: int|
            0 <= k < before.len() ==> #[trigger] (before + start + (body + end + rest)).skip(
                k,
            ).take(start.len() as int) != start,
        forall|k: int|
            0 <= k < body.len() ==> #[trigger] (body + end + rest).skip(k).take(end.len() as int)
                != end,
    ensures
        framed(before + start + (body + end + rest), start, end) == seq![body] + framed(
            rest,
            start,
            end,
        ),
        after_frames(before + start + (body + end + rest), start, end) == after_frames(
            rest,
            start,
            end,
        ),
{
    text::law_first_occurrence_parts(before, start, body + end + rest);
    text::law_first_occurrence_parts(body, end, rest);
}

/// A text in which no start token stands, or no end token after the first start token, frames
/// nothing, and all of it is left.
pub proof fn law_nothing_is_framed_without_both_tokens(
    s: Seq<char>,
    start: Seq<char>,
    end: Seq<char>,
)
    requires
        text::around_first(s, start) matches Some(p) ==> !text::contains_text(p.1, end),
    ensures
        framed(s, start, end).len() == 0,
        after_frames(s, start, end) == s,
{
    if let Some(p) = text::around_first(s, start) {
        text::lemma_contains_text(p.1, end);
    }
}

/// The pattern of a frame is the start token, the shortest body, and the end token, with each
/// character of the tokens that has a meaning of its own behind a backslash. Tokens can be
/// searched for exactly where this pattern compiles.
pub proof fn law_pattern_takes_the_tokens_literally(
    start: Seq<char>,
    end: Seq<char>,
    a: Seq<char>,
    b: Seq<char>,
    c: char,
)
    ensures
        frame_pattern(start, end) == escaped(start) + seq!['(', '.', '*', '?', ')'] + escaped(end),
        can_frame(start, end) <==> pattern_compiles(frame_pattern(start, end), usize::BITS as nat),
        escaped(a + b) == escaped(a) + escaped(b),
        escaped(Seq::empty()).len() == 0,
        is_meta(c) ==> escaped(seq![c]) == seq!['\\', c],
        !is_meta(c) ==> escaped(seq![c]) == seq![c],
    decreases b.len(),
{
    reveal_strlit("(.*?)");
    assert("(.*?)"@ =~= seq!['(', '.', '*', '?', ')']);
    assert(seq![c].drop_last() =~= Seq::empty());
    assert(escaped(seq![c].drop_last()) =~= seq![]);
    assert(escaped(seq![c]) =~= if is_meta(c) {
        seq!['\\', c]
    } else {
        seq![c]
    });
    if b.len() == 0 {
        assert(a + b =~= a);
        assert(escaped(a + b) =~= escaped(a) + escaped(b));
    } else {
        law_pattern_takes_the_tokens_literally(start, end, a, b.drop_last(), c);
        assert((a + b).drop_last() =~= a + b.drop_last());
        assert(escaped(a + b) =~= escaped(a) + escaped(b));
    }
}

} // verus!
