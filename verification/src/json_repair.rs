//! Closing what a truncated JSON text left open.

use vstd::prelude::*;

use crate::json;

verus! {

/// Where a reader of JSON text stands: the closers it is owed, innermost last, whether it
/// is inside a string, and whether the next character is escaped.
pub struct JsonScan {
    pub closers: Seq<char>,
    pub in_string: bool,
    pub escape: bool,
}

/// The reader before the first character.
pub open spec fn scan_start() -> JsonScan {
    JsonScan { closers: seq![], in_string: false, escape: false }
}

/// The reader after one more character.
pub open spec fn scan_step(at: JsonScan, c: char) -> JsonScan {
    if at.escape {
        JsonScan { escape: false, ..at }
    } else if at.in_string {
        JsonScan { escape: c == '\\', in_string: c != '"', ..at }
    } else if c == '"' {
        JsonScan { in_string: true, ..at }
    } else if c == '{' {
        JsonScan { closers: at.closers.push('}'), ..at }
    } else if c == '[' {
        JsonScan { closers: at.closers.push(']'), ..at }
    } else if (c == '}' || c == ']') && at.closers.len() > 0 {
        JsonScan { closers: at.closers.drop_last(), ..at }
    } else {
        at
    }
}

/// The reader after a stretch of text.
pub open spec fn scan_from(at: JsonScan, s: Seq<char>) -> JsonScan
    decreases s.len(),
{
    if s.len() == 0 {
        at
    } else {
        scan_step(scan_from(at, s.drop_last()), s.last())
    }
}

/// The reader after a whole text.
pub open spec fn scan(s: Seq<char>) -> JsonScan {
    scan_from(scan_start(), s)
}

/// What brings the reader to rest: the rest of an escape, the end of a string, and the
/// closers that are owed, innermost first.
pub open spec fn closing(at: JsonScan) -> Seq<char> {
    (if at.escape {
        seq!['\\']
    } else {
        seq![]
    }) + (if at.in_string {
        seq!['"']
    } else {
        seq![]
    }) + at.closers.reverse()
}

/// The text with what it left open closed; `None` where it left nothing open.
pub open spec fn repaired(s: Seq<char>) -> Option<Seq<char>> {
    let missing = closing(scan(s));
    if missing.len() == 0 {
        None
    } else {
        Some(s + missing)
    }
}

proof fn lemma_scan_concat(at: JsonScan, a: Seq<char>, b: Seq<char>)
    ensures
        scan_from(at, a + b) == scan_from(scan_from(at, a), b),
    decreases b.len(),
{
    if b.len() == 0 {
        assert(a + b =~= a);
    } else {
        lemma_scan_concat(at, a, b.drop_last());
        assert((a + b).drop_last() =~= a + b.drop_last());
    }
}

proof fn lemma_scan_one(at: JsonScan, c: char)
    ensures
        scan_from(at, seq![c]) == scan_step(at, c),
{
    assert(seq![c].drop_last() =~= seq![]);
    assert(scan_from(at, seq![c].drop_last()) == at);
}

/// An escape is open only inside a string, and what is owed are closing braces and
/// brackets.
proof fn lemma_scan_shape(at: JsonScan, s: Seq<char>)
    requires
        at.escape ==> at.in_string,
        forall|i: int| 0 <= i < at.closers.len() ==> #[trigger] at.closers[i] == '}' || at.closers[i]
            == ']',
    ensures
        ({
            let end = scan_from(at, s);
            &&& end.escape ==> end.in_string
            &&& forall|i: int|
                0 <= i < end.closers.len() ==> #[trigger] end.closers[i] == '}' || end.closers[i]
                    == ']'
        }),
    decreases s.len(),
{
    if s.len() > 0 {
        lemma_scan_shape(at, s.drop_last());
    }
}

proof fn lemma_closers_bring_to_rest(closers: Seq<char>)
    requires
        forall|i: int| 0 <= i < closers.len() ==> #[trigger] closers[i] == '}' || closers[i] == ']',
    ensures
        scan_from(JsonScan { closers, in_string: false, escape: false }, closers.reverse())
            == scan_start(),
    decreases closers.len(),
{
    let at = JsonScan { closers, in_string: false, escape: false };
    if closers.len() == 0 {
        assert(closers =~= seq![]);
        assert(closers.reverse() =~= seq![]);
    } else {
        let c = closers.last();
        let inner = closers.drop_last();
        assert(closers.reverse() =~= seq![c] + inner.reverse());
        lemma_scan_concat(at, seq![c], inner.reverse());
        lemma_scan_one(at, c);
        lemma_closers_bring_to_rest(inner);
    }
}

/// A repaired text begins with the text that was repaired and leaves nothing open, so that
/// a second repair has nothing to do.
pub proof fn law_repair_is_final(s: Seq<char>)
    ensures
        repaired(s) matches Some(r) ==> {
            &&& s.len() < r.len()
            &&& r.take(s.len() as int) == s
            &&& scan(r) == scan_start()
            &&& repaired(r) is None
        },
{
    if let Some(r) = repaired(s) {
        let at = scan(s);
        lemma_scan_shape(scan_start(), s);
        let missing = closing(at);
        assert(r.take(s.len() as int) =~= s);
        lemma_scan_concat(scan_start(), s, missing);
        let a: Seq<char> = if at.escape {
            seq!['\\']
        } else {
            seq![]
        };
        let b: Seq<char> = if at.in_string {
            seq!['"']
        } else {
            seq![]
        };
        lemma_scan_concat(at, a + b, at.closers.reverse());
        lemma_scan_concat(at, a, b);
        let unescaped = scan_from(at, a);
        assert(unescaped == (JsonScan { escape: false, ..at })) by {
            if at.escape {
                lemma_scan_one(at, '\\');
            }
        }
        let outside = scan_from(unescaped, b);
        assert(outside == (JsonScan { escape: false, in_string: false, ..at })) by {
            if at.in_string {
                lemma_scan_one(unescaped, '"');
            }
        }
        lemma_closers_bring_to_rest(at.closers);
        assert(closing(scan_start()) =~= seq![]);
    }
}

/// Repairing brings no opening brace or bracket into a text that holds none.
pub proof fn lemma_repair_opens_nothing(s: Seq<char>)
    requires
        forall|i: int| 0 <= i < s.len() ==> #[trigger] s[i] != '{' && s[i] != '[',
    ensures
        repaired(s) matches Some(r) ==> forall|i: int|
            0 <= i < r.len() ==> #[trigger] r[i] != '{' && r[i] != '[',
{
    if let Some(r) = repaired(s) {
        let missing = closing(scan(s));
        lemma_scan_shape(scan_start(), s);
        assert forall|i: int| 0 <= i < r.len() implies #[trigger] r[i] != '{' && r[i] != '[' by {
            if i >= s.len() {
                assert(r[i] == missing[i - s.len()]);
            }
        }
    }
}

/// Closes what a text left open, where it left something open: the rest of an escape, a
/// string, and braces and brackets. A text that is JSON already is left alone.
pub fn try_repair_truncated_json(s: &str) -> (r: Option<String>)
    ensures
        r matches Some(out) ==> repaired(s@) == Some(out@),
        r is None ==> repaired(s@) is None,
        json::json_raw(s@) is Some ==> r is None,
{
    if json::read_raw(s).is_some() {
        return None;
    }
    let mut stack: Vec<char> = Vec::new();
    let mut in_string: bool = false;
    let mut escape: bool = false;
    assert(s@.take(0) =~= seq![]);
    for c in it: s.chars()
        invariant
            it.seq() == s@,
            scan(s@.take(it.index() as int)) == (JsonScan { closers: stack@, in_string, escape }),
    {
        let ghost at = JsonScan { closers: stack@, in_string, escape };
        if escape {
            escape = false;
        } else if in_string {
            if c == '\\' {
                escape = true;
            } else if c == '"' {
                in_string = false;
            }
        } else if c == '"' {
            in_string = true;
        } else if c == '{' {
            stack.push('}');
        } else if c == '[' {
            stack.push(']');
        } else if c == '}' || c == ']' {
            let _ = stack.pop();
        }
        proof {
            let n = it.index() as int;
            assert(s@.take(n + 1).drop_last() =~= s@.take(n));
            assert(scan(s@.take(n + 1)) == scan_step(at, c));
        }
    }
    assert(s@.take(s@.len() as int) =~= s@);
    let ghost at = scan(s@);
    proof {
        lemma_scan_shape(scan_start(), s@);
    }
    if !escape && !in_string && stack.len() == 0 {
        return None;
    }
    let mut out: String = s.to_string();
    proof {
        reveal_strlit("\\");
        reveal_strlit("\"");
        reveal_strlit("}");
        reveal_strlit("]");
        assert("\\"@ =~= seq!['\\']);
        assert("\""@ =~= seq!['"']);
        assert("}"@ =~= seq!['}']);
        assert("]"@ =~= seq![']']);
    }
    if escape {
        out.append("\\");
    }
    if in_string {
        out.append("\"");
    }
    let ghost quoted = out@;
    let ghost all = stack@.reverse();
    assert(quoted + all =~= s@ + closing(at));
    assert(all.take(0) =~= seq![]);
    let ghost mut closed: int = 0;
    while stack.len() > 0
        invariant
            0 <= closed,
            closed + stack@.len() == all.len(),
            stack@ == at.closers.take(stack@.len() as int),
            forall|i: int| 0 <= i < at.closers.len() ==> #[trigger] at.closers[i] == '}'
                || at.closers[i] == ']',
            "}"@ == seq!['}'],
            "]"@ == seq![']'],
            all == at.closers.reverse(),
            out@ == quoted + all.take(closed),
        decreases stack@.len(),
    {
        let ghost n = stack@.len() as int;
        if let Some(closer) = stack.pop() {
            assert(closer == at.closers[n - 1]);
            if closer == '}' {
                out.append("}");
            } else {
                out.append("]");
            }
            assert(all.take(closed + 1) =~= all.take(closed).push(closer));
            assert(out@ =~= quoted + all.take(closed + 1));
            proof {
                closed = closed + 1;
            }
        }
    }
    assert(all.take(all.len() as int) =~= all);
    Some(out)
}

/// What a repair appends to a text; nothing where nothing is to repair.
pub open spec fn missing(s: Seq<char>) -> Seq<char> {
    match repaired(s) {
        Some(r) => r.skip(s.len() as int),
        None => seq![],
    }
}

proof fn lemma_missing(s: Seq<char>)
    ensures
        missing(s) == closing(scan(s)),
        scan(s).escape ==> scan(s).in_string,
        forall|i: int|
            0 <= i < scan(s).closers.len() ==> #[trigger] scan(s).closers[i] == '}' || scan(
                s,
            ).closers[i] == ']',
{
    lemma_scan_shape(scan_start(), s);
    let m = closing(scan(s));
    if m.len() > 0 {
        assert((s + m).skip(s.len() as int) =~= m);
    } else {
        assert(m =~= seq![]);
    }
}

proof fn lemma_closing_front(at: JsonScan)
    requires
        at.escape ==> at.in_string,
        forall|i: int|
            0 <= i < at.closers.len() ==> #[trigger] at.closers[i] == '}' || at.closers[i] == ']',
    ensures
        at.escape <==> closing(at).len() > 0 && closing(at)[0] == '\\',
        at.in_string && !at.escape <==> closing(at).len() > 0 && closing(at)[0] == '"',
        !at.in_string ==> closing(at) == at.closers.reverse(),
        at.in_string && !at.escape ==> closing(at) == seq!['"'] + at.closers.reverse(),
        at.escape ==> closing(at) == seq!['\\', '"'] + at.closers.reverse(),
{
    let r = at.closers.reverse();
    if at.escape {
        assert(closing(at) =~= seq!['\\', '"'] + r);
    } else if at.in_string {
        assert(closing(at) =~= seq!['"'] + r);
    } else {
        assert(closing(at) =~= r);
        if r.len() > 0 {
            assert(r[0] == at.closers[at.closers.len() - 1]);
        }
    }
}

/// What a repair appends, from one character of a text to the next. An empty text lacks nothing.
/// Outside a string, an opening brace or bracket adds its closer in front of what is lacking, a
/// quote adds a quote, a closing brace or bracket takes the first closer away, and any other
/// character changes nothing. Inside a string, which lacks a quote first, a quote ends the
/// string, a backslash adds the rest of an escape, and any other character changes nothing. After
/// a backslash that is not yet followed, any character ends the escape.
pub proof fn law_what_is_lacking_follows_the_text(s: Seq<char>, c: char)
    ensures
        missing(Seq::<char>::empty()).len() == 0,
        repaired(s) is Some <==> missing(s).len() > 0,
        repaired(s) matches Some(r) ==> r == s + missing(s),
        ({
            let lacks = missing(s);
            let after = missing(s.push(c));
            let escaped = lacks.len() > 0 && lacks[0] == '\\';
            let quoted = lacks.len() > 0 && lacks[0] == '"';
            &&& escaped ==> after == lacks.skip(1)
            &&& quoted && c == '"' ==> after == lacks.skip(1)
            &&& quoted && c == '\\' ==> after == seq!['\\'] + lacks
            &&& quoted && c != '"' && c != '\\' ==> after == lacks
            &&& !escaped && !quoted && c == '"' ==> after == seq!['"'] + lacks
            &&& !escaped && !quoted && c == '{' ==> after == seq!['}'] + lacks
            &&& !escaped && !quoted && c == '[' ==> after == seq![']'] + lacks
            &&& !escaped && !quoted && (c == '}' || c == ']') && lacks.len() > 0 ==> after
                == lacks.skip(1)
            &&& !escaped && !quoted && (c == '}' || c == ']') && lacks.len() == 0 ==> after == lacks
            &&& !escaped && !quoted && c != '"' && c != '{' && c != '[' && c != '}' && c != ']'
                ==> after == lacks
        }),
{
    let empty = Seq::<char>::empty();
    lemma_missing(empty);
    assert(closing(scan(empty)) =~= seq![]);
    lemma_missing(s);
    lemma_missing(s.push(c));
    let at = scan(s);
    assert(s.push(c).drop_last() =~= s);
    let next = scan(s.push(c));
    assert(next == scan_step(at, c));
    lemma_closing_front(at);
    lemma_closing_front(next);
    if let Some(r) = repaired(s) {
        assert(r =~= s + missing(s));
    }
    let lacks = missing(s);
    let after = missing(s.push(c));
    let rest = at.closers.reverse();
    if at.escape {
        assert(after =~= lacks.skip(1));
    } else if at.in_string {
        if c == '"' {
            assert(after =~= lacks.skip(1));
        } else if c == '\\' {
            assert(after =~= seq!['\\'] + lacks);
        }
    } else if c == '"' {
        assert(after =~= seq!['"'] + lacks);
    } else if c == '{' {
        assert(at.closers.push('}').reverse() =~= seq!['}'] + rest);
    } else if c == '[' {
        assert(at.closers.push(']').reverse() =~= seq![']'] + rest);
    } else if c == '}' || c == ']' {
        if at.closers.len() > 0 {
            assert(at.closers.drop_last().reverse() =~= rest.skip(1));
        }
    }
}

} // verus!
