//! Text operations on `str`, specified over the sequence of characters a string holds.

use vstd::prelude::*;

verus! {

/// The characters with the Unicode property White_Space.
pub open spec fn is_white_space(c: char) -> bool {
    ||| '\u{9}' <= c && c <= '\u{d}'
    ||| c == ' '
    ||| c == '\u{85}'
    ||| c == '\u{a0}'
    ||| c == '\u{1680}'
    ||| '\u{2000}' <= c && c <= '\u{200a}'
    ||| c == '\u{2028}'
    ||| c == '\u{2029}'
    ||| c == '\u{202f}'
    ||| c == '\u{205f}'
    ||| c == '\u{3000}'
}

/// Calls `char::is_whitespace`, which holds exactly of the characters with the
/// Unicode property White_Space.
#[verifier::external_body]
fn char_is_whitespace(c: char) -> (r: bool)
    ensures
        r == is_white_space(c),
{
    c.is_whitespace()
}

/// `s` without its leading white space.
pub open spec fn trimmed_start(s: Seq<char>) -> Seq<char>
    decreases s.len(),
{
    if s.len() > 0 && is_white_space(s[0]) {
        trimmed_start(s.skip(1))
    } else {
        s
    }
}

/// `s` without its trailing white space.
pub open spec fn trimmed_end(s: Seq<char>) -> Seq<char>
    decreases s.len(),
{
    if s.len() > 0 && is_white_space(s.last()) {
        trimmed_end(s.drop_last())
    } else {
        s
    }
}

/// `s` without its leading and trailing white space.
pub open spec fn trimmed(s: Seq<char>) -> Seq<char> {
    trimmed_end(trimmed_start(s))
}

/// `t` stands in `s` at position `i`.
pub open spec fn occurs_at(s: Seq<char>, t: Seq<char>, i: int) -> bool {
    &&& 0 <= i
    &&& i + t.len() <= s.len()
    &&& s.subrange(i, i + t.len()) == t
}

/// `t` stands somewhere in `s`.
pub open spec fn contains_text(s: Seq<char>, t: Seq<char>) -> bool {
    exists|i: int| occurs_at(s, t, i)
}

/// The first position at or after `from` where `t` stands in `s`.
pub open spec fn first_at(s: Seq<char>, t: Seq<char>, from: int) -> Option<int>
    decreases s.len() - from,
{
    if from < 0 || from + t.len() > s.len() {
        None
    } else if occurs_at(s, t, from) {
        Some(from)
    } else if from == s.len() {
        None
    } else {
        first_at(s, t, from + 1)
    }
}

/// The characters of a string.
pub fn chars_of(s: &str) -> (v: Vec<char>)
    ensures
        v@ == s@,
{
    let mut v: Vec<char> = Vec::new();
    for c in it: s.chars()
        invariant
            v@ == s@.take(it.index() as int),
            it.seq() == s@,
    {
        v.push(c);
        assert(s@.take(it.index() as int).push(c) =~= s@.take(it.index() + 1));
    }
    assert(s@.take(s@.len() as int) =~= s@);
    v
}

/// How many characters lead `s` that are white space.
pub open spec fn leading_white(s: Seq<char>) -> nat
    decreases s.len(),
{
    if s.len() > 0 && is_white_space(s[0]) {
        1 + leading_white(s.skip(1))
    } else {
        0
    }
}

/// Leading white space is a prefix of the text, and what follows it is the trimmed text.
pub proof fn lemma_trimmed_start(s: Seq<char>)
    ensures
        leading_white(s) <= s.len(),
        trimmed_start(s) == s.skip(leading_white(s) as int),
        forall|k: int| 0 <= k < leading_white(s) ==> is_white_space(#[trigger] s[k]),
        leading_white(s) < s.len() ==> !is_white_space(s[leading_white(s) as int]),
    decreases s.len(),
{
    if s.len() > 0 && is_white_space(s[0]) {
        let t = s.skip(1);
        lemma_trimmed_start(t);
        assert(s.skip(1 + leading_white(t) as int) =~= t.skip(leading_white(t) as int));
        assert forall|k: int| 0 <= k < leading_white(s) implies is_white_space(#[trigger] s[k]) by {
            if k > 0 {
                assert(is_white_space(t[k - 1]));
            }
        }
        if leading_white(s) < s.len() {
            assert(s[leading_white(s) as int] == t[leading_white(t) as int]);
        }
    } else {
        assert(s.skip(0) =~= s);
    }
}

/// A cut of `n` white-space characters that stops at another character, or at the
/// end, is the cut that trimming makes.
proof fn lemma_leading_white_is(s: Seq<char>, n: int)
    requires
        0 <= n <= s.len(),
        forall|k: int| 0 <= k < n ==> is_white_space(#[trigger] s[k]),
        n < s.len() ==> !is_white_space(s[n]),
    ensures
        leading_white(s) == n,
    decreases n,
{
    if n > 0 {
        assert(is_white_space(s[0]));
        let t = s.skip(1);
        assert forall|k: int| 0 <= k < n - 1 implies is_white_space(#[trigger] t[k]) by {
            assert(is_white_space(s[k + 1]));
        }
        lemma_leading_white_is(t, n - 1);
    }
}

proof fn lemma_trimmed_end_is(s: Seq<char>, n: int)
    requires
        0 <= n <= s.len(),
        forall|k: int| n <= k < s.len() ==> is_white_space(#[trigger] s[k]),
        n > 0 ==> !is_white_space(s[n - 1]),
    ensures
        trimmed_end(s) == s.take(n),
    decreases s.len(),
{
    if n < s.len() {
        assert(is_white_space(s[s.len() - 1]));
        let t = s.drop_last();
        assert forall|k: int| n <= k < t.len() implies is_white_space(#[trigger] t[k]) by {
            assert(is_white_space(s[k]));
        }
        lemma_trimmed_end_is(t, n);
        assert(t.take(n) =~= s.take(n));
    } else {
        assert(s.take(n) =~= s);
    }
}

/// Where a trailing trim cuts.
pub proof fn lemma_trimmed_end(s: Seq<char>)
    ensures
        trimmed_end(s).len() <= s.len(),
        trimmed_end(s) == s.take(trimmed_end(s).len() as int),
        trimmed_end(s).len() > 0 ==> !is_white_space(trimmed_end(s).last()),
    decreases s.len(),
{
    if s.len() > 0 && is_white_space(s.last()) {
        lemma_trimmed_end(s.drop_last());
        let n = trimmed_end(s).len() as int;
        assert(s.drop_last().take(n) =~= s.take(n));
    } else {
        assert(s.take(s.len() as int) =~= s);
    }
}

/// Trimming yields a stretch of the text that neither begins nor ends with white space.
pub proof fn lemma_trimmed(s: Seq<char>)
    ensures
        ({
            let lo = leading_white(s) as int;
            &&& lo + trimmed(s).len() <= s.len()
            &&& trimmed(s) == s.subrange(lo, lo + trimmed(s).len())
        }),
        trimmed(s).len() > 0 ==> !is_white_space(trimmed(s)[0]) && !is_white_space(
            trimmed(s).last(),
        ),
{
    lemma_trimmed_start(s);
    let t = trimmed_start(s);
    lemma_trimmed_end(t);
    let n = trimmed(s).len() as int;
    assert(t.take(n) =~= s.subrange(leading_white(s) as int, leading_white(s) + n));
    if n > 0 {
        assert(trimmed(s)[0] == s[leading_white(s) as int]);
    }
}

/// Trimming a trimmed text changes nothing.
pub proof fn law_trim_twice(s: Seq<char>)
    ensures
        trimmed(trimmed(s)) == trimmed(s),
{
    lemma_trimmed(s);
    let t = trimmed(s);
    lemma_leading_white_is(t, 0);
    lemma_trimmed_start(t);
    assert(t.skip(0) =~= t);
    lemma_trimmed_end_is(t, t.len() as int);
    assert(t.take(t.len() as int) =~= t);
}

/// What stands in a stretch of a text stands in the text.
pub proof fn lemma_stretch_contains(s: Seq<char>, i: int, t: Seq<char>, x: Seq<char>)
    requires
        occurs_at(s, t, i),
        contains_text(t, x),
    ensures
        contains_text(s, x),
{
    let k = choose|k: int| occurs_at(t, x, k);
    assert(s.subrange(i + k, i + k + x.len()) =~= t.subrange(k, k + x.len())) by {
        assert(s.subrange(i, i + t.len()) == t);
    }
    assert(occurs_at(s, x, i + k));
}

/// Each of the texts stands in `s`.
pub open spec fn all_stand(values: Seq<Seq<char>>, s: Seq<char>) -> bool {
    forall|i: int| 0 <= i < values.len() ==> contains_text(s, #[trigger] values[i])
}

/// `x` stands in one of the texts.
pub open spec fn stands_in_one(values: Seq<Seq<char>>, x: Seq<char>) -> bool {
    exists|i: int| 0 <= i < values.len() && contains_text(#[trigger] values[i], x)
}

/// What stands in one of several texts that stand in `s` stands in `s`.
pub proof fn lemma_stands_in_one(values: Seq<Seq<char>>, s: Seq<char>, x: Seq<char>)
    requires
        all_stand(values, s),
        stands_in_one(values, x),
    ensures
        contains_text(s, x),
{
    let i = choose|i: int| 0 <= i < values.len() && contains_text(#[trigger] values[i], x);
    let at = choose|at: int| occurs_at(s, values[i], at);
    lemma_stretch_contains(s, at, values[i], x);
}

/// What stands in a text that stands in another stands in the other.
pub proof fn lemma_contains_transitive(s: Seq<char>, t: Seq<char>, x: Seq<char>)
    requires
        contains_text(s, t),
        contains_text(t, x),
    ensures
        contains_text(s, x),
{
    let at = choose|at: int| occurs_at(s, t, at);
    lemma_stretch_contains(s, at, t, x);
}

/// A trimmed text stands in the text.
pub proof fn lemma_trimmed_stands(s: Seq<char>)
    ensures
        contains_text(s, trimmed(s)),
{
    lemma_trimmed(s);
    assert(occurs_at(s, trimmed(s), leading_white(s) as int));
}

/// What [`first_at`] finds is an occurrence, and there is none before it.
pub proof fn lemma_first_at(s: Seq<char>, t: Seq<char>, from: int)
    requires
        0 <= from,
    ensures
        first_at(s, t, from) matches Some(i) ==> from <= i && occurs_at(s, t, i) && (forall|k: int|
            from <= k < i ==> !#[trigger] occurs_at(s, t, k)),
        first_at(s, t, from) is None ==> (forall|k: int|
            from <= k ==> !#[trigger] occurs_at(s, t, k)),
    decreases s.len() - from,
{
    if from + t.len() > s.len() || occurs_at(s, t, from) || from == s.len() {
    } else {
        lemma_first_at(s, t, from + 1);
    }
}

/// A text stands in another exactly when a search from the start finds it.
pub proof fn lemma_contains_text(s: Seq<char>, t: Seq<char>)
    ensures
        contains_text(s, t) <==> first_at(s, t, 0) is Some,
{
    lemma_first_at(s, t, 0);
    if contains_text(s, t) {
        let i = choose|i: int| occurs_at(s, t, i);
        assert(0 <= i && occurs_at(s, t, i));
    }
}

/// The text without leading white space.
pub fn trim_start(s: &str) -> (r: &str)
    ensures
        r@ == trimmed_start(s@),
{
    let v: Vec<char> = chars_of(s);
    let mut lo: usize = 0;
    while lo < v.len() && char_is_whitespace(v[lo])
        invariant
            v@ == s@,
            lo <= v@.len(),
            forall|k: int| 0 <= k < lo ==> is_white_space(#[trigger] v@[k]),
        ensures
            lo < v@.len() ==> !is_white_space(v@[lo as int]),
        decreases v.len() - lo,
    {
        lo = lo + 1;
    }
    proof {
        lemma_leading_white_is(s@, lo as int);
        lemma_trimmed_start(s@);
        assert(s@.skip(lo as int) =~= s@.subrange(lo as int, s@.len() as int));
    }
    s.substring_char(lo, v.len())
}

/// The text without leading and trailing white space.
pub fn trim(s: &str) -> (r: &str)
    ensures
        r@ == trimmed(s@),
{
    let t: &str = trim_start(s);
    let v: Vec<char> = chars_of(t);
    let mut hi: usize = v.len();
    while hi > 0 && char_is_whitespace(v[hi - 1])
        invariant
            v@ == t@,
            hi <= v@.len(),
            forall|k: int| hi <= k < v@.len() ==> is_white_space(#[trigger] v@[k]),
        ensures
            hi > 0 ==> !is_white_space(v@[hi - 1]),
        decreases hi,
    {
        hi = hi - 1;
    }
    proof {
        lemma_trimmed_end_is(t@, hi as int);
        assert(t@.take(hi as int) =~= t@.subrange(0, hi as int));
    }
    t.substring_char(0, hi)
}

/// Whether `t` stands in `s` at position `i`.
fn stands_at(s: &Vec<char>, t: &Vec<char>, i: usize) -> (r: bool)
    ensures
        r == occurs_at(s@, t@, i as int),
{
    if t.len() > s.len() || i > s.len() - t.len() {
        return false;
    }
    let mut k: usize = 0;
    while k < t.len()
        invariant
            i + t.len() <= s.len(),
            k <= t@.len(),
            forall|j: int| 0 <= j < k ==> s@[i + j] == #[trigger] t@[j],
        decreases t.len() - k,
    {
        if s[i + k] != t[k] {
            assert(s@.subrange(i as int, i + t@.len())[k as int] != t@[k as int]);
            return false;
        }
        k = k + 1;
    }
    assert(s@.subrange(i as int, i + t@.len()) =~= t@);
    true
}

/// The position of the first occurrence of `t` in `s` at or after `from`, counted in
/// characters.
pub fn find_from(s: &str, t: &str, from: usize) -> (r: Option<usize>)
    ensures
        r matches Some(i) ==> first_at(s@, t@, from as int) == Some(i as int) && i + t@.len()
            <= s@.len(),
        r is None ==> first_at(s@, t@, from as int) is None,
{
    let a: Vec<char> = chars_of(s);
    let b: Vec<char> = chars_of(t);
    let mut i: usize = from;
    while i < a.len()
        invariant
            a@ == s@,
            b@ == t@,
            from <= i,
            first_at(s@, t@, from as int) == first_at(s@, t@, i as int),
        decreases a.len() - i,
    {
        if stands_at(&a, &b, i) {
            return Some(i);
        }
        i = i + 1;
    }
    if stands_at(&a, &b, i) {
        return Some(i);
    }
    None
}

/// Whether `t` stands in `s`.
pub fn contains(s: &str, t: &str) -> (r: bool)
    ensures
        r == contains_text(s@, t@),
{
    proof {
        lemma_contains_text(s@, t@);
    }
    find_from(s, t, 0).is_some()
}

/// What stands before and after the first occurrence of `t` in `s`.
pub open spec fn around_first(s: Seq<char>, t: Seq<char>) -> Option<(Seq<char>, Seq<char>)> {
    match first_at(s, t, 0) {
        Some(i) => Some((s.take(i), s.skip(i + t.len()))),
        None => None,
    }
}

/// Parts a text at the first occurrence of `t`, which is dropped.
pub fn split_first<'a>(s: &'a str, t: &str) -> (r: Option<(&'a str, &'a str)>)
    ensures
        r matches Some(p) ==> around_first(s@, t@) == Some((p.0@, p.1@)),
        r is None ==> around_first(s@, t@) is None,
{
    let n: usize = s.unicode_len();
    let m: usize = t.unicode_len();
    match find_from(s, t, 0) {
        None => None,
        Some(i) => {
            let before: &'a str = s.substring_char(0, i);
            let after: &'a str = s.substring_char(i + m, n);
            assert(before@ =~= s@.take(i as int));
            assert(after@ =~= s@.skip(i + m));
            Some((before, after))
        },
    }
}

/// Whether two texts hold the same characters.
pub fn same_text(a: &str, b: &str) -> (r: bool)
    ensures
        r == (a@ == b@),
{
    let v: Vec<char> = chars_of(a);
    let w: Vec<char> = chars_of(b);
    if v.len() != w.len() {
        return false;
    }
    let r: bool = stands_at(&v, &w, 0);
    assert(v@.subrange(0, v@.len() as int) =~= v@);
    r
}

/// Whether `s` begins with `c`.
pub fn starts_with_char(s: &str, c: char) -> (r: bool)
    ensures
        r == (s@.len() > 0 && s@[0] == c),
{
    if s.unicode_len() == 0 {
        return false;
    }
    s.get_char(0) == c
}

/// `s` begins with `t`.
pub open spec fn has_prefix(s: Seq<char>, t: Seq<char>) -> bool {
    occurs_at(s, t, 0)
}

/// `s` ends with `t`.
pub open spec fn has_suffix(s: Seq<char>, t: Seq<char>) -> bool {
    occurs_at(s, t, s.len() - t.len())
}

/// What follows the prefix `t` of `s`, where `s` begins with `t`.
pub fn strip_prefix<'a>(s: &'a str, t: &str) -> (r: Option<&'a str>)
    ensures
        r matches Some(rest) ==> has_prefix(s@, t@) && rest@ == s@.skip(t@.len() as int),
        r is None ==> !has_prefix(s@, t@),
{
    let v: Vec<char> = chars_of(s);
    let w: Vec<char> = chars_of(t);
    if stands_at(&v, &w, 0) {
        let rest: &'a str = s.substring_char(w.len(), v.len());
        assert(rest@ =~= s@.skip(t@.len() as int));
        Some(rest)
    } else {
        None
    }
}

/// What precedes the suffix `t` of `s`, where `s` ends with `t`.
pub fn strip_suffix<'a>(s: &'a str, t: &str) -> (r: Option<&'a str>)
    ensures
        r matches Some(rest) ==> has_suffix(s@, t@) && rest@ == s@.take(s@.len() - t@.len()),
        r is None ==> !has_suffix(s@, t@),
{
    let v: Vec<char> = chars_of(s);
    let w: Vec<char> = chars_of(t);
    if w.len() <= v.len() && stands_at(&v, &w, v.len() - w.len()) {
        let rest: &'a str = s.substring_char(0, v.len() - w.len());
        assert(rest@ =~= s@.take(s@.len() - t@.len()));
        Some(rest)
    } else {
        None
    }
}

/// The first position at or after `from` that holds an opening brace or bracket.
pub open spec fn first_opening(s: Seq<char>, from: int) -> Option<int>
    decreases s.len() - from,
{
    if from < 0 || from >= s.len() {
        None
    } else if s[from] == '{' || s[from] == '[' {
        Some(from)
    } else {
        first_opening(s, from + 1)
    }
}

/// The position of the first opening brace or bracket.
pub fn find_opening(s: &str) -> (r: Option<usize>)
    ensures
        r matches Some(i) ==> first_opening(s@, 0) == Some(i as int) && i < s@.len(),
        r is None ==> first_opening(s@, 0) is None,
{
    let v: Vec<char> = chars_of(s);
    let mut i: usize = 0;
    while i < v.len()
        invariant
            v@ == s@,
            i <= v@.len(),
            first_opening(s@, 0) == first_opening(s@, i as int),
        decreases v.len() - i,
    {
        if v[i] == '{' || v[i] == '[' {
            return Some(i);
        }
        i = i + 1;
    }
    None
}

/// The part of `s` that ends with its last `c`, where `s` holds one.
pub open spec fn through_last(s: Seq<char>, c: char) -> Option<Seq<char>>
    decreases s.len(),
{
    if s.len() == 0 {
        None
    } else if s.last() == c {
        Some(s)
    } else {
        through_last(s.drop_last(), c)
    }
}

/// The part of a text that ends with its last `c`.
pub fn cut_after_last<'a>(s: &'a str, c: char) -> (r: Option<&'a str>)
    ensures
        r matches Some(p) ==> through_last(s@, c) == Some(p@),
        r is None ==> through_last(s@, c) is None,
{
    let v: Vec<char> = chars_of(s);
    let mut hi: usize = v.len();
    assert(s@.take(s@.len() as int) =~= s@);
    while hi > 0
        invariant
            v@ == s@,
            hi <= v@.len(),
            through_last(s@, c) == through_last(s@.take(hi as int), c),
        decreases hi,
    {
        if v[hi - 1] == c {
            let p: &'a str = s.substring_char(0, hi);
            assert(p@ =~= s@.take(hi as int));
            return Some(p);
        }
        assert(s@.take(hi as int).drop_last() =~= s@.take(hi - 1));
        hi = hi - 1;
    }
    None
}

/// The texts of a list of strings.
pub open spec fn texts(v: Seq<String>) -> Seq<Seq<char>> {
    v.map_values(|s: String| s@)
}

/// The text of an optional string.
pub open spec fn text_of(s: Option<String>) -> Option<Seq<char>> {
    match s {
        Some(s) => Some(s@),
        None => None,
    }
}

/// A list of no strings.
pub fn none() -> (r: Vec<String>)
    ensures
        texts(r@) == Seq::<Seq<char>>::empty(),
{
    let r: Vec<String> = Vec::new();
    assert(texts(r@) =~= seq![]);
    r
}

/// A list of one string.
pub fn one(a: &str) -> (r: Vec<String>)
    ensures
        texts(r@) == seq![a@],
{
    let mut r: Vec<String> = Vec::new();
    r.push(a.to_string());
    assert(texts(r@) =~= seq![a@]);
    r
}

/// A list of two strings.
pub fn two(a: &str, b: &str) -> (r: Vec<String>)
    ensures
        texts(r@) == seq![a@, b@],
{
    let mut r: Vec<String> = Vec::new();
    r.push(a.to_string());
    r.push(b.to_string());
    assert(texts(r@) =~= seq![a@, b@]);
    r
}

/// A copy of a list of strings.
pub fn copy_all(v: &Vec<String>) -> (r: Vec<String>)
    ensures
        texts(r@) == texts(v@),
{
    let mut r: Vec<String> = Vec::new();
    let mut i: usize = 0;
    while i < v.len()
        invariant
            i <= v@.len(),
            texts(r@) == texts(v@).take(i as int),
        decreases v.len() - i,
    {
        let ghost before = texts(r@);
        r.push(v[i].clone());
        assert(texts(r@) =~= before.push(v@[i as int]@));
        assert(texts(v@).take(i as int).push(v@[i as int]@) =~= texts(v@).take(i + 1));
        i = i + 1;
    }
    assert(texts(v@).take(v@.len() as int) =~= texts(v@));
    r
}

/// The items of a list with `sep` between each two.
pub open spec fn joined(items: Seq<Seq<char>>, sep: Seq<char>) -> Seq<char>
    decreases items.len(),
{
    if items.len() == 0 {
        seq![]
    } else if items.len() == 1 {
        items[0]
    } else {
        joined(items.drop_last(), sep) + sep + items.last()
    }
}

/// Puts `sep` between each two items and runs them together.
pub fn join(items: &Vec<String>, sep: &str) -> (r: String)
    ensures
        r@ == joined(texts(items@), sep@),
{
    let mut out: String = String::new();
    let mut i: usize = 0;
    let ghost all = texts(items@);
    while i < items.len()
        invariant
            i <= items@.len(),
            all == texts(items@),
            out@ == joined(all.take(i as int), sep@),
        decreases items.len() - i,
    {
        if i > 0 {
            out.append(sep);
        }
        out.append(items[i].as_str());
        proof {
            assert(all.take(i + 1).drop_last() =~= all.take(i as int));
            assert(all.take(i + 1).last() == items@[i as int]@);
            if i == 0 {
                assert(out@ =~= all.take(1)[0]);
            }
        }
        i = i + 1;
    }
    assert(all.take(all.len() as int) =~= all);
    out
}

/// The items of a list, separated by commas, between brackets.
pub open spec fn bracketed(items: Seq<Seq<char>>) -> Seq<char> {
    seq!['['] + joined(items, seq![',']) + seq![']']
}

/// Writes a list as the text of an array of the texts it holds.
pub fn bracket(items: &Vec<String>) -> (r: String)
    ensures
        r@ == bracketed(texts(items@)),
{
    let mut out: String = "[".to_string();
    let inner: String = join(items, ",");
    out.append(inner.as_str());
    out.append("]");
    proof {
        reveal_strlit("[");
        reveal_strlit("]");
        reveal_strlit(",");
        assert("["@ =~= seq!['[']);
        assert("]"@ =~= seq![']']);
        assert(","@ =~= seq![',']);
    }
    out
}

/// The stretches of `s` that occurrences of `t`, taken from the left, part it into.
pub open spec fn segments(s: Seq<char>, t: Seq<char>) -> Seq<Seq<char>>
    decreases s.len(),
{
    if t.len() == 0 {
        seq![s]
    } else {
        match first_at(s, t, 0) {
            Some(i) => if 0 <= i && i + t.len() <= s.len() {
                seq![s.take(i)] + segments(s.skip(i + t.len()), t)
            } else {
                seq![s]
            },
            None => seq![s],
        }
    }
}

/// What stands before and after an occurrence of a text stands in the text.
pub proof fn lemma_around_first_stands(s: Seq<char>, t: Seq<char>)
    ensures
        around_first(s, t) matches Some(p) ==> contains_text(s, p.0) && contains_text(s, p.1)
            && p.0.len() + t.len() + p.1.len() == s.len(),
{
    lemma_first_at(s, t, 0);
    if let Some(p) = around_first(s, t) {
        assert(s.subrange(0, p.0.len() as int) =~= p.0);
        assert(occurs_at(s, p.0, 0));
        let from = s.len() - p.1.len();
        assert(s.subrange(from, s.len() as int) =~= p.1);
        assert(occurs_at(s, p.1, from));
    }
}

/// The segments of a text stand in it.
pub proof fn lemma_segments_stand(s: Seq<char>, t: Seq<char>)
    ensures
        all_stand(segments(s, t), s),
    decreases s.len(),
{
    assert(s.subrange(0, s.len() as int) =~= s);
    assert(occurs_at(s, s, 0));
    if t.len() > 0 {
        lemma_around_first_stands(s, t);
        if let Some(p) = around_first(s, t) {
            lemma_segments_stand(p.1, t);
            let all = segments(s, t);
            assert forall|i: int| 0 <= i < all.len() implies contains_text(
                s,
                #[trigger] all[i],
            ) by {
                if i > 0 && all.len() > 1 {
                    assert(all[i] == segments(p.1, t)[i - 1]);
                    lemma_contains_transitive(s, p.1, all[i]);
                }
            }
        }
    }
}

/// Parts a text at each occurrence of `t`.
pub fn split<'a>(s: &'a str, t: &str) -> (r: Vec<&'a str>)
    requires
        t@.len() > 0,
    ensures
        r@.map_values(|p: &str| p@) == segments(s@, t@),
{
    let mut out: Vec<&'a str> = Vec::new();
    let mut rest: &'a str = s;
    let ghost f = |p: &str| p@;
    assert(out@.map_values(f) + segments(s@, t@) =~= segments(s@, t@));
    loop
        invariant
            t@.len() > 0,
            f == (|p: &str| p@),
            out@.map_values(f) + segments(rest@, t@) == segments(s@, t@),
        decreases rest@.len(),
    {
        proof {
            lemma_first_at(rest@, t@, 0);
        }
        let ghost before = out@.map_values(f);
        match split_first(rest, t) {
            Some(p) => {
                out.push(p.0);
                assert(out@.map_values(f) =~= before.push(p.0@));
                assert(before + segments(rest@, t@) =~= before.push(p.0@) + segments(p.1@, t@));
                rest = p.1;
            },
            None => {
                out.push(rest);
                assert(out@.map_values(f) =~= before + seq![rest@]);
                return out;
            },
        }
    }
}

/// The decimal digit of a number below ten.
pub open spec fn digit(d: int) -> char {
    if d == 0 {
        '0'
    } else if d == 1 {
        '1'
    } else if d == 2 {
        '2'
    } else if d == 3 {
        '3'
    } else if d == 4 {
        '4'
    } else if d == 5 {
        '5'
    } else if d == 6 {
        '6'
    } else if d == 7 {
        '7'
    } else if d == 8 {
        '8'
    } else {
        '9'
    }
}

/// The decimal digits of a number, without leading zeros.
pub open spec fn decimal(n: nat) -> Seq<char>
    decreases n,
{
    if n < 10 {
        seq![digit(n as int)]
    } else {
        decimal(n / 10).push(digit((n % 10) as int))
    }
}

fn digit_text(d: u64) -> (r: &'static str)
    requires
        d < 10,
    ensures
        r@ == seq![digit(d as int)],
{
    proof {
        reveal_strlit("0");
        reveal_strlit("1");
        reveal_strlit("2");
        reveal_strlit("3");
        reveal_strlit("4");
        reveal_strlit("5");
        reveal_strlit("6");
        reveal_strlit("7");
        reveal_strlit("8");
        reveal_strlit("9");
    }
    let r: &'static str = match d {
        0 => "0",
        1 => "1",
        2 => "2",
        3 => "3",
        4 => "4",
        5 => "5",
        6 => "6",
        7 => "7",
        8 => "8",
        _ => "9",
    };
    assert(r@ =~= seq![digit(d as int)]);
    r
}

/// Writes a number in decimal.
pub fn decimal_text(n: u64) -> (r: String)
    ensures
        r@ == decimal(n as nat),
    decreases n,
{
    if n < 10 {
        digit_text(n).to_string()
    } else {
        let mut out: String = decimal_text(n / 10);
        let ghost front = out@;
        out.append(digit_text(n % 10));
        assert(out@ =~= front.push(digit((n % 10) as int)));
        out
    }
}

/// Trimming drops all white space round a text and nothing else: what stands between two
/// stretches of white space, and neither begins nor ends with white space, is what is left.
pub proof fn law_trim_keeps_what_stands_between(lead: Seq<char>, t: Seq<char>, tail: Seq<char>)
    requires
        forall|k: int| 0 <= k < lead.len() ==> is_white_space(#[trigger] lead[k]),
        forall|k: int| 0 <= k < tail.len() ==> is_white_space(#[trigger] tail[k]),
        t.len() > 0 ==> !is_white_space(t[0]) && !is_white_space(t[t.len() - 1]),
    ensures
        trimmed(lead + t + tail) == t,
        t.len() > 0 ==> trimmed_start(lead + t + tail) == t + tail,
        t.len() > 0 ==> trimmed_end(lead + t + tail) == lead + t,
{
    let s = lead + t + tail;
    let n = lead.len() as int;
    if t.len() > 0 {
        assert forall|k: int| 0 <= k < n implies is_white_space(#[trigger] s[k]) by {
            assert(s[k] == lead[k]);
        }
        assert(s[n] == t[0]);
        lemma_leading_white_is(s, n);
        lemma_trimmed_start(s);
        let u = t + tail;
        assert(s.skip(n) =~= u);
        let m = t.len() as int;
        assert forall|k: int| m <= k < u.len() implies is_white_space(#[trigger] u[k]) by {
            assert(u[k] == tail[k - m]);
        }
        lemma_trimmed_end_is(u, m);
        assert(u.take(m) =~= t);
        assert forall|k: int| n + m <= k < s.len() implies is_white_space(#[trigger] s[k]) by {
            assert(s[k] == tail[k - n - m]);
        }
        assert(s[n + m - 1] == t[m - 1]);
        lemma_trimmed_end_is(s, n + m);
        assert(s.take(n + m) =~= lead + t);
    } else {
        assert forall|k: int| 0 <= k < s.len() implies is_white_space(#[trigger] s[k]) by {
            if k < n {
                assert(s[k] == lead[k]);
            } else {
                assert(s[k] == tail[k - n]);
            }
        }
        lemma_leading_white_is(s, s.len() as int);
        lemma_trimmed_start(s);
        assert(trimmed_start(s) =~= seq![]);
        assert(trimmed(s) =~= t);
    }
}

/// Every text is what trimming leaves of it, between two stretches of white space; what leads it
/// is as long as the count of leading white space says.
pub proof fn law_trim_drops_white_space(s: Seq<char>)
    ensures
        exists|lead: Seq<char>, tail: Seq<char>|
            {
                &&& s == #[trigger] (lead + trimmed(s) + tail)
                &&& forall|k: int| 0 <= k < lead.len() ==> is_white_space(#[trigger] lead[k])
                &&& forall|k: int| 0 <= k < tail.len() ==> is_white_space(#[trigger] tail[k])
                &&& trimmed(s).len() > 0 ==> lead.len() == leading_white(s)
            },
        trimmed(s).len() > 0 ==> !is_white_space(trimmed(s)[0]) && !is_white_space(
            trimmed(s)[trimmed(s).len() - 1],
        ),
{
    lemma_trimmed(s);
    lemma_trimmed_start(s);
    let lo = leading_white(s) as int;
    let hi = lo + trimmed(s).len();
    let lead = s.take(lo);
    let tail = s.skip(hi);
    lemma_trailing_white(trimmed_start(s));
    assert forall|k: int| 0 <= k < tail.len() implies is_white_space(#[trigger] tail[k]) by {
        assert(tail[k] == trimmed_start(s)[trimmed(s).len() + k]);
    }
    assert(s =~= lead + trimmed(s) + tail);
}

proof fn lemma_trailing_white(s: Seq<char>)
    ensures
        forall|k: int| trimmed_end(s).len() <= k < s.len() ==> is_white_space(#[trigger] s[k]),
    decreases s.len(),
{
    if s.len() > 0 && is_white_space(s.last()) {
        let t = s.drop_last();
        lemma_trailing_white(t);
        assert forall|k: int| trimmed_end(s).len() <= k < s.len() implies is_white_space(
            #[trigger] s[k],
        ) by {
            if k < t.len() {
                assert(t[k] == s[k]);
            }
        }
    }
}

/// A text is parted at the first occurrence of another: the two parts with the other text
/// between them are the whole, the other text stands nowhere earlier, and where it stands
/// somewhere, there are parts.
pub proof fn law_parts_make_the_whole(s: Seq<char>, t: Seq<char>)
    ensures
        around_first(s, t) matches Some(p) ==> s == p.0 + t + p.1 && forall|k: int|
            0 <= k < p.0.len() ==> #[trigger] s.skip(k).take(t.len() as int) != t,
        around_first(s, t) is None ==> forall|k: int|
            0 <= k <= s.len() - t.len() ==> #[trigger] s.skip(k).take(t.len() as int) != t,
{
    lemma_first_at(s, t, 0);
    let n = t.len() as int;
    assert forall|k: int| 0 <= k <= s.len() - n implies (#[trigger] s.skip(k).take(n) == t)
        == occurs_at(s, t, k) by {
        assert(s.skip(k).take(n) =~= s.subrange(k, k + n));
    }
    if let Some(p) = around_first(s, t) {
        assert(s =~= p.0 + t + p.1) by {
            assert(s.subrange(p.0.len() as int, p.0.len() + n) == t);
        }
        assert forall|k: int| 0 <= k < p.0.len() implies #[trigger] s.skip(k).take(n) != t by {
            assert(!occurs_at(s, t, k));
        }
    } else {
        assert forall|k: int| 0 <= k <= s.len() - n implies #[trigger] s.skip(k).take(n) != t by {
            assert(!occurs_at(s, t, k));
        }
    }
}

/// Where a text stands in another and nowhere earlier, it parts the other there.
pub proof fn law_first_occurrence_parts(before: Seq<char>, t: Seq<char>, after: Seq<char>)
    requires
        forall|k: int|
            0 <= k < before.len() ==> #[trigger] (before + t + after).skip(k).take(t.len() as int)
                != t,
    ensures
        around_first(before + t + after, t) == Some((before, after)),
        contains_text(before + t + after, t),
{
    let s = before + t + after;
    let n = before.len() as int;
    let m = t.len() as int;
    lemma_first_at(s, t, 0);
    assert(s.subrange(n, n + m) =~= t);
    assert(occurs_at(s, t, n));
    assert forall|k: int| 0 <= k < n implies !#[trigger] occurs_at(s, t, k) by {
        assert(s.skip(k).take(m) =~= s.subrange(k, k + m));
        assert(s.skip(k).take(m) != t);
    }
    assert(first_at(s, t, 0) == Some(n));
    assert(s.take(n) =~= before);
    assert(s.skip(n + m) =~= after);
}

/// A text stands in another exactly where the other is something, the text, and something.
#[verifier::spinoff_prover]
pub proof fn law_contained_text_is_a_stretch(s: Seq<char>, t: Seq<char>)
    ensures
        contains_text(s, t) <==> exists|a: Seq<char>, b: Seq<char>| s == #[trigger] (a + t + b),
        has_prefix(s, t) <==> exists|b: Seq<char>| s == #[trigger] (t + b),
        has_suffix(s, t) <==> exists|a: Seq<char>| s == #[trigger] (a + t),
{
    let m = t.len() as int;
    if contains_text(s, t) {
        let i = choose|i: int| occurs_at(s, t, i);
        assert(s =~= s.take(i) + t + s.skip(i + m));
    }
    if exists|a: Seq<char>, b: Seq<char>| s == #[trigger] (a + t + b) {
        let (a, b) = choose|a: Seq<char>, b: Seq<char>| s == #[trigger] (a + t + b);
        assert(s.subrange(a.len() as int, a.len() + m) =~= t);
        assert(occurs_at(s, t, a.len() as int));
    }
    if has_prefix(s, t) {
        assert(s =~= t + s.skip(m));
    }
    if exists|b: Seq<char>| s == #[trigger] (t + b) {
        let b = choose|b: Seq<char>| s == #[trigger] (t + b);
        assert(s.subrange(0, m) =~= t);
    }
    if has_suffix(s, t) {
        assert(s =~= s.take(s.len() - m) + t);
    }
    if exists|a: Seq<char>| s == #[trigger] (a + t) {
        let a = choose|a: Seq<char>| s == #[trigger] (a + t);
        assert(s.subrange(s.len() - m, s.len() as int) =~= t);
    }
}

/// The opening that is found is the first: it is an opening brace or bracket, and there is none
/// before it. Where none is found, there is none.
pub proof fn law_first_opening_is_first(s: Seq<char>, from: int)
    requires
        0 <= from,
    ensures
        first_opening(s, from) matches Some(i) ==> from <= i < s.len() && (s[i] == '{' || s[i]
            == '[') && forall|k: int| from <= k < i ==> #[trigger] s[k] != '{' && s[k] != '[',
        first_opening(s, from) is None ==> forall|k: int|
            from <= k < s.len() ==> #[trigger] s[k] != '{' && s[k] != '[',
    decreases s.len() - from,
{
    if from < s.len() && s[from] != '{' && s[from] != '[' {
        law_first_opening_is_first(s, from + 1);
    }
}

/// A cut after the last of a character keeps all up to it: what is left off holds none.
pub proof fn law_cut_is_after_the_last(s: Seq<char>, c: char)
    ensures
        through_last(s, c) matches Some(p) ==> {
            &&& 0 < p.len() <= s.len()
            &&& p == s.take(p.len() as int)
            &&& p[p.len() - 1] == c
            &&& forall|k: int| p.len() <= k < s.len() ==> #[trigger] s[k] != c
        },
        through_last(s, c) is None ==> forall|k: int| 0 <= k < s.len() ==> #[trigger] s[k] != c,
    decreases s.len(),
{
    if s.len() > 0 {
        let t = s.drop_last();
        if s.last() == c {
            assert(s.take(s.len() as int) =~= s);
        } else {
            law_cut_is_after_the_last(t, c);
            assert forall|k: int| 0 <= k < t.len() implies s[k] == #[trigger] t[k] by {
            }
            if let Some(p) = through_last(t, c) {
                assert(t.take(p.len() as int) =~= s.take(p.len() as int));
                assert forall|k: int| p.len() <= k < s.len() implies #[trigger] s[k] != c by {
                    if k < t.len() {
                        assert(t[k] != c);
                    }
                }
            } else {
                assert forall|k: int| 0 <= k < s.len() implies #[trigger] s[k] != c by {
                    if k < t.len() {
                        assert(t[k] != c);
                    }
                }
            }
        }
    }
}

/// One item joined is the item; two lists joined are the two joined texts with the separator
/// between them.
pub proof fn law_joining_two_lists(a: Seq<Seq<char>>, b: Seq<Seq<char>>, sep: Seq<char>)
    requires
        a.len() > 0,
        b.len() > 0,
    ensures
        a.len() == 1 ==> joined(a, sep) == a[0],
        joined(a + b, sep) == joined(a, sep) + sep + joined(b, sep),
        joined(Seq::<Seq<char>>::empty(), sep).len() == 0,
        bracketed(a) == seq!['['] + joined(a, seq![',']) + seq![']'],
    decreases b.len(),
{
    let all = a + b;
    assert(all.drop_last() =~= a + b.drop_last());
    if b.len() == 1 {
        assert(b.drop_last() =~= seq![]);
        assert(all.drop_last() =~= a);
        assert(joined(all, sep) =~= joined(a, sep) + sep + joined(b, sep));
    } else {
        law_joining_two_lists(a, b.drop_last(), sep);
        assert(joined(all, sep) =~= joined(a, sep) + sep + joined(b, sep));
    }
}

proof fn lemma_joined_front(x: Seq<char>, b: Seq<Seq<char>>, sep: Seq<char>)
    requires
        b.len() > 0,
    ensures
        joined(seq![x] + b, sep) == x + sep + joined(b, sep),
{
    law_joining_two_lists(seq![x], b, sep);
}

/// The segments of a text with the token between each two are the text, and the token stands
/// in no segment.
pub proof fn law_segments_make_the_whole(s: Seq<char>, t: Seq<char>)
    requires
        t.len() > 0,
    ensures
        segments(s, t).len() > 0,
        joined(segments(s, t), t) == s,
        forall|i: int|
            0 <= i < segments(s, t).len() ==> !contains_text(#[trigger] segments(s, t)[i], t),
    decreases s.len(),
{
    lemma_first_at(s, t, 0);
    match first_at(s, t, 0) {
        Some(i) => {
            let front = s.take(i);
            let rest = s.skip(i + t.len());
            law_segments_make_the_whole(rest, t);
            let all = segments(s, t);
            assert(all =~= seq![front] + segments(rest, t));
            lemma_joined_front(front, segments(rest, t), t);
            assert(s =~= front + t + rest) by {
                assert(s.subrange(i, i + t.len()) == t);
            }
            if contains_text(front, t) {
                let k = choose|k: int| occurs_at(front, t, k);
                assert(s.subrange(k, k + t.len()) =~= front.subrange(k, k + t.len()));
                assert(occurs_at(s, t, k));
            }
            assert forall|j: int| 0 <= j < all.len() implies !contains_text(
                #[trigger] all[j],
                t,
            ) by {
                if j > 0 {
                    assert(all[j] == segments(rest, t)[j - 1]);
                }
            }
        },
        None => {
            assert(segments(s, t) =~= seq![s]);
            lemma_contains_text(s, t);
        },
    }
}

/// The decimal digits of a number: the last is its remainder by ten, those before are the digits
/// of its quotient, and a number below ten has one.
pub proof fn law_decimal_digits(n: nat)
    ensures
        decimal(n).len() > 0,
        decimal(n)[decimal(n).len() - 1] as int == '0' as int + n % 10,
        n < 10 ==> decimal(n).len() == 1,
        n >= 10 ==> decimal(n).take(decimal(n).len() - 1) == decimal(n / 10),
{
    if n >= 10 {
        let d = decimal(n / 10).push(digit((n % 10) as int));
        assert(d.take(d.len() - 1) =~= decimal(n / 10));
    }
}

/// The characters that are white space, by their code points.
pub proof fn law_white_space_by_code_point(c: char)
    ensures
        is_white_space(c) <==> {
            let u = c as int;
            0x9 <= u <= 0xd || u == 0x20 || u == 0x85 || u == 0xa0 || u == 0x1680 || 0x2000 <= u
                <= 0x200a || u == 0x2028 || u == 0x2029 || u == 0x202f || u == 0x205f || u == 0x3000
        },
{
}

/// The texts of a list are those of its strings, in their order; an optional string has a text
/// exactly where it is there.
pub proof fn law_texts_are_those_of_the_strings(v: Seq<String>, s: Option<String>)
    ensures
        texts(v).len() == v.len(),
        forall|i: int| 0 <= i < v.len() ==> #[trigger] texts(v)[i] == v[i]@,
        text_of(s) is Some <==> s is Some,
        s matches Some(t) ==> text_of(s) == Some(t@),
{
}

} // verus!
