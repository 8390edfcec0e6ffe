//! Text as sequences of characters: trimming, searching and the two
//! case-insensitive comparisons the protocol rests on.

use vstd::prelude::*;

verus! {

/// Whether `c` counts as whitespace: the value of `char::is_whitespace`.
pub uninterp spec fn is_whitespace(c: char) -> bool;

/// `s` in upper case: the value of `str::to_uppercase`.
pub uninterp spec fn uppercase(s: Seq<char>) -> Seq<char>;

/// `s` in lower case: the value of `str::to_lowercase`.
pub uninterp spec fn lowercase(s: Seq<char>) -> Seq<char>;

/// `s` without the whitespace it starts with.
pub open spec fn trimmed_start(s: Seq<char>) -> Seq<char>
    decreases s.len(),
{
    if s.len() > 0 && is_whitespace(s.first()) {
        trimmed_start(s.drop_first())
    } else {
        s
    }
}

/// `s` without the whitespace it ends with.
pub open spec fn trimmed_end(s: Seq<char>) -> Seq<char>
    decreases s.len(),
{
    if s.len() > 0 && is_whitespace(s.last()) {
        trimmed_end(s.drop_last())
    } else {
        s
    }
}

/// `s` without the whitespace around it.
pub open spec fn trimmed(s: Seq<char>) -> Seq<char> {
    trimmed_end(trimmed_start(s))
}

/// Every character of `s` is whitespace.
pub open spec fn all_whitespace(s: Seq<char>) -> bool {
    forall|i: int| 0 <= i < s.len() ==> is_whitespace(#[trigger] s[i])
}

/// `needle` stands in `haystack` at index `at`.
pub open spec fn occurs_at(haystack: Seq<char>, needle: Seq<char>, at: int) -> bool {
    &&& 0 <= at
    &&& at + needle.len() <= haystack.len()
    &&& haystack.subrange(at, at + needle.len()) == needle
}

/// `needle` stands somewhere in `haystack`.
pub open spec fn contains(haystack: Seq<char>, needle: Seq<char>) -> bool {
    exists|at: int| occurs_at(haystack, needle, at)
}

/// `needle` stands somewhere in `haystack` once both are in upper case.
pub open spec fn contains_ignoring_case(haystack: Seq<char>, needle: Seq<char>) -> bool {
    contains(uppercase(haystack), uppercase(needle))
}

/// The answer that lets a replacement go ahead: `y` or `Y`, whatever
/// whitespace stands around it.
pub open spec fn affirmative(answer: Seq<char>) -> bool {
    trimmed(lowercase(answer)) == seq!['y']
}

/// Calls `char::is_whitespace`, which tells whether a character has the
/// Unicode property `White_Space`. Nothing is claimed but that the answer
/// depends on the character alone.
#[verifier::external_body]
fn char_is_whitespace(c: char) -> (b: bool)
    ensures
        b == is_whitespace(c),
{
    c.is_whitespace()
}

/// Calls `str::to_uppercase`, which maps a string to its upper case by the
/// Unicode case tables, without regard to any locale. Nothing is claimed but
/// that the result depends on the string alone.
#[verifier::external_body]
fn to_uppercase(s: &str) -> (r: String)
    ensures
        r@ == uppercase(s@),
{
    s.to_uppercase()
}

/// Calls `str::to_lowercase`, which maps a string to its lower case by the
/// Unicode case tables, without regard to any locale. Nothing is claimed but
/// that the result depends on the string alone.
#[verifier::external_body]
fn to_lowercase(s: &str) -> (r: String)
    ensures
        r@ == lowercase(s@),
{
    s.to_lowercase()
}

/// The characters of `s`, in order.
pub(crate) fn chars_of(s: &str) -> (v: Vec<char>)
    ensures
        v@ == s@,
{
    let mut v: Vec<char> = Vec::new();
    for c in it: s.chars()
        invariant
            v@ == it.seq().take(it.index() as int),
            it.seq() == s@,
    {
        v.push(c);
    }
    v
}

/// Trimming the start drops a prefix: what is left is `s` from some index on.
pub proof fn lemma_trimmed_start_skips(s: Seq<char>, i: int)
    requires
        0 <= i <= s.len(),
        forall|k: int| 0 <= k < i ==> is_whitespace(#[trigger] s[k]),
    ensures
        trimmed_start(s) == trimmed_start(s.skip(i)),
    decreases i,
{
    if i == 0 {
        assert(s.skip(0) == s);
    } else {
        assert(s.drop_first().skip(i - 1) == s.skip(i));
        lemma_trimmed_start_skips(s.drop_first(), i - 1);
    }
}

/// Trimming the end drops a suffix: what is left is `s` up to some index.
pub proof fn lemma_trimmed_end_takes(s: Seq<char>, j: int)
    requires
        0 <= j <= s.len(),
        forall|k: int| j <= k < s.len() ==> is_whitespace(#[trigger] s[k]),
    ensures
        trimmed_end(s) == trimmed_end(s.take(j)),
    decreases s.len() - j,
{
    if j == s.len() {
        assert(s.take(j) == s);
    } else {
        assert(s.drop_last().take(j) == s.take(j));
        lemma_trimmed_end_takes(s.drop_last(), j);
    }
}

/// What trimming the start leaves is `s` from some index on, and does not
/// begin with whitespace.
pub proof fn lemma_trimmed_start_shape(s: Seq<char>) -> (i: int)
    ensures
        0 <= i <= s.len(),
        trimmed_start(s) == s.skip(i),
        i < s.len() ==> !is_whitespace(s[i]),
    decreases s.len(),
{
    if s.len() > 0 && is_whitespace(s.first()) {
        let i = lemma_trimmed_start_shape(s.drop_first());
        i + 1
    } else {
        assert(s.skip(0) == s);
        0
    }
}

/// What trimming the end leaves is `s` up to some index, and does not end
/// with whitespace.
pub proof fn lemma_trimmed_end_shape(s: Seq<char>) -> (j: int)
    ensures
        0 <= j <= s.len(),
        trimmed_end(s) == s.take(j),
        j > 0 ==> !is_whitespace(s[j - 1]),
    decreases s.len(),
{
    if s.len() > 0 && is_whitespace(s.last()) {
        let j = lemma_trimmed_end_shape(s.drop_last());
        assert(s.drop_last().take(j) == s.take(j));
        j
    } else {
        s.len() as int
    }
}

/// A trimmed text is empty, or neither begins nor ends with whitespace.
pub proof fn law_trimmed_has_no_whitespace_around(s: Seq<char>)
    ensures
        trimmed(s).len() > 0 ==> !is_whitespace(trimmed(s).first()) && !is_whitespace(
            trimmed(s).last(),
        ),
{
    lemma_trimmed_start_shape(s);
    lemma_trimmed_end_shape(trimmed_start(s));
}

/// Trimming a trimmed text changes nothing.
pub proof fn law_trim_is_idempotent(s: Seq<char>)
    ensures
        trimmed(trimmed(s)) == trimmed(s),
{
    law_trimmed_has_no_whitespace_around(s);
}

/// Trimming removes exactly the whitespace around a text: where `core` is
/// empty or neither begins nor ends with whitespace, and `lead` and `trail`
/// are whitespace throughout, `lead + core + trail` trims to `core`.
pub proof fn law_trim_removes_surrounding_whitespace(
    lead: Seq<char>,
    core: Seq<char>,
    trail: Seq<char>,
)
    requires
        all_whitespace(lead),
        all_whitespace(trail),
        core.len() > 0 ==> !is_whitespace(core.first()) && !is_whitespace(core.last()),
    ensures
        trimmed(lead + core + trail) == core,
{
    let s = lead + core + trail;
    let rest = core + trail;
    assert(s.skip(lead.len() as int) == rest);
    assert forall|k: int| 0 <= k < lead.len() implies is_whitespace(#[trigger] s[k]) by {}
    lemma_trimmed_start_skips(s, lead.len() as int);
    assert forall|k: int| core.len() <= k < rest.len() implies is_whitespace(
        #[trigger] rest[k],
    ) by {}
    if core.len() > 0 {
        lemma_trimmed_end_takes(rest, core.len() as int);
    } else {
        lemma_trimmed_start_skips(rest, rest.len() as int);
    }
}

/// `text` without the whitespace around it.
pub fn trim(text: &str) -> (r: String)
    ensures
        r@ == trimmed(text@),
{
    let chars = chars_of(text);
    let n: usize = chars.len();
    let mut i: usize = 0;
    while i < n && char_is_whitespace(chars[i])
        invariant
            i <= n,
            n == chars@.len(),
            forall|k: int| 0 <= k < i ==> is_whitespace(#[trigger] chars@[k]),
        decreases n - i,
    {
        i += 1;
    }
    let mut j: usize = n;
    while j > i && char_is_whitespace(chars[j - 1])
        invariant
            i <= j <= n,
            n == chars@.len(),
            forall|k: int| j <= k < n ==> is_whitespace(#[trigger] chars@[k]),
        decreases j,
    {
        j -= 1;
    }
    proof {
        let rest = chars@.skip(i as int);
        lemma_trimmed_start_skips(chars@, i as int);
        assert forall|k: int| j - i <= k < rest.len() implies is_whitespace(#[trigger] rest[k]) by {}
        lemma_trimmed_end_takes(rest, j - i);
    }
    text.substring_char(i, j).to_owned()
}

/// Whether `needle` stands in `haystack` at index `at`.
fn matches_at(haystack: &Vec<char>, needle: &Vec<char>, at: usize) -> (b: bool)
    requires
        at + needle@.len() <= haystack@.len(),
    ensures
        b == occurs_at(haystack@, needle@, at as int),
{
    let n: usize = haystack.len();
    let m: usize = needle.len();
    let mut k: usize = 0;
    while k < m
        invariant
            k <= m,
            m == needle@.len(),
            n == haystack@.len(),
            at + m <= n,
            forall|t: int| 0 <= t < k ==> haystack@[at + t] == needle@[t],
        decreases m - k,
    {
        if haystack[at + k] != needle[k] {
            assert(haystack@.subrange(at as int, at + m)[k as int] != needle@[k as int]);
            return false;
        }
        k += 1;
    }
    assert(haystack@.subrange(at as int, at + m) =~= needle@);
    true
}

/// Whether `needle` stands somewhere in `haystack`, character for
/// character.
pub fn find(haystack: &str, needle: &str) -> (b: bool)
    ensures
        b == contains(haystack@, needle@),
{
    let h = chars_of(haystack);
    let m = chars_of(needle);
    if m.len() > h.len() {
        return false;
    }
    let last: usize = h.len() - m.len();
    let mut at: usize = 0;
    while at < last
        invariant
            at <= last,
            last == h@.len() - m@.len(),
            h@ == haystack@,
            m@ == needle@,
            forall|t: int| 0 <= t < at ==> !occurs_at(h@, m@, t),
        decreases last - at,
    {
        if matches_at(&h, &m, at) {
            return true;
        }
        at += 1;
    }
    matches_at(&h, &m, last)
}

/// Whether `needle` stands somewhere in `haystack`, both taken in upper
/// case.
pub fn mentions(haystack: &str, needle: &str) -> (b: bool)
    ensures
        b == contains_ignoring_case(haystack@, needle@),
{
    let upper_haystack = to_uppercase(haystack);
    let upper_needle = to_uppercase(needle);
    find(upper_haystack.as_str(), upper_needle.as_str())
}

/// Whether `answer` lets a replacement go ahead.
pub fn is_affirmative(answer: &str) -> (b: bool)
    ensures
        b == affirmative(answer@),
{
    let lower = to_lowercase(answer);
    let core = trim(lower.as_str());
    let chars = chars_of(core.as_str());
    let b = chars.len() == 1 && chars[0] == 'y';
    proof {
        if b {
            assert(chars@ =~= seq!['y']);
        }
    }
    b
}

} // verus!
