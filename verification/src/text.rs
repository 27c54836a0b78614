//! Character and sequence rules shared by the pipeline stages.
//!
//! Text is modelled as `Seq<char>`. The executable functions work on
//! `&[char]`, obtained once per string with [`chars_of`].

use vstd::prelude::*;

verus! {

/// The characters that carry the Unicode `White_Space` property.
pub open spec fn is_whitespace(c: char) -> bool {
    let u = c as u32;
    ||| 0x09 <= u <= 0x0d
    ||| u == 0x20
    ||| u == 0x85
    ||| u == 0xa0
    ||| u == 0x1680
    ||| 0x2000 <= u <= 0x200a
    ||| u == 0x2028
    ||| u == 0x2029
    ||| u == 0x202f
    ||| u == 0x205f
    ||| u == 0x3000
}

/// `s` without its leading whitespace.
pub open spec fn trim_start(s: Seq<char>) -> Seq<char>
    decreases s.len(),
{
    if s.len() > 0 && is_whitespace(s.first()) {
        trim_start(s.drop_first())
    } else {
        s
    }
}

/// `s` without its trailing whitespace.
pub open spec fn trim_end(s: Seq<char>) -> Seq<char>
    decreases s.len(),
{
    if s.len() > 0 && is_whitespace(s.last()) {
        trim_end(s.drop_last())
    } else {
        s
    }
}

/// `s` without leading and trailing whitespace.
pub open spec fn trim(s: Seq<char>) -> Seq<char> {
    trim_end(trim_start(s))
}

/// A token starts at `i`: a character that is not whitespace, at the start
/// of `s` or right after whitespace.
pub open spec fn is_token_start(s: Seq<char>, i: int) -> bool {
    &&& 0 <= i < s.len()
    &&& !is_whitespace(s[i])
    &&& (i == 0 || is_whitespace(s[i - 1]))
}

/// The number of tokens of `s` that start before position `n`.
pub open spec fn token_starts_before(s: Seq<char>, n: int) -> nat
    decreases n,
{
    if n <= 0 {
        0
    } else if is_token_start(s, n - 1) {
        token_starts_before(s, n - 1) + 1
    } else {
        token_starts_before(s, n - 1)
    }
}

/// The number of whitespace-separated tokens of `s`.
pub open spec fn token_count(s: Seq<char>) -> nat {
    token_starts_before(s, s.len() as int)
}

/// `needle` stands in `hay` at position `i`.
pub open spec fn occurs_at(hay: Seq<char>, needle: Seq<char>, i: int) -> bool {
    &&& 0 <= i
    &&& i + needle.len() <= hay.len()
    &&& hay.subrange(i, i + needle.len()) == needle
}

/// `needle` stands somewhere in `hay`.
pub open spec fn contains(hay: Seq<char>, needle: Seq<char>) -> bool {
    exists|i: int| occurs_at(hay, needle, i)
}

/// The position of the first `c` in `s`; the length of `s` where it holds
/// none.
pub open spec fn first_index_of(s: Seq<char>, c: char) -> int
    decreases s.len(),
{
    if s.len() == 0 || s.first() == c {
        0
    } else {
        1 + first_index_of(s.drop_first(), c)
    }
}

/// The parts in order, with `sep` between each two neighbours.
pub open spec fn joined(parts: Seq<Seq<char>>, sep: Seq<char>) -> Seq<char>
    decreases parts.len(),
{
    if parts.len() == 0 {
        Seq::empty()
    } else if parts.len() == 1 {
        parts.last()
    } else {
        joined(parts.drop_last(), sep) + sep + parts.last()
    }
}

/// Where no `c` stands before `j`, and one stands at `j` or `j` is the end,
/// `j` is the position of the first `c`.
pub proof fn lemma_first_index_of(s: Seq<char>, c: char, j: int)
    requires
        0 <= j <= s.len(),
        forall|i: int| 0 <= i < j ==> #[trigger] s[i] != c,
        j < s.len() ==> s[j] == c,
    ensures
        first_index_of(s, c) == j,
    decreases j,
{
    if j > 0 {
        let rest = s.drop_first();
        assert forall|i: int| 0 <= i < j - 1 implies #[trigger] rest[i] != c by {
            assert(rest[i] == s[i + 1]);
        }
        lemma_first_index_of(rest, c, j - 1);
    }
}

/// Skipping `a` whitespace characters up to a character that is none (or up
/// to the end) is trimming the start.
pub proof fn lemma_trim_start_is_skip(s: Seq<char>, a: int)
    requires
        0 <= a <= s.len(),
        forall|i: int| 0 <= i < a ==> is_whitespace(#[trigger] s[i]),
        a < s.len() ==> !is_whitespace(s[a]),
    ensures
        trim_start(s) == s.skip(a),
    decreases a,
{
    if a == 0 {
        assert(s.skip(0) =~= s);
    } else {
        let rest = s.drop_first();
        assert forall|i: int| 0 <= i < a - 1 implies is_whitespace(#[trigger] rest[i]) by {
            assert(rest[i] == s[i + 1]);
        }
        lemma_trim_start_is_skip(rest, a - 1);
        assert(rest.skip(a - 1) =~= s.skip(a));
    }
}

/// Cutting `s` at `b`, where only whitespace follows and the character
/// before is none (or `b` is 0), is trimming the end.
pub proof fn lemma_trim_end_is_take(s: Seq<char>, b: int)
    requires
        0 <= b <= s.len(),
        forall|i: int| b <= i < s.len() ==> is_whitespace(#[trigger] s[i]),
        0 < b ==> !is_whitespace(s[b - 1]),
    ensures
        trim_end(s) == s.take(b),
    decreases s.len() - b,
{
    if b == s.len() {
        assert(s.take(b) =~= s);
    } else {
        let rest = s.drop_last();
        lemma_trim_end_is_take(rest, b);
        assert(rest.take(b) =~= s.take(b));
    }
}

/// A trimmed text neither starts nor ends with whitespace.
pub proof fn lemma_trim_has_no_outer_whitespace(s: Seq<char>)
    ensures
        trim(s).len() > 0 ==> !is_whitespace(trim(s).first()) && !is_whitespace(trim(s).last()),
        trim(s).len() <= s.len(),
{
    lemma_trim_start_shape(s);
    lemma_trim_end_shape(trim_start(s));
}

proof fn lemma_trim_start_shape(s: Seq<char>)
    ensures
        trim_start(s).len() <= s.len(),
        trim_start(s).len() > 0 ==> !is_whitespace(trim_start(s).first()),
    decreases s.len(),
{
    if s.len() > 0 && is_whitespace(s.first()) {
        lemma_trim_start_shape(s.drop_first());
    }
}

proof fn lemma_trim_end_shape(s: Seq<char>)
    ensures
        trim_end(s).len() <= s.len(),
        trim_end(s).len() > 0 ==> !is_whitespace(trim_end(s).last()),
        trim_end(s).len() > 0 ==> trim_end(s).first() == s.first(),
    decreases s.len(),
{
    if s.len() > 0 && is_whitespace(s.last()) {
        lemma_trim_end_shape(s.drop_last());
    }
}

/// The tokens that start before `n` depend on the characters before `n`
/// alone.
pub proof fn lemma_token_starts_of_prefix(s: Seq<char>, t: Seq<char>, n: int)
    requires
        0 <= n <= s.len(),
        n <= t.len(),
        forall|i: int| 0 <= i < n ==> s[i] == t[i],
    ensures
        token_starts_before(s, n) == token_starts_before(t, n),
    decreases n,
{
    if n > 0 {
        lemma_token_starts_of_prefix(s, t, n - 1);
    }
}

/// Leading whitespace holds no token.
pub proof fn lemma_drop_leading_whitespace(s: Seq<char>, n: int)
    requires
        s.len() > 0,
        is_whitespace(s.first()),
        0 <= n < s.len(),
    ensures
        token_starts_before(s.drop_first(), n) == token_starts_before(s, n + 1),
    decreases n,
{
    if n > 0 {
        lemma_drop_leading_whitespace(s, n - 1);
        let rest = s.drop_first();
        assert(rest[n - 1] == s[n]);
        if n - 1 > 0 {
            assert(rest[n - 2] == s[n - 1]);
        }
        assert(is_token_start(rest, n - 1) == is_token_start(s, n));
    } else {
        assert(token_starts_before(s, 0) == 0);
        assert(!is_token_start(s, 0));
    }
}

/// Trimming the start leaves the tokens as they are.
pub proof fn lemma_trim_start_keeps_tokens(s: Seq<char>)
    ensures
        token_count(trim_start(s)) == token_count(s),
    decreases s.len(),
{
    if s.len() > 0 && is_whitespace(s.first()) {
        lemma_trim_start_keeps_tokens(s.drop_first());
        lemma_drop_leading_whitespace(s, s.len() - 1);
    }
}

/// Trimming the end leaves the tokens as they are.
pub proof fn lemma_trim_end_keeps_tokens(s: Seq<char>)
    ensures
        token_count(trim_end(s)) == token_count(s),
    decreases s.len(),
{
    if s.len() > 0 && is_whitespace(s.last()) {
        lemma_trim_end_keeps_tokens(s.drop_last());
        lemma_token_starts_of_prefix(s, s.drop_last(), s.len() - 1);
        assert(!is_token_start(s, s.len() - 1));
    }
}

/// Trimming leaves the tokens as they are.
pub proof fn lemma_trim_keeps_tokens(s: Seq<char>)
    ensures
        token_count(trim(s)) == token_count(s),
{
    lemma_trim_start_keeps_tokens(s);
    lemma_trim_end_keeps_tokens(trim_start(s));
}

/// Decides whether `c` separates tokens.
pub fn char_is_whitespace(c: char) -> (b: bool)
    ensures
        b == is_whitespace(c),
{
    let u: u32 = c as u32;
    (0x09 <= u && u <= 0x0d) || u == 0x20 || u == 0x85 || u == 0xa0 || u == 0x1680 || (0x2000 <= u
        && u <= 0x200a) || u == 0x2028 || u == 0x2029 || u == 0x202f || u == 0x205f || u == 0x3000
}

/// The characters of `s`, in order.
pub fn chars_of(s: &str) -> (v: Vec<char>)
    ensures
        v@ == s@,
{
    let mut v: Vec<char> = Vec::new();
    for c in it: s.chars()
        invariant
            v@ == it.seq().take(it.index()),
    {
        v.push(c);
    }
    v
}

/// `String::push` of std: appends one character to the end of the string.
#[verifier::external_body]
pub(crate) fn push_char(s: &mut String, c: char)
    ensures
        final(s)@ == old(s)@.push(c),
{
    s.push(c);
}

/// The string made of the characters `chars`.
pub fn string_of(chars: &[char]) -> (s: String)
    ensures
        s@ == chars@,
{
    let mut s = String::new();
    let mut i: usize = 0;
    while i < chars.len()
        invariant
            i <= chars@.len(),
            s@ == chars@.take(i as int),
        decreases chars@.len() - i,
    {
        push_char(&mut s, chars[i]);
        assert(chars@.take(i as int).push(chars@[i as int]) =~= chars@.take(i + 1));
        i += 1;
    }
    assert(chars@.take(chars@.len() as int) =~= chars@);
    s
}

/// Appends the characters of `part` to `out`.
pub fn append_chars(out: &mut Vec<char>, part: &[char])
    ensures
        final(out)@ == old(out)@ + part@,
{
    let mut i: usize = 0;
    while i < part.len()
        invariant
            i <= part@.len(),
            out@ == old(out)@ + part@.take(i as int),
        decreases part@.len() - i,
    {
        out.push(part[i]);
        assert(part@.take(i as int).push(part@[i as int]) =~= part@.take(i + 1));
        assert(out@ =~= old(out)@ + part@.take(i + 1));
        i += 1;
    }
    assert(part@.take(part@.len() as int) =~= part@);
}

/// Decides whether `text` begins with `prefix`.
pub fn has_prefix(text: &[char], prefix: &[char]) -> (b: bool)
    ensures
        b == prefix@.is_prefix_of(text@),
{
    if prefix.len() > text.len() {
        return false;
    }
    let mut i: usize = 0;
    while i < prefix.len()
        invariant
            i <= prefix@.len() <= text@.len(),
            forall|k: int| 0 <= k < i ==> text@[k] == prefix@[k],
        decreases prefix@.len() - i,
    {
        if text[i] != prefix[i] {
            return false;
        }
        i += 1;
    }
    assert(prefix@ =~= text@.subrange(0, prefix@.len() as int));
    true
}

/// Finds the position of the first `c` in `text`; the length of `text`
/// where it holds none.
pub fn position(text: &[char], c: char) -> (i: usize)
    ensures
        i == first_index_of(text@, c),
        i <= text@.len(),
{
    let mut i: usize = 0;
    while i < text.len() && text[i] != c
        invariant
            i <= text@.len(),
            forall|k: int| 0 <= k < i ==> #[trigger] text@[k] != c,
        decreases text@.len() - i,
    {
        i += 1;
    }
    proof {
        lemma_first_index_of(text@, c, i as int);
    }
    i
}

/// Decides whether `needle` stands in `hay` at position `i`.
fn matches_at(hay: &[char], needle: &[char], i: usize) -> (b: bool)
    requires
        i + needle@.len() <= hay@.len(),
    ensures
        b == occurs_at(hay@, needle@, i as int),
{
    let n: usize = hay.len();
    let mut j: usize = 0;
    while j < needle.len()
        invariant
            j <= needle@.len(),
            i + needle@.len() <= hay@.len() == n,
            forall|k: int| 0 <= k < j ==> hay@[i + k] == needle@[k],
        decreases needle@.len() - j,
    {
        if hay[i + j] != needle[j] {
            assert(hay@.subrange(i as int, i + needle@.len())[j as int] == hay@[i + j]);
            return false;
        }
        j += 1;
    }
    assert(hay@.subrange(i as int, i + needle@.len()) =~= needle@);
    true
}

/// Decides whether `needle` stands somewhere in `hay`.
pub fn slice_contains(hay: &[char], needle: &[char]) -> (b: bool)
    ensures
        b == contains(hay@, needle@),
{
    if needle.len() > hay.len() {
        return false;
    }
    if needle.len() == 0 {
        assert(hay@.subrange(0, 0) =~= needle@);
        assert(occurs_at(hay@, needle@, 0));
        return true;
    }
    let last: usize = hay.len() - needle.len();
    let mut i: usize = 0;
    while i <= last
        invariant
            0 < needle@.len() <= hay@.len() <= usize::MAX,
            last == hay@.len() - needle@.len(),
            i <= last + 1,
            forall|k: int| 0 <= k < i ==> !occurs_at(hay@, needle@, k),
        decreases last + 1 - i,
    {
        if matches_at(hay, needle, i) {
            return true;
        }
        i += 1;
    }
    false
}

/// The part of `text` that is left when the whitespace at both ends is
/// taken away.
pub fn trimmed(text: &[char]) -> (part: &[char])
    ensures
        part@ == trim(text@),
{
    let n: usize = text.len();
    let mut a: usize = 0;
    while a < n && char_is_whitespace(text[a])
        invariant
            a <= n == text@.len(),
            forall|i: int| 0 <= i < a ==> is_whitespace(#[trigger] text@[i]),
        decreases n - a,
    {
        a += 1;
    }
    let mut b: usize = n;
    while b > a && char_is_whitespace(text[b - 1])
        invariant
            a <= b <= n == text@.len(),
            forall|i: int| b <= i < n ==> is_whitespace(#[trigger] text@[i]),
        decreases b,
    {
        b -= 1;
    }
    proof {
        let s = text@;
        lemma_trim_start_is_skip(s, a as int);
        let t = s.skip(a as int);
        assert forall|i: int| b - a <= i < t.len() implies is_whitespace(#[trigger] t[i]) by {
            assert(t[i] == s[i + a]);
        }
        if b > a {
            assert(t[b - a - 1] == s[b - 1]);
        }
        lemma_trim_end_is_take(t, b - a);
        assert(t.take(b - a) =~= s.subrange(a as int, b as int));
    }
    &text[a..b]
}

/// Counts the whitespace-separated tokens of `text`.
pub fn count_tokens(text: &[char]) -> (n: usize)
    ensures
        n == token_count(text@),
{
    let mut count: usize = 0;
    let mut after_whitespace: bool = true;
    let mut i: usize = 0;
    while i < text.len()
        invariant
            i <= text@.len(),
            count == token_starts_before(text@, i as int),
            count <= i,
            after_whitespace == (i == 0 || is_whitespace(text@[i - 1])),
        decreases text@.len() - i,
    {
        let white = char_is_whitespace(text[i]);
        if !white && after_whitespace {
            count += 1;
        }
        after_whitespace = white;
        i += 1;
    }
    count
}

} // verus!
