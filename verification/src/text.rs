//! Strings as sequences of characters: the few operations the rest of the
//! library needs, each with its meaning stated over `Seq<char>`.

use vstd::prelude::*;

verus! {

/// The characters of a string that may be absent.
pub open spec fn option_text(s: Option<&str>) -> Option<Seq<char>> {
    match s {
        Some(text) => Some(text@),
        None => None,
    }
}

/// The characters of an owned string that may be absent.
pub open spec fn option_string_text(s: Option<String>) -> Option<Seq<char>> {
    match s {
        Some(text) => Some(text@),
        None => None,
    }
}

/// The characters of `s`, in order.
pub fn chars_of(s: &str) -> (v: Vec<char>)
    ensures
        v@ == s@,
{
    let mut v: Vec<char> = Vec::new();
    for c in it: s.chars()
        invariant
            v@ == it.seq().take(it.index() as int),
            it.seq() == s@,
    {
        v.push(c);
    }
    v
}

/// Appends one character with `String::push`, which adds `c` at the end and
/// changes nothing else.
#[verifier::external_body]
fn push_char(s: &mut String, c: char)
    ensures
        final(s)@ == old(s)@.push(c),
{
    s.push(c);
}

/// The string made of the characters of `chars`, in order.
pub fn string_of(chars: &[char]) -> (s: String)
    ensures
        s@ == chars@,
{
    let mut s = String::new();
    let mut i: usize = 0;
    while i < chars.len()
        invariant
            i <= chars.len(),
            s@ == chars@.take(i as int),
        decreases chars.len() - i,
    {
        push_char(&mut s, chars[i]);
        assert(chars@.take(i + 1) == chars@.take(i as int).push(chars@[i as int]));
        i += 1;
    }
    assert(chars@.take(i as int) == chars@);
    s
}

/// Appends the characters of `tail` to `out`.
pub fn append_chars(out: &mut Vec<char>, tail: &[char])
    ensures
        final(out)@ == old(out)@ + tail@,
{
    let mut i: usize = 0;
    assert(out@ == old(out)@ + tail@.take(0));
    while i < tail.len()
        invariant
            i <= tail.len(),
            out@ == old(out)@ + tail@.take(i as int),
        decreases tail.len() - i,
    {
        out.push(tail[i]);
        assert(tail@.take(i + 1) == tail@.take(i as int).push(tail@[i as int]));
        i += 1;
    }
    assert(tail@.take(i as int) == tail@);
}

/// The string made of `head` followed by `tail`.
pub fn joined_text(head: &str, tail: &str) -> (s: String)
    ensures
        s@ == head@ + tail@,
{
    let mut out = chars_of(head);
    let rest = chars_of(tail);
    append_chars(&mut out, rest.as_slice());
    string_of(out.as_slice())
}

/// `c` with an ASCII capital letter replaced by its small letter.
pub open spec fn ascii_lower(c: char) -> char {
    if 'A' <= c <= 'Z' {
        ((c as u8) + 32) as char
    } else {
        c
    }
}

/// `s` with every ASCII capital letter replaced by its small letter.
pub open spec fn lowercase(s: Seq<char>) -> Seq<char> {
    Seq::new(s.len(), |i: int| ascii_lower(s[i]))
}

/// Whether `s` ends with `suffix`.
pub open spec fn ends_with(s: Seq<char>, suffix: Seq<char>) -> bool {
    suffix.len() <= s.len() && s.skip(s.len() - suffix.len()) == suffix
}

/// Lowers one character.
pub fn to_ascii_lower(c: char) -> (r: char)
    ensures
        r == ascii_lower(c),
{
    if 'A' <= c && c <= 'Z' {
        ((c as u8) + 32) as char
    } else {
        c
    }
}

/// Lowers every character of `s`.
pub fn to_lowercase(s: &[char]) -> (r: Vec<char>)
    ensures
        r@ == lowercase(s@),
{
    let mut r: Vec<char> = Vec::with_capacity(s.len());
    let mut i: usize = 0;
    while i < s.len()
        invariant
            i <= s.len(),
            r@ == lowercase(s@).take(i as int),
        decreases s.len() - i,
    {
        r.push(to_ascii_lower(s[i]));
        i += 1;
    }
    r
}

/// Tests whether `s` ends with `suffix`.
pub fn has_suffix(s: &[char], suffix: &[char]) -> (r: bool)
    ensures
        r == ends_with(s@, suffix@),
{
    if suffix.len() > s.len() {
        return false;
    }
    let start: usize = s.len() - suffix.len();
    let mut i: usize = 0;
    while i < suffix.len()
        invariant
            i <= suffix.len(),
            start + suffix.len() == s.len(),
            forall|j: int| 0 <= j < i ==> s@[start + j] == suffix@[j],
        decreases suffix.len() - i,
    {
        if s[start + i] != suffix[i] {
            assert(s@.skip(start as int)[i as int] != suffix@[i as int]);
            return false;
        }
        i += 1;
    }
    assert(s@.skip(start as int) =~= suffix@);
    true
}

/// Tests whether `a` and `b` hold the same characters.
pub fn same_chars(a: &[char], b: &[char]) -> (r: bool)
    ensures
        r == (a@ == b@),
{
    if a.len() != b.len() {
        return false;
    }
    let mut i: usize = 0;
    while i < a.len()
        invariant
            i <= a.len(),
            a.len() == b.len(),
            forall|j: int| 0 <= j < i ==> a@[j] == b@[j],
        decreases a.len() - i,
    {
        if a[i] != b[i] {
            return false;
        }
        i += 1;
    }
    assert(a@ =~= b@);
    true
}

/// The length of the longest prefix of `s` made of `c` alone (`equal`), or
/// free of `c` (not `equal`).
pub open spec fn span(s: Seq<char>, c: char, equal: bool) -> nat
    decreases s.len(),
{
    if s.len() > 0 && (s[0] == c) == equal {
        1 + span(s.skip(1), c, equal)
    } else {
        0
    }
}

/// A prefix that fits and cannot be made longer is the span.
pub proof fn lemma_span_is(s: Seq<char>, c: char, equal: bool, n: int)
    requires
        0 <= n <= s.len(),
        forall|j: int| 0 <= j < n ==> (s[j] == c) == equal,
        n < s.len() ==> (s[n] == c) != equal,
    ensures
        span(s, c, equal) == n,
    decreases n,
{
    if n > 0 {
        lemma_span_is(s.skip(1), c, equal, n - 1);
    }
}

/// The span lies within `s`, every character in it fits, and the character
/// behind it, if there is one, does not.
pub proof fn lemma_span_bounds(s: Seq<char>, c: char, equal: bool)
    ensures
        span(s, c, equal) <= s.len(),
        forall|j: int| 0 <= j < span(s, c, equal) ==> (s[j] == c) == equal,
        span(s, c, equal) < s.len() ==> (s[span(s, c, equal) as int] == c) != equal,
    decreases s.len(),
{
    if s.len() > 0 && (s[0] == c) == equal {
        let rest = s.skip(1);
        lemma_span_bounds(rest, c, equal);
        assert forall|j: int| 0 <= j < span(s, c, equal) implies (s[j] == c) == equal by {
            if j > 0 {
                assert(rest[j - 1] == s[j]);
            }
        }
        if span(s, c, equal) < s.len() {
            assert(rest[span(rest, c, equal) as int] == s[span(s, c, equal) as int]);
        }
    }
}

/// Measures the span of `s`.
pub fn leading_span(s: &[char], c: char, equal: bool) -> (n: usize)
    ensures
        n == span(s@, c, equal),
        n <= s.len(),
{
    let mut n: usize = 0;
    while n < s.len() && (s[n] == c) == equal
        invariant
            n <= s.len(),
            forall|j: int| 0 <= j < n ==> (s@[j] == c) == equal,
        decreases s.len() - n,
    {
        n += 1;
    }
    proof {
        lemma_span_is(s@, c, equal, n as int);
    }
    n
}

} // verus!
