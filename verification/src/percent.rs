//! Best-effort percent-decoding of URL paths.

use vstd::prelude::*;
use vstd::utf8::{decode_utf8, encode_utf8, valid_utf8};

verus! {

/// The numeric value of an ASCII hexadecimal digit, if `c` is one.
pub open spec fn hex_value(c: u8) -> Option<u8> {
    if 0x30 <= c <= 0x39 {
        Some((c - 0x30) as u8)
    } else if 0x61 <= c <= 0x66 {
        Some((c - 0x61 + 10) as u8)
    } else if 0x41 <= c <= 0x46 {
        Some((c - 0x41 + 10) as u8)
    } else {
        None
    }
}

/// Whether a well-formed escape `%XX` starts at position `i` of `s`.
pub open spec fn escape_at(s: Seq<u8>, i: int) -> bool {
    &&& 0 <= i
    &&& i + 2 < s.len()
    &&& s[i] == 0x25
    &&& hex_value(s[i + 1]) is Some
    &&& hex_value(s[i + 2]) is Some
}

/// The byte that the escape starting at position `i` of `s` stands for.
pub open spec fn escaped_byte(s: Seq<u8>, i: int) -> u8 {
    (hex_value(s[i + 1])->0 * 16 + hex_value(s[i + 2])->0) as u8
}

/// The decoded form of `s`: every well-formed `%XX` becomes the byte it
/// names, every `+` becomes a space, and every other byte (a `%` that starts
/// no well-formed escape included) stands for itself.
pub open spec fn percent_decode(s: Seq<u8>) -> Seq<u8>
    decreases s.len(),
{
    if s.len() == 0 {
        Seq::empty()
    } else if escape_at(s, 0) {
        seq![escaped_byte(s, 0)] + percent_decode(s.skip(3))
    } else if s[0] == 0x2b {
        seq![0x20u8] + percent_decode(s.skip(1))
    } else {
        seq![s[0]] + percent_decode(s.skip(1))
    }
}

/// Reads one hexadecimal digit.
pub fn hex_digit(c: u8) -> (v: Option<u8>)
    ensures
        v == hex_value(c),
        v matches Some(d) ==> d < 16,
{
    if 0x30 <= c && c <= 0x39 {
        Some(c - 0x30)
    } else if 0x61 <= c && c <= 0x66 {
        Some(c - 0x61 + 10)
    } else if 0x41 <= c && c <= 0x46 {
        Some(c - 0x41 + 10)
    } else {
        None
    }
}

/// Decodes the percent-escapes of `input`, byte for byte.
pub fn percent_decode_bytes(input: &[u8]) -> (out: Vec<u8>)
    ensures
        out@ == percent_decode(input@),
{
    let mut out: Vec<u8> = Vec::with_capacity(input.len());
    let mut i: usize = 0;
    assert(input@.skip(0) == input@);
    assert(out@ + percent_decode(input@) == percent_decode(input@));
    while i < input.len()
        invariant
            i <= input.len(),
            percent_decode(input@) == out@ + percent_decode(input@.skip(i as int)),
        decreases input.len() - i,
    {
        let ghost rest = input@.skip(i as int);
        let b: u8 = input[i];
        let mut step: usize = 1;
        let mut byte: u8 = if b == 0x2b { 0x20 } else { b };
        if b == 0x25 && input.len() - i > 2 {
            match (hex_digit(input[i + 1]), hex_digit(input[i + 2])) {
                (Some(hi), Some(lo)) => {
                    assert((hi << 4) | lo == hi * 16 + lo) by (bit_vector)
                        requires
                            hi < 16,
                            lo < 16,
                    ;
                    byte = (hi << 4) | lo;
                    step = 3;
                },
                _ => {},
            }
        }
        proof {
            assert(rest.len() > 0);
            assert(rest[0] == b);
            assert(rest.len() > 2 ==> rest[1] == input@[i + 1] && rest[2] == input@[i + 2]);
            assert(rest.skip(step as int) == input@.skip(i + step));
            assert(percent_decode(rest) == seq![byte] + percent_decode(rest.skip(step as int)));
        }
        out.push(byte);
        i += step;
    }
    assert(percent_decode(input@.skip(i as int)) == Seq::<u8>::empty());
    out
}

/// The text that `bytes` stand for when read as UTF-8 with every invalid
/// sequence replaced by U+FFFD.
pub uninterp spec fn utf8_lossy(bytes: Seq<u8>) -> Seq<char>;

/// Reads bytes as text with `String::from_utf8_lossy`: valid UTF-8 comes
/// back as the text it encodes, and anything else with its invalid sequences
/// replaced.
#[verifier::external_body]
fn lossy_string(bytes: &[u8]) -> (text: String)
    ensures
        text@ == utf8_lossy(bytes@),
        valid_utf8(bytes@) ==> text@ == decode_utf8(bytes@),
{
    String::from_utf8_lossy(bytes).into_owned()
}

/// The text of a decoded path, given the bytes that decoding produced.
pub open spec fn decoded_text(input: Seq<char>) -> Seq<char> {
    utf8_lossy(percent_decode(encode_utf8(input)))
}

/// Decodes the percent-escapes of a URL path and reads the result as text.
///
/// A malformed escape is no error: its `%` is kept as it stands.
pub fn percent_decode_path(input: &str) -> (text: String)
    ensures
        text@ == decoded_text(input@),
        valid_utf8(percent_decode(encode_utf8(input@))) ==> text@ == decode_utf8(
            percent_decode(encode_utf8(input@)),
        ),
{
    let out = percent_decode_bytes(input.as_bytes());
    lossy_string(out.as_slice())
}

/// A well-formed escape decodes to the byte that its two digits name, and
/// decoding goes on behind it.
pub proof fn lemma_decode_escape(hi: u8, lo: u8, rest: Seq<u8>)
    requires
        hex_value(hi) is Some,
        hex_value(lo) is Some,
    ensures
        percent_decode(seq![0x25u8, hi, lo] + rest) == seq![
            (hex_value(hi)->0 * 16 + hex_value(lo)->0) as u8,
        ] + percent_decode(rest),
{
    let s = seq![0x25u8, hi, lo] + rest;
    assert(s.skip(3) == rest);
}

/// A `%` that starts no well-formed escape is kept, and decoding goes on
/// with the byte behind it.
pub proof fn lemma_decode_malformed(rest: Seq<u8>)
    requires
        rest.len() < 2 || hex_value(rest[0]) is None || hex_value(rest[1]) is None,
    ensures
        percent_decode(seq![0x25u8] + rest) == seq![0x25u8] + percent_decode(rest),
{
    let s = seq![0x25u8] + rest;
    assert(s.skip(1) == rest);
    if rest.len() >= 2 {
        assert(s[1] == rest[0] && s[2] == rest[1]);
    }
}

/// A `+` decodes to a space.
pub proof fn lemma_decode_plus(rest: Seq<u8>)
    ensures
        percent_decode(seq![0x2bu8] + rest) == seq![0x20u8] + percent_decode(rest),
{
    let s = seq![0x2bu8] + rest;
    assert(s.skip(1) == rest);
}

/// Any byte but `%` and `+` decodes to itself.
pub proof fn lemma_decode_literal(b: u8, rest: Seq<u8>)
    requires
        b != 0x25,
        b != 0x2b,
    ensures
        percent_decode(seq![b] + rest) == seq![b] + percent_decode(rest),
{
    let s = seq![b] + rest;
    assert(s.skip(1) == rest);
}

/// Input without `%` and `+` decodes to itself.
pub proof fn lemma_decode_plain(s: Seq<u8>)
    requires
        forall|i: int| 0 <= i < s.len() ==> s[i] != 0x25 && s[i] != 0x2b,
    ensures
        percent_decode(s) == s,
    decreases s.len(),
{
    if s.len() > 0 {
        lemma_decode_plain(s.skip(1));
        assert(seq![s[0]] + s.skip(1) == s);
    }
}

/// The hexadecimal digit, in capitals, of a value below sixteen.
pub open spec fn hex_char(v: u8) -> u8 {
    if v < 10 {
        (0x30 + v) as u8
    } else {
        (0x41 + v - 10) as u8
    }
}

/// `data` with every byte written as an escape `%XX`.
pub open spec fn percent_encode(data: Seq<u8>) -> Seq<u8>
    decreases data.len(),
{
    if data.len() == 0 {
        Seq::empty()
    } else {
        seq![0x25u8, hex_char(data[0] / 16), hex_char(data[0] % 16)] + percent_encode(
            data.skip(1),
        )
    }
}

/// Decoding recovers exactly the bytes that were escaped.
pub proof fn lemma_decode_recovers_escaped(data: Seq<u8>)
    ensures
        percent_decode(percent_encode(data)) == data,
    decreases data.len(),
{
    if data.len() > 0 {
        let b = data[0];
        lemma_decode_recovers_escaped(data.skip(1));
        lemma_decode_escape(hex_char(b / 16), hex_char(b % 16), percent_encode(data.skip(1)));
        assert(seq![b] + data.skip(1) == data);
    }
}

/// A path without `%` and `+` among its bytes is its own decoded text.
pub proof fn lemma_plain_path_is_its_own_text(input: Seq<char>)
    requires
        forall|i: int|
            0 <= i < encode_utf8(input).len() ==> encode_utf8(input)[i] != 0x25 && encode_utf8(
                input,
            )[i] != 0x2b,
    ensures
        percent_decode(encode_utf8(input)) == encode_utf8(input),
        valid_utf8(percent_decode(encode_utf8(input))),
        decode_utf8(percent_decode(encode_utf8(input))) == input,
{
    lemma_decode_plain(encode_utf8(input));
    vstd::utf8::encode_utf8_valid_utf8(input);
    vstd::utf8::encode_utf8_decode_utf8(input);
}

} // verus!
