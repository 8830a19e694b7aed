//! What a served file is: its media type, from the extension, and the
//! compression it is stored under, from a trailing `.gz` or `.br`.

use vstd::prelude::*;
use vstd::slice::slice_subrange;
use vstd::utf8::is_ascii_chars;
use crate::text::{chars_of, ends_with, has_suffix, lowercase, string_of, to_lowercase};

verus! {

/// Whether `path` ends with the extension `ext`, capital ASCII letters in
/// `path` counting as small ones.
pub open spec fn has_extension(path: Seq<char>, ext: Seq<char>) -> bool {
    ends_with(lowercase(path), ext)
}

/// The media type of a file named `path`. The first extension of the table
/// that matches decides; a name that matches none is a stream of bytes.
pub open spec fn content_type(path: Seq<char>) -> Seq<char> {
    if has_extension(path, ".wasm"@) {
        "application/wasm"@
    } else if has_extension(path, ".js"@) {
        "application/javascript; charset=utf-8"@
    } else if has_extension(path, ".data"@) {
        "application/octet-stream"@
    } else if has_extension(path, ".json"@) {
        "application/json; charset=utf-8"@
    } else if has_extension(path, ".css"@) {
        "text/css; charset=utf-8"@
    } else if has_extension(path, ".html"@) || has_extension(path, ".htm"@) {
        "text/html; charset=utf-8"@
    } else if has_extension(path, ".png"@) {
        "image/png"@
    } else if has_extension(path, ".jpg"@) || has_extension(path, ".jpeg"@) {
        "image/jpeg"@
    } else if has_extension(path, ".svg"@) {
        "image/svg+xml"@
    } else if has_extension(path, ".ico"@) {
        "image/x-icon"@
    } else {
        "application/octet-stream"@
    }
}

/// Every media type of the table is pure ASCII.
pub proof fn lemma_content_type_is_ascii(path: Seq<char>)
    ensures
        is_ascii_chars(content_type(path)),
{
    reveal_strlit("application/wasm");
    reveal_strlit("application/javascript; charset=utf-8");
    reveal_strlit("application/octet-stream");
    reveal_strlit("application/json; charset=utf-8");
    reveal_strlit("text/css; charset=utf-8");
    reveal_strlit("text/html; charset=utf-8");
    reveal_strlit("image/png");
    reveal_strlit("image/jpeg");
    reveal_strlit("image/svg+xml");
    reveal_strlit("image/x-icon");
}

fn matches_extension(lowered: &[char], ext: &str) -> (r: bool)
    ensures
        r == ends_with(lowered@, ext@),
{
    let suffix = chars_of(ext);
    has_suffix(lowered, suffix.as_slice())
}

/// The media type to announce for a file named `path_without_encoding`.
pub fn content_type_for(path_without_encoding: &str) -> (mime: &'static str)
    ensures
        mime@ == content_type(path_without_encoding@),
{
    let chars = chars_of(path_without_encoding);
    let lower = to_lowercase(chars.as_slice());
    let lower = lower.as_slice();
    if matches_extension(lower, ".wasm") {
        return "application/wasm";
    }
    if matches_extension(lower, ".js") {
        return "application/javascript; charset=utf-8";
    }
    if matches_extension(lower, ".data") {
        return "application/octet-stream";
    }
    if matches_extension(lower, ".json") {
        return "application/json; charset=utf-8";
    }
    if matches_extension(lower, ".css") {
        return "text/css; charset=utf-8";
    }
    if matches_extension(lower, ".html") || matches_extension(lower, ".htm") {
        return "text/html; charset=utf-8";
    }
    if matches_extension(lower, ".png") {
        return "image/png";
    }
    if matches_extension(lower, ".jpg") || matches_extension(lower, ".jpeg") {
        return "image/jpeg";
    }
    if matches_extension(lower, ".svg") {
        return "image/svg+xml";
    }
    if matches_extension(lower, ".ico") {
        return "image/x-icon";
    }
    "application/octet-stream"
}

/// How the bytes of a served file are compressed.
#[derive(Clone, Copy, Debug, PartialEq, Eq, Structural)]
pub enum ContentEncoding {
    /// Stored as it is.
    Identity,
    /// Stored under gzip (`.gz`).
    Gzip,
    /// Stored under Brotli (`.br`).
    Brotli,
}

impl ContentEncoding {
    /// The token that names the scheme in a `Content-Encoding` header; empty
    /// for a file that is not compressed.
    pub open spec fn token(self) -> Seq<char> {
        match self {
            ContentEncoding::Identity => ""@,
            ContentEncoding::Gzip => "gzip"@,
            ContentEncoding::Brotli => "br"@,
        }
    }

    /// The file-name suffix that marks the scheme; empty for none.
    pub open spec fn suffix(self) -> Seq<char> {
        match self {
            ContentEncoding::Identity => ""@,
            ContentEncoding::Gzip => ".gz"@,
            ContentEncoding::Brotli => ".br"@,
        }
    }

    /// The header token of the scheme.
    pub fn name(&self) -> (r: &'static str)
        ensures
            r@ == self.token(),
    {
        match self {
            ContentEncoding::Identity => "",
            ContentEncoding::Gzip => "gzip",
            ContentEncoding::Brotli => "br",
        }
    }
}

/// The compression that the name `path` announces: `.gz` is looked for
/// first, then `.br`. The suffix is taken as it is written, so `.GZ`
/// announces nothing.
pub open spec fn encoding_of(path: Seq<char>) -> ContentEncoding {
    if ends_with(path, ".gz"@) {
        ContentEncoding::Gzip
    } else if ends_with(path, ".br"@) {
        ContentEncoding::Brotli
    } else {
        ContentEncoding::Identity
    }
}

/// `s` without any trailing repetitions of `suffix`.
pub open spec fn strip_trailing(s: Seq<char>, suffix: Seq<char>) -> Seq<char>
    decreases s.len(),
{
    if suffix.len() > 0 && ends_with(s, suffix) {
        strip_trailing(s.take(s.len() - suffix.len()), suffix)
    } else {
        s
    }
}

/// The name under which the media type of `path` is looked up: `path`
/// without the suffix of its compression, however often that suffix is
/// repeated at the end.
pub open spec fn media_name(path: Seq<char>) -> Seq<char> {
    strip_trailing(path, encoding_of(path).suffix())
}

fn without_trailing(s: &[char], suffix: &[char]) -> (end: usize)
    ensures
        end <= s.len(),
        s@.take(end as int) == strip_trailing(s@, suffix@),
{
    let mut end: usize = s.len();
    assert(s@.take(end as int) == s@);
    if suffix.len() == 0 {
        return end;
    }
    loop
        invariant
            end <= s.len(),
            suffix.len() > 0,
            strip_trailing(s@, suffix@) == strip_trailing(s@.take(end as int), suffix@),
        decreases end,
    {
        let head = slice_subrange(s, 0, end);
        if !has_suffix(head, suffix) {
            return end;
        }
        assert(s@.take(end as int).take(end - suffix.len()) == s@.take(end - suffix.len()));
        end = end - suffix.len();
    }
}

/// Splits the name of a served file into the compression it announces and
/// the name that decides its media type.
pub fn detect_encoding(path: &str) -> (r: (ContentEncoding, String))
    ensures
        r.0 == encoding_of(path@),
        r.1@ == media_name(path@),
{
    let chars = chars_of(path);
    let gz = chars_of(".gz");
    let br = chars_of(".br");
    let encoding = if has_suffix(chars.as_slice(), gz.as_slice()) {
        ContentEncoding::Gzip
    } else if has_suffix(chars.as_slice(), br.as_slice()) {
        ContentEncoding::Brotli
    } else {
        ContentEncoding::Identity
    };
    let end: usize = match encoding {
        ContentEncoding::Gzip => without_trailing(chars.as_slice(), gz.as_slice()),
        ContentEncoding::Brotli => without_trailing(chars.as_slice(), br.as_slice()),
        ContentEncoding::Identity => chars.len(),
    };
    proof {
        reveal_strlit("");
        assert(chars@.take(chars@.len() as int) == chars@);
    }
    (encoding, string_of(slice_subrange(chars.as_slice(), 0, end)))
}

} // verus!
