//! The HTTP vocabulary that the asset server shares with `tiny_http`:
//! request methods and response headers.

use vstd::prelude::*;
use vstd::utf8::is_ascii_chars;
use tiny_http::Header;
use tiny_http::Method;

verus! {

#[verifier::external_type_specification]
#[verifier::external_body]
pub struct ExHeader(Header);

#[verifier::external_type_specification]
#[verifier::external_body]
pub struct ExMethod(Method);

/// The request methods that `tiny_http` tells apart.
#[derive(Clone, Copy, Debug, PartialEq, Eq, Structural)]
pub enum HttpMethod {
    Get,
    Head,
    Post,
    Put,
    Delete,
    Connect,
    Options,
    Trace,
    Patch,
    /// Any method that is none of the above.
    NonStandard,
}

impl HttpMethod {
    /// Whether the method only reads: `GET` or `HEAD`.
    pub open spec fn is_read(self) -> bool {
        self == HttpMethod::Get || self == HttpMethod::Head
    }

    /// Tests whether the method only reads.
    pub fn reads(&self) -> (r: bool)
        ensures
            r == self.is_read(),
    {
        match self {
            HttpMethod::Get => true,
            HttpMethod::Head => true,
            _ => false,
        }
    }
}

/// The kind of a request method of `tiny_http`.
pub uninterp spec fn method_kind(m: Method) -> HttpMethod;

/// Tells the variants of `tiny_http::Method` apart. The name a non-standard
/// method carries is dropped.
#[verifier::external_body]
pub(crate) fn classify_method(m: &Method) -> (kind: HttpMethod)
    ensures
        kind == method_kind(*m),
{
    match m {
        Method::Get => HttpMethod::Get,
        Method::Head => HttpMethod::Head,
        Method::Post => HttpMethod::Post,
        Method::Put => HttpMethod::Put,
        Method::Delete => HttpMethod::Delete,
        Method::Connect => HttpMethod::Connect,
        Method::Options => HttpMethod::Options,
        Method::Trace => HttpMethod::Trace,
        Method::Patch => HttpMethod::Patch,
        Method::NonStandard(_) => HttpMethod::NonStandard,
    }
}

/// The field name and the value that a header holds, in this order.
pub uninterp spec fn header_text(h: Header) -> (Seq<char>, Seq<char>);

/// Builds a header with `Header::from_bytes`, which accepts a field name and
/// a value exactly when both are pure ASCII, and keeps both as given.
#[verifier::external_body]
pub(crate) fn make_header(field: &str, value: &str) -> (made: Option<Header>)
    ensures
        made.is_some() == (is_ascii_chars(field@) && is_ascii_chars(value@)),
        made matches Some(h) ==> header_text(h) == (field@, value@),
{
    Header::from_bytes(field, value).ok()
}

/// The field names and values of a list of headers.
pub open spec fn header_lines(headers: Seq<Header>) -> Seq<(Seq<char>, Seq<char>)> {
    Seq::new(headers.len(), |i: int| header_text(headers[i]))
}

} // verus!
