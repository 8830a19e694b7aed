//! What the asset server answers: from a request to a route, and from a
//! route to the status and headers of the reply. Reading the socket and the
//! file system is left to the caller.

use vstd::prelude::*;
use vstd::slice::slice_subrange;
use tiny_http::Header;
use tiny_http::Method;
use crate::http::{classify_method, header_lines, header_text, make_header, method_kind, HttpMethod};
use crate::mime::{
    content_type, content_type_for, detect_encoding, encoding_of, has_extension,
    lemma_content_type_is_ascii, media_name, strip_trailing, ContentEncoding,
};
use crate::paths::{
    has_parent_segment, is_parent, lemma_joined_path_stays_below_root,
    lemma_parent_directory_refused, lemma_single_segment, push_name, push_segment, safe_join,
    safe_join_spec, segments,
};
use crate::percent::{decoded_text, percent_decode_path};
use crate::text::{
    chars_of, ends_with, leading_span, lemma_span_bounds, lowercase, same_chars, span, string_of,
};

verus! {

/// How long the worker waits for a request before it looks at its shutdown
/// flag again, in milliseconds.
pub const POLL_TIMEOUT_MILLIS: u64 = 200;

/// The part of a request URL that names the resource: what stands before
/// the first `?`.
pub open spec fn path_part(url: Seq<char>) -> Seq<char> {
    url.take(span(url, '?', false) as int)
}

/// The path, relative to the served directory, that a decoded request path
/// asks for: the entry file for an empty path and for `/`, and otherwise the
/// path without its leading slashes.
pub open spec fn relative_path(decoded: Seq<char>) -> Seq<char> {
    if decoded.len() == 0 || decoded == seq!['/'] {
        "index.html"@
    } else {
        decoded.skip(span(decoded, '/', true) as int)
    }
}

/// What the server does with a request.
#[derive(Clone, Debug, PartialEq, Eq)]
pub enum Route {
    /// The method is neither `GET` nor `HEAD`.
    MethodNotAllowed,
    /// The page asks the server to stop.
    Shutdown,
    /// The path tries to leave the served directory.
    BadRequest,
    /// The request names this path of the file system.
    File(String),
}

/// A route, with its path as a sequence of characters.
pub enum RouteView {
    MethodNotAllowed,
    Shutdown,
    BadRequest,
    File(Seq<char>),
}

impl View for Route {
    type V = RouteView;

    open spec fn view(&self) -> RouteView {
        match self {
            Route::MethodNotAllowed => RouteView::MethodNotAllowed,
            Route::Shutdown => RouteView::Shutdown,
            Route::BadRequest => RouteView::BadRequest,
            Route::File(path) => RouteView::File(path@),
        }
    }
}

/// The route of a request with the given method and decoded path, served
/// from the directory `root`.
pub open spec fn route_of(method: HttpMethod, decoded: Seq<char>, root: Seq<char>) -> RouteView {
    if !method.is_read() {
        RouteView::MethodNotAllowed
    } else if relative_path(decoded) == "__exit"@ {
        RouteView::Shutdown
    } else {
        match safe_join_spec(root, relative_path(decoded)) {
            None => RouteView::BadRequest,
            Some(path) => RouteView::File(path),
        }
    }
}

/// Cuts the query string off a request URL.
pub fn url_path(url: &str) -> (path: String)
    ensures
        path@ == path_part(url@),
{
    let chars = chars_of(url);
    let end = leading_span(chars.as_slice(), '?', false);
    string_of(slice_subrange(chars.as_slice(), 0, end))
}

/// Turns a decoded request path into a path relative to the served
/// directory.
pub fn relative_request_path(decoded: &str) -> (rel: String)
    ensures
        rel@ == relative_path(decoded@),
{
    let chars = chars_of(decoded);
    if chars.len() == 0 || (chars.len() == 1 && chars[0] == '/') {
        assert(chars.len() == 1 && chars[0] == '/' ==> chars@ == seq!['/']);
        return "index.html".to_owned();
    }
    assert(seq!['/'].len() == 1);
    assert(chars@ != seq!['/']);
    let start = leading_span(chars.as_slice(), '/', true);
    string_of(slice_subrange(chars.as_slice(), start, chars.len()))
}

/// Routes a request whose path has been decoded already.
pub fn route(method: HttpMethod, decoded: &str, root: &str) -> (r: Route)
    ensures
        r@ == route_of(method, decoded@, root@),
{
    if !method.reads() {
        return Route::MethodNotAllowed;
    }
    let rel = relative_request_path(decoded);
    let rel_chars = chars_of(rel.as_str());
    let exit = chars_of("__exit");
    if same_chars(rel_chars.as_slice(), exit.as_slice()) {
        return Route::Shutdown;
    }
    match safe_join(root, rel.as_str()) {
        None => Route::BadRequest,
        Some(path) => Route::File(path),
    }
}

/// Routes a request as it comes from the socket: cuts the query off the
/// URL, decodes the path, and routes what is left.
pub fn route_request(method: &Method, url: &str, root: &str) -> (r: Route)
    ensures
        r@ == route_of(method_kind(*method), decoded_text(path_part(url@)), root@),
{
    let kind = classify_method(method);
    let path = url_path(url);
    let decoded = percent_decode_path(path.as_str());
    route(kind, decoded.as_str(), root)
}

/// The name of the file served for a directory.
pub open spec fn entry_file() -> Seq<char> {
    "index.html"@
}

/// The file to open for `path`: the entry file below it where `path` is a
/// directory, and `path` itself where it is not.
pub open spec fn file_target(path: Seq<char>, is_directory: bool) -> Seq<char> {
    if is_directory {
        push_segment(path, entry_file())
    } else {
        path
    }
}

/// Picks the file to open for a routed path, given whether the path is a
/// directory.
pub fn served_path(path: &str, is_directory: bool) -> (target: String)
    ensures
        target@ == file_target(path@, is_directory),
{
    let mut out = chars_of(path);
    if is_directory {
        let entry = chars_of("index.html");
        push_name(&mut out, entry.as_slice());
    }
    string_of(out.as_slice())
}

/// The header that every reply carries: served files may change from one
/// run to the next, so nothing is to be cached.
pub open spec fn cache_line() -> (Seq<char>, Seq<char>) {
    ("Cache-Control"@, "no-cache"@)
}

/// The headers that describe the file `path`: its media type, unless the
/// name left after the compression suffix is empty; its compression, if any;
/// and the cache rule.
pub open spec fn asset_header_lines(path: Seq<char>) -> Seq<(Seq<char>, Seq<char>)> {
    let media = if media_name(path).len() > 0 {
        seq![("Content-Type"@, content_type(media_name(path)))]
    } else {
        seq![]
    };
    let encoding = if encoding_of(path) != ContentEncoding::Identity {
        seq![("Content-Encoding"@, encoding_of(path).token())]
    } else {
        seq![]
    };
    media + encoding + seq![cache_line()]
}

/// Builds the headers that describe the file `path`.
pub fn asset_headers(path: &str) -> (headers: Vec<Header>)
    ensures
        header_lines(headers@) == asset_header_lines(path@),
{
    let (encoding, media) = detect_encoding(path);
    let mut headers: Vec<Header> = Vec::new();
    proof {
        reveal_strlit("Content-Type");
        reveal_strlit("Content-Encoding");
        reveal_strlit("Cache-Control");
        reveal_strlit("no-cache");
        reveal_strlit("gzip");
        reveal_strlit("br");
        reveal_strlit("");
        lemma_content_type_is_ascii(media@);
    }
    if !media.as_str().is_empty() {
        let mime = content_type_for(media.as_str());
        headers.push(make_header("Content-Type", mime).unwrap());
    }
    match encoding {
        ContentEncoding::Identity => {},
        _ => {
            headers.push(make_header("Content-Encoding", encoding.name()).unwrap());
        },
    }
    headers.push(make_header("Cache-Control", "no-cache").unwrap());
    assert(header_lines(headers@) =~= asset_header_lines(path@));
    headers
}

/// A reply: its status code, its headers, and whether the server is to stop
/// once the reply is sent.
pub struct Reply {
    pub status: u16,
    pub headers: Vec<Header>,
    pub shutdown: bool,
}

/// A reply, with the text of its headers.
pub struct ReplyView {
    pub status: u16,
    pub headers: Seq<(Seq<char>, Seq<char>)>,
    pub shutdown: bool,
}

impl View for Reply {
    type V = ReplyView;

    open spec fn view(&self) -> ReplyView {
        ReplyView {
            status: self.status,
            headers: header_lines(self.headers@),
            shutdown: self.shutdown,
        }
    }
}

/// The reply to a request that is answered without opening a file, or
/// `None` for a route that names one.
pub open spec fn direct_reply(route: RouteView) -> Option<ReplyView> {
    match route {
        RouteView::MethodNotAllowed => Some(
            ReplyView {
                status: 405,
                headers: seq![("Content-Type"@, "text/plain; charset=utf-8"@), cache_line()],
                shutdown: false,
            },
        ),
        RouteView::Shutdown => Some(
            ReplyView { status: 204, headers: seq![cache_line()], shutdown: true },
        ),
        RouteView::BadRequest => Some(
            ReplyView { status: 400, headers: seq![cache_line()], shutdown: false },
        ),
        RouteView::File(_) => None,
    }
}

/// The reply for the file `path`: the file with its headers where it could
/// be opened, and "not found" where it could not.
pub open spec fn file_reply_of(path: Seq<char>, found: bool) -> ReplyView {
    if found {
        ReplyView { status: 200, headers: asset_header_lines(path), shutdown: false }
    } else {
        ReplyView { status: 404, headers: seq![cache_line()], shutdown: false }
    }
}

fn cache_header() -> (h: Header)
    ensures
        header_text(h) == cache_line(),
{
    proof {
        reveal_strlit("Cache-Control");
        reveal_strlit("no-cache");
    }
    make_header("Cache-Control", "no-cache").unwrap()
}

impl Route {
    /// The reply to send at once, for every route but that of a file.
    pub fn reply(&self) -> (r: Option<Reply>)
        ensures
            r.is_some() == direct_reply(self@).is_some(),
            r matches Some(reply) ==> direct_reply(self@) == Some(reply@),
    {
        let mut headers: Vec<Header> = Vec::new();
        match self {
            Route::MethodNotAllowed => {
                proof {
                    reveal_strlit("Content-Type");
                    reveal_strlit("text/plain; charset=utf-8");
                }
                headers.push(make_header("Content-Type", "text/plain; charset=utf-8").unwrap());
                headers.push(cache_header());
                let reply = Reply { status: 405, headers, shutdown: false };
                assert(reply@.headers =~= direct_reply(self@)->0.headers);
                Some(reply)
            },
            Route::Shutdown => {
                headers.push(cache_header());
                let reply = Reply { status: 204, headers, shutdown: true };
                assert(reply@.headers =~= direct_reply(self@)->0.headers);
                Some(reply)
            },
            Route::BadRequest => {
                headers.push(cache_header());
                let reply = Reply { status: 400, headers, shutdown: false };
                assert(reply@.headers =~= direct_reply(self@)->0.headers);
                Some(reply)
            },
            Route::File(_) => None,
        }
    }
}

/// The reply for the file `path`, given whether it could be opened.
pub fn file_reply(path: &str, found: bool) -> (reply: Reply)
    ensures
        reply@ == file_reply_of(path@, found),
{
    if found {
        Reply { status: 200, headers: asset_headers(path), shutdown: false }
    } else {
        let mut headers: Vec<Header> = Vec::new();
        headers.push(cache_header());
        let reply = Reply { status: 404, headers, shutdown: false };
        assert(reply@.headers =~= file_reply_of(path@, found).headers);
        reply
    }
}

/// A request that does not read is answered with 405, whatever it asks for.
pub proof fn lemma_other_methods_are_refused(method: HttpMethod, decoded: Seq<char>, root: Seq<char>)
    requires
        !method.is_read(),
    ensures
        route_of(method, decoded, root) == RouteView::MethodNotAllowed,
        direct_reply(route_of(method, decoded, root)) is Some,
        direct_reply(route_of(method, decoded, root))->0.status == 405,
        !direct_reply(route_of(method, decoded, root))->0.shutdown,
{
}

/// A read of the exit path is answered with 204, and the server stops once
/// the answer is sent.
pub proof fn lemma_exit_request_stops_the_server(
    method: HttpMethod,
    decoded: Seq<char>,
    root: Seq<char>,
)
    requires
        method.is_read(),
        relative_path(decoded) == "__exit"@,
    ensures
        route_of(method, decoded, root) == RouteView::Shutdown,
        direct_reply(route_of(method, decoded, root)) is Some,
        direct_reply(route_of(method, decoded, root))->0.status == 204,
        direct_reply(route_of(method, decoded, root))->0.shutdown,
{
}

/// Only the exit path stops the server: every other reply leaves it running.
pub proof fn lemma_only_exit_stops_the_server(route: RouteView, path: Seq<char>, found: bool)
    ensures
        direct_reply(route) matches Some(reply) ==> reply.shutdown == (route
            == RouteView::Shutdown),
        !file_reply_of(path, found).shutdown,
{
}

/// A request is never routed to a file outside the served directory: the
/// path of a file route starts with the root, and what follows the root in
/// it never steps up.
pub proof fn lemma_file_route_stays_below_root(
    method: HttpMethod,
    decoded: Seq<char>,
    root: Seq<char>,
)
    ensures
        route_of(method, decoded, root) matches RouteView::File(path) ==> root.len() <= path.len()
            && path.take(root.len() as int) == root && !has_parent_segment(
            path.skip(root.len() as int),
        ),
{
    if route_of(method, decoded, root) is File {
        lemma_joined_path_stays_below_root(root, relative_path(decoded));
    }
}

/// A decoded path with a `..` segment is answered with 400, wherever the
/// segment stands.
pub proof fn lemma_traversal_is_a_bad_request(
    method: HttpMethod,
    before: Seq<char>,
    after: Seq<char>,
    root: Seq<char>,
)
    requires
        method.is_read(),
        before.len() == 0 || before.last() == '/',
        after.len() == 0 || after[0] == '/',
    ensures
        route_of(method, before + seq!['.', '.'] + after, root) == RouteView::BadRequest,
{
    let up = seq!['.', '.'];
    let decoded = before + up + after;
    let n = span(decoded, '/', true) as int;
    reveal_strlit("__exit");
    reveal_strlit("index.html");
    assert(decoded != seq!['/']) by {
        assert(decoded.len() >= 2);
        assert(seq!['/'].len() == 1);
    }
    lemma_span_bounds(decoded, '/', true);
    // the leading slashes all lie in `before`: the first `.` ends the run
    assert(n <= before.len()) by {
        if n > before.len() {
            assert(decoded[before.len() as int] == '.');
        }
    }
    let rel = decoded.skip(n);
    assert(rel =~= before.skip(n) + up + after);
    if n == before.len() {
        assert(before.skip(n) =~= Seq::<char>::empty());
    } else {
        assert(before.skip(n).last() == before.last());
    }
    lemma_parent_directory_refused(root, before.skip(n), after);
    assert(rel != "__exit"@) by {
        if rel == "__exit"@ {
            lemma_single_segment("__exit"@);
            assert(has_parent_segment(rel));
            let i = choose|i: int| 0 <= i < segments(rel).len() && is_parent(#[trigger] segments(rel)[i]);
            assert(segments(rel)[i] == "__exit"@);
            assert("__exit"@.len() == 6);
            assert(seq!['.', '.'].len() == 2);
        }
    }
}

/// A WebAssembly module stored under Brotli is announced as both: whatever
/// stands before `.wasm.br` in its name, the file is served as
/// `application/wasm` with the encoding `br`.
pub proof fn lemma_compressed_wasm_headers(stem: Seq<char>)
    ensures
        asset_header_lines(stem + ".wasm.br"@) == seq![
            ("Content-Type"@, "application/wasm"@),
            ("Content-Encoding"@, "br"@),
            cache_line(),
        ],
{
    reveal_strlit(".wasm.br");
    reveal_strlit(".wasm");
    reveal_strlit(".br");
    reveal_strlit(".gz");
    reveal_strlit("br");
    let path = stem + ".wasm.br"@;
    let n = path.len() as int;
    let media = stem + ".wasm"@;
    assert(path.skip(n - 3) =~= ".br"@);
    assert(path.skip(n - 3)[1] == 'b');
    assert(!ends_with(path, ".gz"@));
    assert(encoding_of(path) == ContentEncoding::Brotli);
    assert(path.take(n - 3) =~= media);
    assert(!ends_with(media, ".br"@)) by {
        assert(media.skip(media.len() - 3)[1] == 's');
    }
    assert(media_name(path) == media) by {
        reveal_with_fuel(strip_trailing, 2);
    }
    assert(lowercase(media).skip(media.len() - 5) =~= ".wasm"@);
    assert(has_extension(media, ".wasm"@));
}

} // verus!
