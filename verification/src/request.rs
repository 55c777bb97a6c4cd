//! Reading the head of a browser's request: method, path, host, announced body
//! length, and whether it asks for a WebSocket.

use vstd::prelude::*;
use vstd::slice::*;
use vstd::utf8::{decode_utf8, valid_utf8};
use crate::bytes::{
    ascii_bytes, contains, copy_bytes, find_byte, has_prefix, index_of, lines, lit, lower,
    parse_bounded, parse_u64, split_lines, to_lower, views,
};
use crate::encoding::utf8_text;
use crate::http::{find_headers_end, headers_end, line_contains, line_has_prefix};

verus! {

/// One header of a request.
#[derive(Debug, Clone)]
pub struct Header {
    pub name: Vec<u8>,
    pub value: Vec<u8>,
}

/// A `Header` as mathematical values.
pub struct HeaderView {
    pub name: Seq<u8>,
    pub value: Seq<u8>,
}

impl View for Header {
    type V = HeaderView;

    open spec fn view(&self) -> HeaderView {
        HeaderView { name: self.name@, value: self.value@ }
    }
}

/// The views of a list of headers.
pub open spec fn header_views(hs: Seq<Header>) -> Seq<HeaderView> {
    Seq::new(hs.len(), |i: int| hs[i]@)
}

/// The head of a request as the parser gives it.
pub struct RequestHead {
    pub method: Vec<u8>,
    pub path: Vec<u8>,
    pub headers: Vec<Header>,
}

/// What the parser makes of the beginning of a request.
pub enum ParsedHead {
    /// The head is there, and it is well formed.
    Complete(RequestHead),
    /// More bytes are needed.
    Partial,
    /// The bytes are no HTTP request, or the request has more than 64 headers.
    Malformed,
}

/// A `ParsedHead` as mathematical values.
pub enum ParsedHeadView {
    Complete { method: Seq<u8>, path: Seq<u8>, headers: Seq<HeaderView> },
    Partial,
    Malformed,
}

impl View for ParsedHead {
    type V = ParsedHeadView;

    open spec fn view(&self) -> ParsedHeadView {
        match self {
            ParsedHead::Complete(h) => ParsedHeadView::Complete {
                method: h.method@,
                path: h.path@,
                headers: header_views(h.headers@),
            },
            ParsedHead::Partial => ParsedHeadView::Partial,
            ParsedHead::Malformed => ParsedHeadView::Malformed,
        }
    }
}

/// What `httparse` makes of `buf` as the beginning of a request.
pub uninterp spec fn httparse_outcome(buf: Seq<u8>) -> ParsedHeadView;

/// `httparse::Request::parse` with room for 64 headers: on `Complete`, the
/// method, the path and the headers that it found; `Partial` and the errors as
/// they are.
#[verifier::external_body]
pub(crate) fn httparse_request(buf: &[u8]) -> (r: ParsedHead)
    ensures
        r@ == httparse_outcome(buf@),
{
    let mut headers = [httparse::EMPTY_HEADER; 64];
    let mut req = httparse::Request::new(&mut headers);
    match req.parse(buf) {
        Ok(httparse::Status::Complete(_)) => ParsedHead::Complete(RequestHead {
            method: req.method.unwrap_or_default().as_bytes().to_vec(),
            path: req.path.unwrap_or_default().as_bytes().to_vec(),
            headers: req
                .headers
                .iter()
                .map(|h| Header { name: h.name.as_bytes().to_vec(), value: h.value.to_vec() })
                .collect(),
        }),
        Ok(httparse::Status::Partial) => ParsedHead::Partial,
        Err(_) => ParsedHead::Malformed,
    }
}

/// The value of the first header from `i` on whose name, with ASCII case folded,
/// is `name`.
pub open spec fn header_value(hs: Seq<HeaderView>, name: Seq<u8>, i: int) -> Option<Seq<u8>>
    decreases hs.len() - i,
{
    if i < 0 || i >= hs.len() {
        None
    } else if lower(hs[i].name) == name {
        Some(hs[i].value)
    } else {
        header_value(hs, name, i + 1)
    }
}

/// Finds the first header with the given lower-case name.
pub fn find_header<'a>(hs: &'a Vec<Header>, name: &[u8]) -> (r: Option<&'a Vec<u8>>)
    ensures
        match r {
            Some(v) => header_value(header_views(hs@), name@, 0) == Some(v@),
            None => header_value(header_views(hs@), name@, 0) is None,
        },
{
    let mut i: usize = 0;
    while i < hs.len()
        invariant
            i <= hs.len(),
            header_value(header_views(hs@), name@, 0) == header_value(
                header_views(hs@),
                name@,
                i as int,
            ),
        decreases hs.len() - i,
    {
        assert(header_views(hs@)[i as int] == hs@[i as int]@);
        let low = to_lower(hs[i].name.as_slice());
        if crate::bytes::same_bytes(low.as_slice(), name) {
            return Some(&hs[i].value);
        }
        i += 1;
    }
    None
}

/// The text of `bytes`, where they are valid UTF-8.
pub open spec fn text_of(bytes: Seq<u8>) -> Option<Seq<char>> {
    if valid_utf8(bytes) {
        Some(decode_utf8(bytes))
    } else {
        None
    }
}

/// The part of `s` before the first byte `b`; all of `s` where it has none.
pub open spec fn before(s: Seq<u8>, b: u8) -> Seq<u8> {
    s.subrange(0, index_of(s, b, 0))
}

/// The part of `s` after the first byte `b`, where it has one.
pub open spec fn after(s: Seq<u8>, b: u8) -> Option<Seq<u8>> {
    let i = index_of(s, b, 0);
    if i < s.len() {
        Some(s.subrange(i + 1, s.len() as int))
    } else {
        None
    }
}

/// The part of `s` before the first byte `b`.
pub fn part_before(s: &[u8], b: u8) -> (r: &[u8])
    ensures
        r@ == before(s@, b),
{
    let i: usize = find_byte(s, b, 0);
    slice_subrange(s, 0, i)
}

/// The part of `s` after the first byte `b`.
pub fn part_after(s: &[u8], b: u8) -> (r: Option<&[u8]>)
    ensures
        match r {
            Some(t) => after(s@, b) == Some(t@),
            None => after(s@, b) is None,
        },
{
    let i: usize = find_byte(s, b, 0);
    if i < s.len() {
        Some(slice_subrange(s, i + 1, s.len()))
    } else {
        None
    }
}

/// The host that a request is for: the value of its first `Host` header up to
/// the port, where that is valid UTF-8.
pub open spec fn requested_host(hs: Seq<HeaderView>) -> Option<Seq<char>> {
    match header_value(hs, ascii_bytes("host"@), 0) {
        Some(v) => text_of(before(v, 58)),
        None => None,
    }
}

/// The length of the body that a request announces: the number in its first
/// `Content-Length` header, where it has one that holds a number.
pub open spec fn announced_length(hs: Seq<HeaderView>) -> Option<nat> {
    match header_value(hs, ascii_bytes("content-length"@), 0) {
        Some(v) => parse_bounded(v, u64::MAX as nat),
        None => None,
    }
}

/// Some line from `i` on has the name `name` and holds `word`, ASCII case folded.
pub open spec fn any_line_with(ls: Seq<Seq<u8>>, name: Seq<u8>, word: Seq<u8>, i: int) -> bool
    decreases ls.len() - i,
{
    if i < 0 || i >= ls.len() {
        false
    } else {
        (has_prefix(lower(ls[i]), name) && contains(lower(ls[i]), word)) || any_line_with(
            ls,
            name,
            word,
            i + 1,
        )
    }
}

/// Some line from `i` on has the name `name`, ASCII case folded.
pub open spec fn any_line_named(ls: Seq<Seq<u8>>, name: Seq<u8>, i: int) -> bool
    decreases ls.len() - i,
{
    if i < 0 || i >= ls.len() {
        false
    } else {
        has_prefix(lower(ls[i]), name) || any_line_named(ls, name, i + 1)
    }
}

/// Whether a head asks for a WebSocket: it has an `Upgrade` line that names
/// `websocket`, a `Connection` line that names `upgrade`, and a
/// `Sec-WebSocket-Key` line, in any case.
pub open spec fn asks_for_websocket(head: Seq<u8>) -> bool {
    let ls = lines(head);
    &&& any_line_with(ls, ascii_bytes("upgrade:"@), ascii_bytes("websocket"@), 0)
    &&& any_line_with(ls, ascii_bytes("connection:"@), ascii_bytes("upgrade"@), 0)
    &&& any_line_named(ls, ascii_bytes("sec-websocket-key:"@), 0)
}

fn some_line_with(ls: &Vec<Vec<u8>>, name: &[u8], word: &[u8]) -> (r: bool)
    ensures
        r == any_line_with(views(ls@), name@, word@, 0),
{
    let mut i: usize = 0;
    while i < ls.len()
        invariant
            i <= ls.len(),
            any_line_with(views(ls@), name@, word@, 0) == any_line_with(
                views(ls@),
                name@,
                word@,
                i as int,
            ),
        decreases ls.len() - i,
    {
        let line = ls[i].as_slice();
        assert(views(ls@)[i as int] == line@);
        if line_has_prefix(line, name) && line_contains(line, word) {
            return true;
        }
        i += 1;
    }
    false
}

fn some_line_named(ls: &Vec<Vec<u8>>, name: &[u8]) -> (r: bool)
    ensures
        r == any_line_named(views(ls@), name@, 0),
{
    let mut i: usize = 0;
    while i < ls.len()
        invariant
            i <= ls.len(),
            any_line_named(views(ls@), name@, 0) == any_line_named(views(ls@), name@, i as int),
        decreases ls.len() - i,
    {
        let line = ls[i].as_slice();
        assert(views(ls@)[i as int] == line@);
        if line_has_prefix(line, name) {
            return true;
        }
        i += 1;
    }
    false
}

/// Whether the head `headers_buf` asks for a WebSocket.
pub fn is_websocket_upgrade(headers_buf: &[u8]) -> (r: bool)
    ensures
        r == asks_for_websocket(headers_buf@),
{
    proof {
        reveal_strlit("upgrade:");
        reveal_strlit("websocket");
        reveal_strlit("connection:");
        reveal_strlit("upgrade");
        reveal_strlit("sec-websocket-key:");
    }
    let ls = split_lines(headers_buf);
    let has_upgrade = some_line_with(&ls, lit("upgrade:"), lit("websocket"));
    let has_connection = some_line_with(&ls, lit("connection:"), lit("upgrade"));
    let has_key = some_line_named(&ls, lit("sec-websocket-key:"));
    has_upgrade && has_connection && has_key
}

/// What the beginning of a request holds.
pub struct ParsedRequest {
    /// The method, such as `GET`.
    pub method: Vec<u8>,
    /// The request target up to its `?`.
    pub path: Vec<u8>,
    /// The request target after its `?`.
    pub query: Option<Vec<u8>>,
    /// The headers in their order.
    pub headers: Vec<Header>,
    /// The host without its port.
    pub host: Option<String>,
    /// The announced length of the body, if one is announced.
    pub content_length: Option<u64>,
    /// Whether the request asks for a WebSocket.
    pub is_upgrade: bool,
    /// The index of the empty line that ends the head.
    pub headers_end: usize,
}

/// What becomes of the beginning of a request.
pub enum RequestPrefix {
    /// The head has not ended, or the parser needs more.
    Incomplete,
    /// The bytes are no HTTP request.
    Malformed,
    /// The head is there.
    Parsed(ParsedRequest),
}

/// A `RequestPrefix` as mathematical values.
pub enum RequestPrefixView {
    Incomplete,
    Malformed,
    Parsed {
        method: Seq<u8>,
        path: Seq<u8>,
        query: Option<Seq<u8>>,
        headers: Seq<HeaderView>,
        host: Option<Seq<char>>,
        content_length: Option<nat>,
        is_upgrade: bool,
        headers_end: int,
    },
}

/// The bytes of an optional byte string.
pub open spec fn bytes_view(v: Option<Vec<u8>>) -> Option<Seq<u8>> {
    match v {
        Some(b) => Some(b@),
        None => None,
    }
}

impl View for RequestPrefix {
    type V = RequestPrefixView;

    open spec fn view(&self) -> RequestPrefixView {
        match self {
            RequestPrefix::Incomplete => RequestPrefixView::Incomplete,
            RequestPrefix::Malformed => RequestPrefixView::Malformed,
            RequestPrefix::Parsed(p) => RequestPrefixView::Parsed {
                method: p.method@,
                path: p.path@,
                query: bytes_view(p.query),
                headers: header_views(p.headers@),
                host: crate::encoding::text_view(p.host),
                content_length: match p.content_length {
                    Some(n) => Some(n as nat),
                    None => None,
                },
                is_upgrade: p.is_upgrade,
                headers_end: p.headers_end as int,
            },
        }
    }
}

/// What the beginning `buf` of a request holds: incomplete until the empty line
/// that ends the head is there; then what the parser makes of the head, with the
/// target split at its first `?`.
pub open spec fn request_prefix(buf: Seq<u8>) -> RequestPrefixView {
    match headers_end(buf) {
        None => RequestPrefixView::Incomplete,
        Some(he) => {
            let head = buf.subrange(0, he + 4);
            match httparse_outcome(head) {
                ParsedHeadView::Partial => RequestPrefixView::Incomplete,
                ParsedHeadView::Malformed => RequestPrefixView::Malformed,
                ParsedHeadView::Complete { method, path, headers } => RequestPrefixView::Parsed {
                    method,
                    path: before(path, 63),
                    query: after(path, 63),
                    headers,
                    host: requested_host(headers),
                    content_length: announced_length(headers),
                    is_upgrade: asks_for_websocket(head),
                    headers_end: he,
                },
            }
        },
    }
}

fn copy_optional(v: Option<&[u8]>) -> (r: Option<Vec<u8>>)
    ensures
        match (v, r) {
            (Some(a), Some(b)) => a@ == b@,
            (None, None) => true,
            _ => false,
        },
{
    match v {
        Some(a) => Some(copy_bytes(a)),
        None => None,
    }
}

/// Reads the beginning of a request.
pub fn parse_request_prefix(buf: &[u8]) -> (r: RequestPrefix)
    ensures
        r@ == request_prefix(buf@),
{
    let he: usize = match find_headers_end(buf) {
        Some(he) => he,
        None => {
            return RequestPrefix::Incomplete;
        },
    };
    let head = slice_subrange(buf, 0, he + 4);
    let parsed = match httparse_request(head) {
        ParsedHead::Complete(h) => h,
        ParsedHead::Partial => {
            return RequestPrefix::Incomplete;
        },
        ParsedHead::Malformed => {
            return RequestPrefix::Malformed;
        },
    };
    proof {
        reveal_strlit("host");
        reveal_strlit("content-length");
    }
    let host = match find_header(&parsed.headers, lit("host")) {
        Some(v) => utf8_text(part_before(v.as_slice(), 58)),
        None => None,
    };
    let content_length: Option<u64> = match find_header(&parsed.headers, lit("content-length")) {
        Some(v) => parse_u64(v.as_slice()),
        None => None,
    };
    let path = copy_bytes(part_before(parsed.path.as_slice(), 63));
    let query = copy_optional(part_after(parsed.path.as_slice(), 63));
    let is_upgrade = is_websocket_upgrade(head);
    RequestPrefix::Parsed(
        ParsedRequest {
            method: parsed.method,
            path,
            query,
            headers: parsed.headers,
            host,
            content_length,
            is_upgrade,
            headers_end: he,
        },
    )
}

} // verus!
