//! What the agent shows of each request: method, path and status as read from
//! the raw bytes, cut to the width of a terminal line.

use std::time::Instant;
use vstd::prelude::*;
use vstd::slice::*;
use vstd::string::StringExecFns;
use vstd::utf8::{decode_utf8, encode_utf8, is_char_boundary, valid_utf8};
use crate::bytes::{nth_token, parse_bounded, parse_u64, token};
use crate::clock::{instant_now, millis_or_max, millis_since};
use crate::encoding::utf8_text;
use crate::request::text_of;

verus! {

/// The method and the path of a request.
#[derive(Debug, Clone)]
pub struct HttpRequestInfo {
    pub method: String,
    pub path: String,
}

/// The status of a response.
#[derive(Debug, Clone)]
pub struct HttpResponseInfo {
    pub status_code: u16,
}

/// The colours of the terminal.
#[derive(Clone, Copy, Debug, PartialEq, Eq, Structural)]
pub enum Colour {
    Green,
    Yellow,
    Cyan,
    Red,
    White,
    Magenta,
}

/// Index of the first carriage return or line feed of `s`, or its length.
pub open spec fn line_break(s: Seq<u8>, from: int) -> int
    decreases s.len() - from,
{
    if from < 0 || from >= s.len() {
        s.len() as int
    } else if s[from] == 13 || s[from] == 10 {
        from
    } else {
        line_break(s, from + 1)
    }
}

fn find_line_break(s: &[u8]) -> (r: usize)
    ensures
        r == line_break(s@, 0),
        r <= s.len(),
{
    let mut i: usize = 0;
    while i < s.len() && s[i] != 13 && s[i] != 10
        invariant
            i <= s.len(),
            line_break(s@, 0) == line_break(s@, i as int),
        decreases s.len() - i,
    {
        i += 1;
    }
    i
}

/// The first line of a request for display: up to its first line break; all of
/// the request where it has none and is at most 500 bytes long.
pub open spec fn shown_line(request: Seq<u8>) -> Option<Seq<u8>> {
    let e = line_break(request, 0);
    if e < request.len() {
        Some(request.subrange(0, e))
    } else if request.len() > 500 {
        None
    } else {
        Some(request)
    }
}

/// The first two words of a line as texts, where the line is valid UTF-8 and has
/// them.
pub open spec fn two_words(line: Seq<u8>) -> Option<(Seq<char>, Seq<char>)> {
    if !valid_utf8(line) {
        None
    } else {
        match (token(line, 0), token(line, 1)) {
            (Some(a), Some(b)) => match (text_of(a), text_of(b)) {
                (Some(x), Some(y)) => Some((x, y)),
                _ => None,
            },
            _ => None,
        }
    }
}

/// The method and the path that are shown for a request: the first two words of
/// its first line; `???` and `/` where they cannot be read.
pub open spec fn request_info(request: Seq<u8>) -> (Seq<char>, Seq<char>) {
    match shown_line(request) {
        Some(line) => match two_words(line) {
            Some(words) => words,
            None => ("???"@, "/"@),
        },
        None => ("???"@, "/"@),
    }
}

fn read_two_words(line: &[u8]) -> (r: Option<(String, String)>)
    ensures
        match r {
            Some(w) => two_words(line@) == Some((w.0@, w.1@)),
            None => two_words(line@) is None,
        },
{
    if utf8_text(line).is_none() {
        return None;
    }
    match (nth_token(line, 0), nth_token(line, 1)) {
        (Some(a), Some(b)) => match (utf8_text(a), utf8_text(b)) {
            (Some(x), Some(y)) => Some((x, y)),
            _ => None,
        },
        _ => None,
    }
}

/// Reads the method and the path of a request for display.
pub fn parse_request_info(request: &[u8]) -> (r: HttpRequestInfo)
    ensures
        (r.method@, r.path@) == request_info(request@),
{
    let e: usize = find_line_break(request);
    let line: Option<&[u8]> = if e < request.len() {
        Some(slice_subrange(request, 0, e))
    } else if request.len() > 500 {
        None
    } else {
        assert(request@.subrange(0, request@.len() as int) =~= request@);
        Some(slice_subrange(request, 0, request.len()))
    };
    let words = match line {
        Some(l) => read_two_words(l),
        None => None,
    };
    match words {
        Some((method, path)) => HttpRequestInfo { method, path },
        None => HttpRequestInfo { method: String::from_str("???"), path: String::from_str("/") },
    }
}

/// The status that is shown for a response: the number that is the second word
/// of its first line, where the response has a line break, the line is valid
/// UTF-8 and the number fits 16 bits.
pub open spec fn response_info(response: Seq<u8>) -> Option<u16> {
    let e = line_break(response, 0);
    if e >= response.len() || !valid_utf8(response.subrange(0, e)) {
        None
    } else {
        match token(response.subrange(0, e), 1) {
            Some(t) => match parse_bounded(t, 65535) {
                Some(n) => Some(n as u16),
                None => None,
            },
            None => None,
        }
    }
}

/// Reads the status of a response for display.
pub fn parse_response_info(response: &[u8]) -> (r: Option<HttpResponseInfo>)
    ensures
        match r {
            Some(info) => response_info(response@) == Some(info.status_code),
            None => response_info(response@) is None,
        },
{
    let e: usize = find_line_break(response);
    if e >= response.len() {
        return None;
    }
    let line = slice_subrange(response, 0, e);
    if utf8_text(line).is_none() {
        return None;
    }
    match nth_token(line, 1) {
        Some(t) => match parse_u64(t) {
            Some(n) => if n <= 65535 {
                Some(HttpResponseInfo { status_code: n as u16 })
            } else {
                None
            },
            None => None,
        },
        None => None,
    }
}

/// The largest character boundary of `bytes` that is at most `k`.
pub open spec fn boundary_below(bytes: Seq<u8>, k: int) -> int
    decreases k,
{
    if k <= 0 {
        0
    } else if is_char_boundary(bytes, k) {
        k
    } else {
        boundary_below(bytes, k - 1)
    }
}

/// `text` cut to at most `max_len` bytes of UTF-8: a text that is longer keeps
/// its beginning up to the last character boundary at or before `max_len - 3`
/// and ends in three dots.
pub open spec fn shortened(text: Seq<char>, max_len: int) -> Seq<char> {
    let bytes = encode_utf8(text);
    if bytes.len() <= max_len {
        text
    } else {
        let keep = if max_len >= 3 {
            max_len - 3
        } else {
            0
        };
        decode_utf8(bytes.subrange(0, boundary_below(bytes, keep))) + "..."@
    }
}

/// Cuts a text to `max_len` bytes without splitting a character.
pub fn truncate_string(s: &str, max_len: usize) -> (r: String)
    ensures
        r@ == shortened(s@, max_len as int),
{
    broadcast use {vstd::utf8::encode_utf8_decode_utf8, vstd::utf8::encode_utf8_valid_utf8};

    if s.as_bytes().len() <= max_len {
        return s.to_string();
    }
    let keep: usize = if max_len >= 3 {
        max_len - 3
    } else {
        0
    };
    let mut end: usize = keep;
    while end > 0 && !s.is_char_boundary(end)
        invariant
            end <= keep,
            boundary_below(encode_utf8(s@), keep as int) == boundary_below(
                encode_utf8(s@),
                end as int,
            ),
        decreases end,
    {
        end -= 1;
    }
    assert(valid_utf8(encode_utf8(s@)));
    assert(is_char_boundary(encode_utf8(s@), end as int));
    let (head, _) = s.split_at(end);
    assert(head@ == decode_utf8(encode_utf8(head@)));
    let mut r = String::from_str(head);
    r.append("...");
    r
}

/// The colour in which a status is shown.
pub open spec fn colour_of_status(code: u16) -> Colour {
    if 200 <= code <= 299 {
        Colour::Green
    } else if 300 <= code <= 399 {
        Colour::Cyan
    } else if 400 <= code <= 499 {
        Colour::Yellow
    } else if 500 <= code <= 599 {
        Colour::Red
    } else {
        Colour::White
    }
}

/// The colour in which a status is shown.
pub fn status_colour(code: u16) -> (r: Colour)
    ensures
        r == colour_of_status(code),
{
    if 200 <= code && code <= 299 {
        Colour::Green
    } else if 300 <= code && code <= 399 {
        Colour::Cyan
    } else if 400 <= code && code <= 499 {
        Colour::Yellow
    } else if 500 <= code && code <= 599 {
        Colour::Red
    } else {
        Colour::White
    }
}

/// The colour in which a method is shown.
pub open spec fn colour_of_method(method: Seq<char>) -> Colour {
    if method == "GET"@ {
        Colour::Green
    } else if method == "POST"@ {
        Colour::Yellow
    } else if method == "PUT"@ {
        Colour::Cyan
    } else if method == "DELETE"@ {
        Colour::Red
    } else if method == "PATCH"@ {
        Colour::Magenta
    } else {
        Colour::White
    }
}

/// The colour in which a method is shown.
pub fn method_colour(method: &str) -> (r: Colour)
    ensures
        r == colour_of_method(method@),
{
    if crate::protocol::same_text(method, "GET") {
        Colour::Green
    } else if crate::protocol::same_text(method, "POST") {
        Colour::Yellow
    } else if crate::protocol::same_text(method, "PUT") {
        Colour::Cyan
    } else if crate::protocol::same_text(method, "DELETE") {
        Colour::Red
    } else if crate::protocol::same_text(method, "PATCH") {
        Colour::Magenta
    } else {
        Colour::White
    }
}

/// What the agent's terminal shows of a tunnel.
pub struct Display {
    tunnel_url: String,
    local_port: u16,
    start_time: Instant,
    request_count: u64,
}

impl Display {
    /// The public URL of the tunnel.
    pub closed spec fn url(&self) -> Seq<char> {
        self.tunnel_url@
    }

    /// The local port that the tunnel leads to.
    pub closed spec fn port(&self) -> u16 {
        self.local_port
    }

    /// The number of requests shown so far.
    pub closed spec fn requests(&self) -> u64 {
        self.request_count
    }

    /// A display for the tunnel at `tunnel_url`, which has shown no request yet.
    pub fn new(tunnel_url: String, local_port: u16) -> (r: Self)
        ensures
            r.url() == tunnel_url@,
            r.port() == local_port,
            r.requests() == 0,
    {
        Display { tunnel_url, local_port, start_time: instant_now(), request_count: 0 }
    }

    /// The public URL of the tunnel.
    pub fn tunnel_url(&self) -> (r: &str)
        ensures
            r@ == self.url(),
    {
        self.tunnel_url.as_str()
    }

    /// The local port that the tunnel leads to.
    pub fn local_port(&self) -> (r: u16)
        ensures
            r == self.port(),
    {
        self.local_port
    }

    /// The number of requests shown so far.
    pub fn request_count(&self) -> (r: u64)
        ensures
            r == self.requests(),
    {
        self.request_count
    }

    /// Counts one more request; the count stops at the largest number.
    pub fn count_request(&mut self)
        ensures
            final(self).requests() == if old(self).requests() == u64::MAX {
                u64::MAX
            } else {
                (old(self).requests() + 1) as u64
            },
            final(self).url() == old(self).url(),
            final(self).port() == old(self).port(),
    {
        if self.request_count < u64::MAX {
            self.request_count = self.request_count + 1;
        }
    }

    /// Milliseconds since the display was made, by the machine's clock; the
    /// largest number where the count does not fit.
    pub fn uptime_ms(&self) -> (r: u64) {
        millis_or_max(millis_since(&self.start_time))
    }
}

} // verus!
