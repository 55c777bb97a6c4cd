//! Reading what the edge needs from a response of the agent: its status, its
//! headers, and the headers by which the agent reports that the local service
//! could not be reached.

use vstd::prelude::*;
use vstd::slice::*;
use crate::bytes::{
    after_colon, ascii_bytes, copy_bytes, first_line, has_prefix, line_at, lines, lit,
    lower, nth_token, parse_bounded, parse_u64, second_field, split_lines, text_after_colon,
    text_between_colons, token, trim, trim_slice, views,
};
use crate::encoding::utf8_text;
use crate::http::{find_headers_end, headers_end, line_has_prefix};
use crate::request::{before, header_views, part_before, text_of, Header, HeaderView};

verus! {

/// The status of a response: the number that is the second word of its first
/// line, 0 where there is none.
pub open spec fn response_status(response: Seq<u8>) -> u16 {
    match token(line_at(response, 0), 1) {
        Some(t) => match parse_bounded(t, 65535) {
            Some(n) => n as u16,
            None => 0,
        },
        None => 0,
    }
}

/// Reads the status of a response.
pub fn parse_response_status(response: &[u8]) -> (r: u16)
    ensures
        r == response_status(response@),
{
    match nth_token(first_line(response), 1) {
        Some(t) => match parse_u64(t) {
            Some(n) => if n <= 65535 {
                n as u16
            } else {
                0
            },
            None => 0,
        },
        None => 0,
    }
}

/// The header that a line holds: the text before its first colon as the name,
/// the text after it as the value, both without white space around them.
pub open spec fn header_of_line(line: Seq<u8>) -> Option<HeaderView> {
    match after_colon(line) {
        Some(v) => Some(HeaderView { name: trim(before(line, 58)), value: trim(v) }),
        None => None,
    }
}

/// The headers that the lines from `i` on hold, in their order; lines without a
/// colon are passed over.
pub open spec fn headers_of_lines(ls: Seq<Seq<u8>>, i: int) -> Seq<HeaderView>
    decreases ls.len() - i,
{
    if i < 0 || i >= ls.len() {
        Seq::empty()
    } else {
        match header_of_line(ls[i]) {
            Some(h) => seq![h] + headers_of_lines(ls, i + 1),
            None => headers_of_lines(ls, i + 1),
        }
    }
}

/// The headers of a response whose head has ended: those of the lines after the
/// status line.
pub open spec fn response_headers(response: Seq<u8>) -> Option<Seq<HeaderView>> {
    match headers_end(response) {
        Some(he) => Some(headers_of_lines(lines(response.subrange(0, he)), 1)),
        None => None,
    }
}

/// Reads the headers of a response.
pub fn parse_response_headers(response: &[u8]) -> (r: Option<Vec<Header>>)
    ensures
        match r {
            Some(hs) => response_headers(response@) == Some(header_views(hs@)),
            None => response_headers(response@) is None,
        },
{
    let he: usize = match find_headers_end(response) {
        Some(he) => he,
        None => {
            return None;
        },
    };
    let ls = split_lines(slice_subrange(response, 0, he));
    let ghost lv = views(ls@);
    let mut out: Vec<Header> = Vec::new();
    let mut i: usize = 1;
    assert(header_views(out@) =~= Seq::<HeaderView>::empty());
    while i < ls.len()
        invariant
            1 <= i,
            lv == views(ls@),
            headers_of_lines(lv, 1) == header_views(out@) + headers_of_lines(lv, i as int),
        decreases ls.len() - i,
    {
        let line = ls[i].as_slice();
        assert(lv[i as int] == line@);
        let ghost before_push = header_views(out@);
        match text_after_colon(line) {
            Some(v) => {
                let h = Header {
                    name: copy_bytes(trim_slice(part_before(line, 58))),
                    value: copy_bytes(trim_slice(v)),
                };
                out.push(h);
                assert(header_views(out@) =~= before_push.push(header_of_line(line@).unwrap()));
                assert(headers_of_lines(lv, 1) =~= header_views(out@) + headers_of_lines(
                    lv,
                    i + 1,
                ));
            },
            None => {},
        }
        i += 1;
    }
    assert(headers_of_lines(lv, 1) =~= header_views(out@));
    Some(out)
}

/// What the agent reports of a local service that it could not reach.
#[derive(Debug, Clone)]
pub struct NoverlinkError {
    /// `connection-refused`, `timeout` or something else.
    pub error_type: String,
    /// The local port, as the agent wrote it.
    pub port: String,
    /// The agent's description.
    pub message: String,
}

/// A `NoverlinkError` as mathematical values.
pub struct NoverlinkErrorView {
    pub error_type: Seq<char>,
    pub port: Seq<char>,
    pub message: Seq<char>,
}

impl View for NoverlinkError {
    type V = NoverlinkErrorView;

    open spec fn view(&self) -> NoverlinkErrorView {
        NoverlinkErrorView {
            error_type: self.error_type@,
            port: self.port@,
            message: self.message@,
        }
    }
}

/// The value of the last of the first `n` lines that has the name `name`: the
/// text after the name's colon, up to the next colon unless `whole`, without
/// white space around it.
pub open spec fn last_field(ls: Seq<Seq<u8>>, name: Seq<u8>, whole: bool, n: int) -> Option<
    Seq<u8>,
>
    decreases n,
{
    if n <= 0 || n > ls.len() {
        None
    } else if has_prefix(lower(ls[n - 1]), name) {
        let v = if whole {
            after_colon(ls[n - 1])
        } else {
            second_field(ls[n - 1])
        };
        match v {
            Some(t) => Some(trim(t)),
            None => last_field(ls, name, whole, n - 1),
        }
    } else {
        last_field(ls, name, whole, n - 1)
    }
}

/// The text of a field, or `default` where the field is absent or no valid UTF-8.
pub open spec fn text_or(field: Option<Seq<u8>>, default: Seq<char>) -> Seq<char> {
    match field {
        Some(b) => match text_of(b) {
            Some(t) => t,
            None => default,
        },
        None => default,
    }
}

/// What a response reports of an unreachable local service: present where its
/// head has ended and holds an `X-Noverlink-Error` header with a readable value.
/// `X-Noverlink-Port` and `X-Noverlink-Message` give the rest; without them the
/// port is `unknown` and the message `Unknown error`. Of several headers of one
/// name the last counts.
pub open spec fn noverlink_error(response: Seq<u8>) -> Option<NoverlinkErrorView> {
    match headers_end(response) {
        None => None,
        Some(he) => {
            let ls = lines(response.subrange(0, he));
            let n = ls.len() as int;
            match last_field(ls, ascii_bytes("x-noverlink-error:"@), false, n) {
                None => None,
                Some(kind) => match text_of(kind) {
                    None => None,
                    Some(error_type) => Some(
                        NoverlinkErrorView {
                            error_type,
                            port: text_or(
                                last_field(ls, ascii_bytes("x-noverlink-port:"@), false, n),
                                "unknown"@,
                            ),
                            message: text_or(
                                last_field(ls, ascii_bytes("x-noverlink-message:"@), true, n),
                                "Unknown error"@,
                            ),
                        },
                    ),
                },
            }
        },
    }
}

fn find_last_field(ls: &Vec<Vec<u8>>, name: &[u8], whole: bool) -> (r: Option<Vec<u8>>)
    ensures
        match r {
            Some(v) => last_field(views(ls@), name@, whole, ls@.len() as int) == Some(v@),
            None => last_field(views(ls@), name@, whole, ls@.len() as int) is None,
        },
{
    let mut n: usize = ls.len();
    while n > 0
        invariant
            n <= ls.len(),
            last_field(views(ls@), name@, whole, ls@.len() as int) == last_field(
                views(ls@),
                name@,
                whole,
                n as int,
            ),
        decreases n,
    {
        let line = ls[n - 1].as_slice();
        assert(views(ls@)[n - 1] == line@);
        if line_has_prefix(line, name) {
            let v = if whole {
                text_after_colon(line)
            } else {
                text_between_colons(line)
            };
            match v {
                Some(t) => {
                    return Some(copy_bytes(trim_slice(t)));
                },
                None => {},
            }
        }
        n -= 1;
    }
    None
}

/// The text of a field, or `default` where the field is absent or unreadable.
pub fn text_or_default(field: Option<Vec<u8>>, default: &str) -> (r: String)
    ensures
        r@ == text_or(crate::request::bytes_view(field), default@),
{
    match field {
        Some(b) => match utf8_text(b.as_slice()) {
            Some(t) => t,
            None => default.to_string(),
        },
        None => default.to_string(),
    }
}

/// Reads what a response reports of an unreachable local service.
pub fn extract_noverlink_error(response: &[u8]) -> (r: Option<NoverlinkError>)
    ensures
        match r {
            Some(e) => noverlink_error(response@) == Some(e@),
            None => noverlink_error(response@) is None,
        },
{
    let he: usize = match find_headers_end(response) {
        Some(he) => he,
        None => {
            return None;
        },
    };
    proof {
        reveal_strlit("x-noverlink-error:");
        reveal_strlit("x-noverlink-port:");
        reveal_strlit("x-noverlink-message:");
    }
    let ls = split_lines(slice_subrange(response, 0, he));
    let kind = match find_last_field(&ls, lit("x-noverlink-error:"), false) {
        Some(k) => k,
        None => {
            return None;
        },
    };
    let error_type = match utf8_text(kind.as_slice()) {
        Some(t) => t,
        None => {
            return None;
        },
    };
    let port = text_or_default(find_last_field(&ls, lit("x-noverlink-port:"), false), "unknown");
    let message = text_or_default(
        find_last_field(&ls, lit("x-noverlink-message:"), true),
        "Unknown error",
    );
    Some(NoverlinkError { error_type, port, message })
}

} // verus!
