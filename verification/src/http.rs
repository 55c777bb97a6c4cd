//! HTTP/1.1 framing: where a head ends and where a response is complete.
//!
//! A response is complete when its `Content-Length` is reached or, for a chunked
//! body, at the end of the chunk structure. Without either, only the end of the
//! stream tells, and the functions here answer "not complete".

use vstd::prelude::*;
use vstd::slice::*;
use crate::bytes::{
    ascii_bytes, contains, eq_at, find_from, find_spec, has_prefix, hex_run_end,
    hex_value, is_prefix_of, lemma_find_extend, lemma_find_first, lemma_hex_extend,
    lemma_hex_value_extend, lemma_prefix_index, lines, lit, lower, matches_at, parse_bounded,
    parse_u64, read_hex, second_field, split_lines, text_between_colons, to_lower, trim,
    trim_slice, views,
};

verus! {

/// Carriage return, line feed.
pub open spec fn crlf() -> Seq<u8> {
    seq![13u8, 10u8]
}

/// The empty line that ends a head.
pub open spec fn crlf2() -> Seq<u8> {
    seq![13u8, 10u8, 13u8, 10u8]
}

pub fn crlf_bytes() -> (r: &'static [u8])
    ensures
        r@ == crlf(),
{
    proof {
        reveal_strlit("\r\n");
    }
    let r = lit("\r\n");
    assert(r@ =~= crlf());
    r
}

pub fn crlf2_bytes() -> (r: &'static [u8])
    ensures
        r@ == crlf2(),
{
    proof {
        reveal_strlit("\r\n\r\n");
    }
    let r = lit("\r\n\r\n");
    assert(r@ =~= crlf2());
    r
}

/// Index of the empty line that ends the head of `buf`.
pub open spec fn headers_end(buf: Seq<u8>) -> Option<int> {
    find_spec(buf, crlf2(), 0)
}

/// Finds the end of the head: the index of the first `\r\n\r\n`.
pub fn find_headers_end(buf: &[u8]) -> (r: Option<usize>)
    ensures
        match r {
            Some(i) => headers_end(buf@) == Some(i as int) && i + 4 <= buf.len(),
            None => headers_end(buf@) is None,
        },
{
    let r = find_from(buf, crlf2_bytes(), 0);
    proof {
        lemma_find_first(buf@, crlf2(), 0);
    }
    r
}

/// Whether `line`, with ASCII case folded, begins with `pat`.
pub fn line_has_prefix(line: &[u8], pat: &[u8]) -> (r: bool)
    ensures
        r == has_prefix(lower(line@), pat@),
{
    let low = to_lower(line);
    eq_at(low.as_slice(), pat, 0)
}

/// Whether `line`, with ASCII case folded, holds `pat`.
pub fn line_contains(line: &[u8], pat: &[u8]) -> (r: bool)
    ensures
        r == contains(lower(line@), pat@),
{
    let low = to_lower(line);
    find_from(low.as_slice(), pat, 0).is_some()
}

/// The length that a `Content-Length` line announces.
pub open spec fn content_length_of_line(line: Seq<u8>) -> Option<nat> {
    if has_prefix(lower(line), ascii_bytes("content-length:"@)) {
        match second_field(line) {
            Some(v) => parse_bounded(trim(v), u64::MAX as nat),
            None => None,
        }
    } else {
        None
    }
}

/// The length announced by the first `Content-Length` line, from line `i` on,
/// that holds a number.
pub open spec fn first_content_length(ls: Seq<Seq<u8>>, i: int) -> Option<nat>
    decreases ls.len() - i,
{
    if i < 0 || i >= ls.len() {
        None
    } else {
        match content_length_of_line(ls[i]) {
            Some(n) => Some(n),
            None => first_content_length(ls, i + 1),
        }
    }
}

/// A `Transfer-Encoding` line that names `chunked`.
pub open spec fn is_chunked_line(line: Seq<u8>) -> bool {
    has_prefix(lower(line), ascii_bytes("transfer-encoding:"@)) && contains(
        lower(line),
        ascii_bytes("chunked"@),
    )
}

/// Some line from `i` on announces a chunked body.
pub open spec fn any_chunked_line(ls: Seq<Seq<u8>>, i: int) -> bool
    decreases ls.len() - i,
{
    if i < 0 || i >= ls.len() {
        false
    } else {
        is_chunked_line(ls[i]) || any_chunked_line(ls, i + 1)
    }
}

/// The size that the chunk header at `pos` announces and the index at which the
/// chunk's data begin. The header is one or more hexadecimal digits, optionally
/// followed by an extension, up to the next `\r\n`.
pub open spec fn chunk_header(buf: Seq<u8>, pos: int) -> Option<(nat, int)> {
    match find_spec(buf, crlf(), pos) {
        None => None,
        Some(e) => {
            let d = hex_run_end(buf, pos);
            if pos < d <= e && (d == e || buf[d] == 59 || buf[d] == 32 || buf[d] == 9) {
                Some((hex_value(buf, pos, d), e + 2))
            } else {
                None
            }
        },
    }
}

/// Where a chunked body ends when the trailer section begins at `t`: directly
/// after an empty line at `t`, or after the empty line that ends the trailers.
pub open spec fn trailer_end(buf: Seq<u8>, t: int) -> Option<int> {
    if matches_at(buf, crlf(), t) {
        Some(t + 2)
    } else {
        match find_spec(buf, crlf2(), t) {
            Some(i) => Some(i + 4),
            None => None,
        }
    }
}

/// Where the chunked body ends whose next chunk header is at `pos`, if `buf` holds
/// all of it.
pub open spec fn chunked_end(buf: Seq<u8>, pos: int) -> Option<int>
    decreases buf.len() - pos,
{
    match chunk_header(buf, pos) {
        None => None,
        Some((size, data)) => {
            if pos < 0 || data <= pos {
                None
            } else if size == 0 {
                trailer_end(buf, data)
            } else if data + size + 2 <= buf.len() && buf[data + size] == 13 && buf[data + size
                + 1] == 10 {
                chunked_end(buf, data + size + 2)
            } else {
                None
            }
        },
    }
}

/// Where the first response in `buf` ends, if `buf` holds all of it and its head
/// says how long it is. `Content-Length` goes before `Transfer-Encoding: chunked`.
pub open spec fn response_end(buf: Seq<u8>) -> Option<int> {
    match headers_end(buf) {
        None => None,
        Some(he) => {
            let ls = lines(buf.subrange(0, he));
            match first_content_length(ls, 0) {
                Some(n) => if buf.len() >= he + 4 + n {
                    Some(he + 4 + n)
                } else {
                    None
                },
                None => if any_chunked_line(ls, 0) {
                    chunked_end(buf, he + 4)
                } else {
                    None
                },
            }
        },
    }
}

/// The announced length of the first `Content-Length` line that holds a number.
pub fn find_content_length(ls: &Vec<Vec<u8>>) -> (r: Option<u64>)
    ensures
        r.is_some() == first_content_length(views(ls@), 0).is_some(),
        r.is_some() ==> r.unwrap() as nat == first_content_length(views(ls@), 0).unwrap(),
{
    proof {
        reveal_strlit("content-length:");
    }
    let name = lit("content-length:");
    let mut i: usize = 0;
    while i < ls.len()
        invariant
            i <= ls.len(),
            name@ == ascii_bytes("content-length:"@),
            first_content_length(views(ls@), 0) == first_content_length(views(ls@), i as int),
        decreases ls.len() - i,
    {
        let line = ls[i].as_slice();
        assert(views(ls@)[i as int] == line@);
        if line_has_prefix(line, name) {
            match text_between_colons(line) {
                Some(v) => match parse_u64(trim_slice(v)) {
                    Some(n) => {
                        return Some(n);
                    },
                    None => {},
                },
                None => {},
            }
        }
        i += 1;
    }
    None
}

/// Whether some line announces a chunked body.
pub fn has_chunked_encoding(ls: &Vec<Vec<u8>>) -> (r: bool)
    ensures
        r == any_chunked_line(views(ls@), 0),
{
    proof {
        reveal_strlit("transfer-encoding:");
        reveal_strlit("chunked");
    }
    let name = lit("transfer-encoding:");
    let word = lit("chunked");
    let mut i: usize = 0;
    while i < ls.len()
        invariant
            i <= ls.len(),
            name@ == ascii_bytes("transfer-encoding:"@),
            word@ == ascii_bytes("chunked"@),
            any_chunked_line(views(ls@), 0) == any_chunked_line(views(ls@), i as int),
        decreases ls.len() - i,
    {
        let line = ls[i].as_slice();
        assert(views(ls@)[i as int] == line@);
        if line_has_prefix(line, name) && line_contains(line, word) {
            return true;
        }
        i += 1;
    }
    false
}

/// Where the chunked body that begins at `start` ends, if `buf` holds all of it.
pub fn find_chunked_end(buf: &[u8], start: usize) -> (r: Option<usize>)
    requires
        start <= buf.len(),
    ensures
        match r {
            Some(e) => chunked_end(buf@, start as int) == Some(e as int) && e <= buf.len(),
            None => chunked_end(buf@, start as int) is None,
        },
{
    let mut pos: usize = start;
    loop
        invariant
            pos <= buf.len(),
            chunked_end(buf@, start as int) == chunked_end(buf@, pos as int),
        decreases buf.len() - pos,
    {
        let e: usize = match find_from(buf, crlf_bytes(), pos) {
            Some(e) => e,
            None => {
                return None;
            },
        };
        proof {
            lemma_find_first(buf@, crlf(), pos as int);
        }
        let (d, value) = read_hex(buf, pos);
        if !(pos < d && d <= e && (d == e || buf[d] == 59 || buf[d] == 32 || buf[d] == 9)) {
            return None;
        }
        let data: usize = e + 2;
        let size: u64 = match value {
            Some(v) => v,
            None => {
                return None;
            },
        };
        if size == 0 {
            if eq_at(buf, crlf_bytes(), data) {
                return Some(data + 2);
            }
            return match find_from(buf, crlf2_bytes(), data) {
                Some(i) => {
                    proof {
                        lemma_find_first(buf@, crlf2(), data as int);
                    }
                    Some(i + 4)
                },
                None => None,
            };
        }
        let rest: usize = buf.len() - data;
        if rest < 2 || size > (rest - 2) as u64 {
            return None;
        }
        let after: usize = data + size as usize;
        if buf[after] != 13 || buf[after + 1] != 10 {
            return None;
        }
        pos = after + 2;
    }
}

/// Whether `buffer` holds a whole response.
///
/// True once the length of the first `Content-Length` line that holds a number
/// is reached, or, without such a line and with `Transfer-Encoding: chunked`,
/// once the last chunk and its trailer section are there. False otherwise: a
/// response that says nothing of its length ends at the end of the stream.
pub fn is_complete_http_response(buffer: &[u8]) -> (r: bool)
    ensures
        r == (response_end(buffer@) is Some),
{
    let he: usize = match find_headers_end(buffer) {
        Some(he) => he,
        None => {
            return false;
        },
    };
    let ls = split_lines(slice_subrange(buffer, 0, he));
    match find_content_length(&ls) {
        Some(n) => {
            return n <= (buffer.len() - (he + 4)) as u64;
        },
        None => {},
    }
    if has_chunked_encoding(&ls) {
        return find_chunked_end(buffer, he + 4).is_some();
    }
    false
}

/// The end of a chunked body never lies beyond the buffer.
pub proof fn lemma_chunked_end_bound(buf: Seq<u8>, pos: int)
    requires
        0 <= pos,
    ensures
        chunked_end(buf, pos) is Some ==> pos < chunked_end(buf, pos).unwrap() <= buf.len(),
    decreases buf.len() - pos,
{
    match chunk_header(buf, pos) {
        None => {},
        Some((size, data)) => {
            lemma_find_first(buf, crlf(), pos);
            if data <= pos {
            } else if size == 0 {
                lemma_find_first(buf, crlf2(), data);
            } else if data + size + 2 <= buf.len() && buf[data + size] == 13 && buf[data + size
                + 1] == 10 {
                lemma_chunked_end_bound(buf, data + size + 2);
            }
        },
    }
}

/// A chunk header read in a prefix reads the same in every extension.
pub proof fn lemma_chunk_header_extend(p: Seq<u8>, s: Seq<u8>, pos: int)
    requires
        0 <= pos,
        is_prefix_of(p, s),
        chunk_header(p, pos) is Some,
    ensures
        chunk_header(s, pos) == chunk_header(p, pos),
{
    lemma_find_first(p, crlf(), pos);
    lemma_find_extend(p, s, crlf(), pos);
    lemma_prefix_index(p, s);
    let d = hex_run_end(p, pos);
    lemma_hex_extend(p, s, pos);
    lemma_hex_value_extend(p, s, pos, d);
}

/// The end of a chunked body found in a prefix is its end in every extension.
pub proof fn lemma_chunked_end_extend(p: Seq<u8>, s: Seq<u8>, pos: int)
    requires
        0 <= pos,
        is_prefix_of(p, s),
        chunked_end(p, pos) is Some,
    ensures
        chunked_end(s, pos) == chunked_end(p, pos),
    decreases p.len() - pos,
{
    lemma_chunk_header_extend(p, s, pos);
    lemma_prefix_index(p, s);
    let (size, data) = chunk_header(p, pos).unwrap();
    if size == 0 {
        if matches_at(p, crlf(), data) {
            assert(s.subrange(data, data + 2) =~= p.subrange(data, data + 2));
        } else {
            lemma_find_first(p, crlf2(), data);
            lemma_find_extend(p, s, crlf2(), data);
            let i = find_spec(p, crlf2(), data).unwrap();
            assert(p.subrange(i, i + 4)[0] == p[i]);
            assert(p.subrange(i, i + 4)[1] == p[i + 1]);
            if matches_at(s, crlf(), data) {
                assert(s.subrange(data, data + 2)[0] == s[data]);
                assert(s.subrange(data, data + 2)[1] == s[data + 1]);
                assert(p.subrange(data, data + 2) =~= crlf());
            }
        }
    } else {
        lemma_chunked_end_extend(p, s, data + size + 2);
    }
}

/// The end of a response never lies beyond the buffer.
pub proof fn lemma_response_end_bound(buf: Seq<u8>)
    ensures
        response_end(buf) is Some ==> 0 <= response_end(buf).unwrap() <= buf.len(),
{
    lemma_find_first(buf, crlf2(), 0);
    match headers_end(buf) {
        None => {},
        Some(he) => {
            lemma_chunked_end_bound(buf, he + 4);
        },
    }
}

/// The end of a response found in a prefix is its end in every extension.
pub proof fn lemma_response_end_extend(p: Seq<u8>, s: Seq<u8>)
    requires
        is_prefix_of(p, s),
        response_end(p) is Some,
    ensures
        response_end(s) == response_end(p),
{
    lemma_find_first(p, crlf2(), 0);
    lemma_find_extend(p, s, crlf2(), 0);
    let he = headers_end(p).unwrap();
    assert(s.subrange(0, he) =~= p.subrange(0, he)) by {
        lemma_prefix_index(p, s);
    }
    let ls = lines(p.subrange(0, he));
    if first_content_length(ls, 0) is None {
        lemma_chunked_end_extend(p, s, he + 4);
    }
}

/// A message with a `Content-Length` is complete as soon as the announced number
/// of bytes follows its head.
pub proof fn law_content_length_complete(buf: Seq<u8>, he: int, n: nat)
    requires
        headers_end(buf) == Some(he),
        first_content_length(lines(buf.subrange(0, he)), 0) == Some(n),
        buf.len() >= he + 4 + n,
    ensures
        response_end(buf) == Some(he + 4 + n),
{
}

/// A chunked message without a `Content-Length` is complete as soon as the chunk
/// structure that follows its head has ended, with or without trailers.
pub proof fn law_chunked_complete(buf: Seq<u8>, he: int, end: int)
    requires
        headers_end(buf) == Some(he),
        first_content_length(lines(buf.subrange(0, he)), 0) is None,
        any_chunked_line(lines(buf.subrange(0, he)), 0),
        chunked_end(buf, he + 4) == Some(end),
    ensures
        response_end(buf) == Some(end),
{
}

/// No strict prefix of a message that ends exactly at its last byte is complete.
pub proof fn law_strict_prefix_incomplete(message: Seq<u8>, p: Seq<u8>)
    requires
        response_end(message) == Some(message.len() as int),
        is_prefix_of(p, message),
        p.len() < message.len(),
    ensures
        response_end(p) is None,
{
    if response_end(p) is Some {
        lemma_response_end_bound(p);
        lemma_response_end_extend(p, message);
    }
}

} // verus!
