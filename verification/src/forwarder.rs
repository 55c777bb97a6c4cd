//! The agent's forwarder: what is sent to the local service, when its response
//! is complete, and what the agent answers when the local service cannot be
//! reached.

use vstd::prelude::*;
use vstd::utf8::encode_utf8;
use crate::bytes::{ascii_bytes, decimal, lit, push_all, push_decimal, views};
use crate::http::{
    crlf, crlf2, crlf2_bytes, crlf_bytes, is_complete_http_response, response_end,
};
use crate::lines::joined;

verus! {

/// Seconds that a connection to the local service may take.
pub const CONNECT_TIMEOUT_SECS: u64 = 5;

/// Seconds that the response of the local service may take.
pub const RESPONSE_TIMEOUT_SECS: u64 = 420;

/// The most bytes of a response that are passed on.
pub const MAX_RESPONSE_BYTES: usize = 10485760;

/// Why the local service gave no response.
#[derive(Clone, Copy, Debug, PartialEq, Eq, Structural)]
pub enum ForwardError {
    /// Nothing listens on the local port, or the connection took too long.
    ConnectionRefused,
    /// The local service did not respond in time.
    Timeout,
    /// Anything else.
    Other,
}

/// A failure to get a response from the local service: its kind, and what
/// went wrong in words.
#[derive(Debug, Clone)]
pub struct ForwardFailure {
    pub kind: ForwardError,
    pub message: String,
}

/// Whether the reading of a response goes on.
#[derive(Clone, Copy, Debug, PartialEq, Eq, Structural)]
pub enum ReadProgress {
    /// The response is complete, or it is as long as a response may be.
    Done,
    /// More is to be read.
    NeedMore,
}

/// What is kept of a response when `read` was read so far: all of it, or its
/// first ten mebibytes where it is longer and not complete.
pub open spec fn kept(read: Seq<u8>) -> Seq<u8> {
    if response_end(read) is None && read.len() > MAX_RESPONSE_BYTES {
        read.subrange(0, MAX_RESPONSE_BYTES as int)
    } else {
        read
    }
}

/// Whether the reading of a response ends when `read` was read so far.
pub open spec fn read_progress(read: Seq<u8>) -> ReadProgress {
    if response_end(read) is Some || read.len() > MAX_RESPONSE_BYTES {
        ReadProgress::Done
    } else {
        ReadProgress::NeedMore
    }
}

/// Adds what was read from the local service to the response and says whether
/// the reading goes on. A response that grows beyond ten mebibytes without
/// being complete is cut there and ends.
pub fn feed_response(buffer: &mut Vec<u8>, chunk: &[u8]) -> (r: ReadProgress)
    ensures
        final(buffer)@ == kept(old(buffer)@ + chunk@),
        r == read_progress(old(buffer)@ + chunk@),
{
    push_all(buffer, chunk);
    if is_complete_http_response(buffer.as_slice()) {
        return ReadProgress::Done;
    }
    if buffer.len() > MAX_RESPONSE_BYTES {
        let ghost all = buffer@;
        buffer.truncate(MAX_RESPONSE_BYTES);
        assert(buffer@ =~= all.subrange(0, MAX_RESPONSE_BYTES as int));
        return ReadProgress::Done;
    }
    ReadProgress::NeedMore
}

/// The body of the agent's answer for an unreachable local service.
pub open spec fn failure_body(error: Seq<char>) -> Seq<u8> {
    ascii_bytes("Failed to connect to localhost: "@) + encode_utf8(error)
}

fn compose_failure_body(error: &str) -> (r: Vec<u8>)
    ensures
        r@ == failure_body(error@),
{
    proof {
        reveal_strlit("Failed to connect to localhost: ");
    }
    let mut body: Vec<u8> = Vec::new();
    push_all(&mut body, lit("Failed to connect to localhost: "));
    push_all(&mut body, error.as_bytes());
    body
}

/// The name of a failure as the edge reads it.
pub open spec fn failure_name(kind: ForwardError) -> Seq<char> {
    match kind {
        ForwardError::ConnectionRefused => "connection-refused"@,
        ForwardError::Timeout => "timeout"@,
        ForwardError::Other => "other"@,
    }
}

/// `text` on one line: every control byte replaced by a space.
pub open spec fn one_line(text: Seq<u8>) -> Seq<u8> {
    Seq::new(
        text.len(),
        |i: int|
            if text[i] < 32 || text[i] == 127 {
                32u8
            } else {
                text[i]
            },
    )
}

/// The lines of the head of the answer that reports an unreachable local
/// service to the edge.
pub open spec fn report_lines(kind: ForwardError, port: u16, message: Seq<char>) -> Seq<Seq<u8>> {
    seq![
        ascii_bytes("HTTP/1.1 502 Bad Gateway"@),
        ascii_bytes("Content-Type: text/plain"@),
        ascii_bytes("X-Noverlink-Error: "@) + ascii_bytes(failure_name(kind)),
        ascii_bytes("X-Noverlink-Port: "@) + decimal(port as nat),
        ascii_bytes("X-Noverlink-Message: "@) + one_line(encode_utf8(message)),
        ascii_bytes("Content-Length: "@) + decimal(failure_body(message).len()),
        ascii_bytes("Connection: close"@),
    ]
}

/// The answer by which the agent reports an unreachable local service to the
/// edge: status 502 with the headers `X-Noverlink-Error`, `X-Noverlink-Port` and
/// `X-Noverlink-Message`, and the plain answer's body.
pub open spec fn unreachable_report(kind: ForwardError, port: u16, message: Seq<char>) -> Seq<u8> {
    joined(report_lines(kind, port, message), 0) + crlf2() + failure_body(message)
}

/// Puts lines together, with a line ending between each two.
pub fn join_lines(ls: &Vec<Vec<u8>>) -> (r: Vec<u8>)
    ensures
        r@ == joined(views(ls@), 0),
{
    let ghost lv = views(ls@);
    let mut out: Vec<u8> = Vec::new();
    let mut i: usize = 0;
    assert(out@ + joined(lv, 0) =~= joined(lv, 0));
    while i < ls.len()
        invariant
            i <= ls.len(),
            lv == views(ls@),
            joined(lv, 0) == out@ + joined(lv, i as int),
        decreases ls.len() - i,
    {
        let ghost before = out@;
        assert(lv[i as int] == ls@[i as int]@);
        push_all(&mut out, ls[i].as_slice());
        if i + 1 < ls.len() {
            push_all(&mut out, crlf_bytes());
            assert(out@ =~= before + (lv[i as int] + crlf()));
        }
        assert(joined(lv, 0) =~= out@ + joined(lv, i + 1));
        i += 1;
    }
    assert(out@ =~= joined(lv, 0));
    out
}

fn push_one_line(out: &mut Vec<u8>, text: &[u8])
    ensures
        final(out)@ == old(out)@ + one_line(text@),
{
    let mut i: usize = 0;
    while i < text.len()
        invariant
            i <= text.len(),
            out@ == old(out)@ + one_line(text@).subrange(0, i as int),
        decreases text.len() - i,
    {
        let b: u8 = text[i];
        let c: u8 = if b < 32 || b == 127 {
            32
        } else {
            b
        };
        out.push(c);
        i += 1;
        assert(out@ =~= old(out)@ + one_line(text@).subrange(0, i as int));
    }
    assert(one_line(text@).subrange(0, text@.len() as int) =~= one_line(text@));
}

fn failure_label(kind: ForwardError) -> (r: &'static str)
    ensures
        r@ == failure_name(kind),
        r.is_ascii(),
{
    proof {
        reveal_strlit("connection-refused");
        reveal_strlit("timeout");
        reveal_strlit("other");
    }
    match kind {
        ForwardError::ConnectionRefused => "connection-refused",
        ForwardError::Timeout => "timeout",
        ForwardError::Other => "other",
    }
}

fn labelled(label: &str, value: &[u8]) -> (r: Vec<u8>)
    requires
        label.is_ascii(),
    ensures
        r@ == ascii_bytes(label@) + value@,
{
    let mut line: Vec<u8> = Vec::new();
    push_all(&mut line, lit(label));
    push_all(&mut line, value);
    line
}

fn decimal_of(n: u64) -> (r: Vec<u8>)
    ensures
        r@ == decimal(n as nat),
{
    let mut digits: Vec<u8> = Vec::new();
    push_decimal(&mut digits, n);
    digits
}

/// Writes the answer by which the agent reports an unreachable local service:
/// a response with status 502 that names the kind of failure, the local port
/// and the failure's description in `X-Noverlink-Error`, `X-Noverlink-Port` and
/// `X-Noverlink-Message`, with the description in its body.
pub fn create_502_response(error: &ForwardFailure, local_port: u16) -> (r: Vec<u8>)
    ensures
        r@ == unreachable_report(error.kind, local_port, error.message@),
{
    let kind = error.kind;
    let message = error.message.as_str();
    proof {
        reveal_strlit("HTTP/1.1 502 Bad Gateway");
        reveal_strlit("Content-Type: text/plain");
        reveal_strlit("X-Noverlink-Error: ");
        reveal_strlit("X-Noverlink-Port: ");
        reveal_strlit("X-Noverlink-Message: ");
        reveal_strlit("Content-Length: ");
        reveal_strlit("Connection: close");
        reveal_strlit("");
    }
    let body = compose_failure_body(message);
    let mut flat: Vec<u8> = Vec::new();
    push_one_line(&mut flat, message.as_bytes());
    let mut ls: Vec<Vec<u8>> = Vec::new();
    ls.push(labelled("HTTP/1.1 502 Bad Gateway", lit("")));
    ls.push(labelled("Content-Type: text/plain", lit("")));
    ls.push(labelled("X-Noverlink-Error: ", lit(failure_label(kind))));
    ls.push(labelled("X-Noverlink-Port: ", decimal_of(local_port as u64).as_slice()));
    ls.push(labelled("X-Noverlink-Message: ", flat.as_slice()));
    ls.push(labelled("Content-Length: ", decimal_of(body.len() as u64).as_slice()));
    ls.push(labelled("Connection: close", lit("")));
    assert(views(ls@) =~= report_lines(kind, local_port, message@)) by {
        assert forall|k: int| 0 <= k < 7 implies views(ls@)[k] == report_lines(
            kind,
            local_port,
            message@,
        )[k] by {
            assert(views(ls@)[k] == ls@[k]@);
            assert(ascii_bytes(""@) =~= Seq::<u8>::empty());
            if k == 0 {
                assert(ls@[0]@ =~= ascii_bytes("HTTP/1.1 502 Bad Gateway"@));
            } else if k == 1 {
                assert(ls@[1]@ =~= ascii_bytes("Content-Type: text/plain"@));
            } else if k == 6 {
                assert(ls@[6]@ =~= ascii_bytes("Connection: close"@));
            }
        }
    }
    let mut out = join_lines(&ls);
    push_all(&mut out, crlf2_bytes());
    push_all(&mut out, body.as_slice());
    out
}

} // verus!
