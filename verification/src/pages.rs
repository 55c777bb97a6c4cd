//! The responses that the relay writes of its own accord: the short answers to
//! requests it cannot serve, the page for a host without a tunnel, and the page
//! for a local service that the agent could not reach.

use vstd::prelude::*;
use vstd::utf8::encode_utf8;
use crate::bytes::{ascii_bytes, decimal, lit, push_all, push_decimal};
use crate::protocol::same_text;
use crate::response::{NoverlinkError, NoverlinkErrorView};

verus! {

/// What stands for one byte of UTF-8 text in HTML: the entity for `<`, `>`, `&`,
/// `"` and `'`, the byte itself otherwise. In UTF-8 these five bytes occur only
/// as these five characters.
pub open spec fn escaped_byte(b: u8) -> Seq<u8> {
    if b == 60 {
        ascii_bytes("&lt;"@)
    } else if b == 62 {
        ascii_bytes("&gt;"@)
    } else if b == 38 {
        ascii_bytes("&amp;"@)
    } else if b == 34 {
        ascii_bytes("&quot;"@)
    } else if b == 39 {
        ascii_bytes("&#x27;"@)
    } else {
        seq![b]
    }
}

/// UTF-8 text with `<`, `>`, `&`, `"` and `'` replaced by `&lt;`, `&gt;`,
/// `&amp;`, `&quot;` and `&#x27;`.
pub open spec fn html_escaped(bytes: Seq<u8>) -> Seq<u8>
    decreases bytes.len(),
{
    if bytes.len() == 0 {
        Seq::empty()
    } else {
        html_escaped(bytes.drop_last()) + escaped_byte(bytes.last())
    }
}

/// The answer to a head that grew beyond its limit.
pub fn header_too_large_response() -> (r: &'static [u8])
    ensures
        r@ == ascii_bytes("HTTP/1.1 431 Request Header Fields Too Large\r\n\r\n"@),
{
    proof {
        reveal_strlit("HTTP/1.1 431 Request Header Fields Too Large\r\n\r\n");
    }
    lit("HTTP/1.1 431 Request Header Fields Too Large\r\n\r\n")
}

/// The answer to a head that did not arrive in time.
pub fn request_timeout_response() -> (r: &'static [u8])
    ensures
        r@ == ascii_bytes("HTTP/1.1 408 Request Timeout\r\n\r\n"@),
{
    proof {
        reveal_strlit("HTTP/1.1 408 Request Timeout\r\n\r\n");
    }
    lit("HTTP/1.1 408 Request Timeout\r\n\r\n")
}

/// The answer to a request without a `Host` header.
pub fn no_host_response() -> (r: &'static [u8])
    ensures
        r@ == ascii_bytes("HTTP/1.1 400 Bad Request\r\n\r\nNo Host header\r\n"@),
{
    proof {
        reveal_strlit("HTTP/1.1 400 Bad Request\r\n\r\nNo Host header\r\n");
    }
    lit("HTTP/1.1 400 Bad Request\r\n\r\nNo Host header\r\n")
}

/// The answer to a head that the parser found unfinished.
pub fn incomplete_headers_response() -> (r: &'static [u8])
    ensures
        r@ == ascii_bytes("HTTP/1.1 400 Bad Request\r\n\r\nIncomplete headers\r\n"@),
{
    proof {
        reveal_strlit("HTTP/1.1 400 Bad Request\r\n\r\nIncomplete headers\r\n");
    }
    lit("HTTP/1.1 400 Bad Request\r\n\r\nIncomplete headers\r\n")
}

/// The answer to bytes that are no HTTP request.
pub fn malformed_request_response() -> (r: &'static [u8])
    ensures
        r@ == ascii_bytes("HTTP/1.1 400 Bad Request\r\n\r\nMalformed request\r\n"@),
{
    proof {
        reveal_strlit("HTTP/1.1 400 Bad Request\r\n\r\nMalformed request\r\n");
    }
    lit("HTTP/1.1 400 Bad Request\r\n\r\nMalformed request\r\n")
}

/// The answer when the request could not be handed to the agent's session.
pub fn agent_not_responding_response() -> (r: &'static [u8])
    ensures
        r@ == ascii_bytes("HTTP/1.1 504 Gateway Timeout\r\n\r\nCLI not responding\r\n"@),
{
    proof {
        reveal_strlit("HTTP/1.1 504 Gateway Timeout\r\n\r\nCLI not responding\r\n");
    }
    lit("HTTP/1.1 504 Gateway Timeout\r\n\r\nCLI not responding\r\n")
}

/// The answer when the agent's session ended before it replied.
pub fn agent_disconnected_response() -> (r: &'static [u8])
    ensures
        r@ == ascii_bytes("HTTP/1.1 502 Bad Gateway\r\n\r\nCLI disconnected\r\n"@),
{
    proof {
        reveal_strlit("HTTP/1.1 502 Bad Gateway\r\n\r\nCLI disconnected\r\n");
    }
    lit("HTTP/1.1 502 Bad Gateway\r\n\r\nCLI disconnected\r\n")
}

/// The answer when no response came in time.
pub fn response_timeout_response() -> (r: &'static [u8])
    ensures
        r@ == ascii_bytes("HTTP/1.1 504 Gateway Timeout\r\n\r\nRequest timeout\r\n"@),
{
    proof {
        reveal_strlit("HTTP/1.1 504 Gateway Timeout\r\n\r\nRequest timeout\r\n");
    }
    lit("HTTP/1.1 504 Gateway Timeout\r\n\r\nRequest timeout\r\n")
}

/// The answer when an upgrade could not be handed to the agent's session.
pub fn upgrade_not_sent_response() -> (r: &'static [u8])
    ensures
        r@ == ascii_bytes("HTTP/1.1 502 Bad Gateway\r\n\r\nCLI not responding\r\n"@),
{
    proof {
        reveal_strlit("HTTP/1.1 502 Bad Gateway\r\n\r\nCLI not responding\r\n");
    }
    lit("HTTP/1.1 502 Bad Gateway\r\n\r\nCLI not responding\r\n")
}

/// The answer when no reply to an upgrade came in time.
pub fn upgrade_timeout_response() -> (r: &'static [u8])
    ensures
        r@ == ascii_bytes("HTTP/1.1 504 Gateway Timeout\r\n\r\nUpgrade timeout\r\n"@),
{
    proof {
        reveal_strlit("HTTP/1.1 504 Gateway Timeout\r\n\r\nUpgrade timeout\r\n");
    }
    lit("HTTP/1.1 504 Gateway Timeout\r\n\r\nUpgrade timeout\r\n")
}

/// The UTF-8 bytes of `text` with its HTML special characters replaced.
pub open spec fn html_bytes(text: Seq<char>) -> Seq<u8> {
    html_escaped(encode_utf8(text))
}

fn push_html(out: &mut Vec<u8>, text: &str)
    ensures
        final(out)@ == old(out)@ + html_bytes(text@),
{
    proof {
        reveal_strlit("&lt;");
        reveal_strlit("&gt;");
        reveal_strlit("&amp;");
        reveal_strlit("&quot;");
        reveal_strlit("&#x27;");
    }
    let bytes = text.as_bytes();
    let lt = lit("&lt;");
    let gt = lit("&gt;");
    let amp = lit("&amp;");
    let quot = lit("&quot;");
    let apos = lit("&#x27;");
    let mut i: usize = 0;
    while i < bytes.len()
        invariant
            i <= bytes@.len(),
            lt@ == ascii_bytes("&lt;"@),
            gt@ == ascii_bytes("&gt;"@),
            amp@ == ascii_bytes("&amp;"@),
            quot@ == ascii_bytes("&quot;"@),
            apos@ == ascii_bytes("&#x27;"@),
            out@ == old(out)@ + html_escaped(bytes@.take(i as int)),
        decreases bytes@.len() - i,
    {
        let b: u8 = bytes[i];
        let ghost before = out@;
        if b == 60 {
            push_all(out, lt);
        } else if b == 62 {
            push_all(out, gt);
        } else if b == 38 {
            push_all(out, amp);
        } else if b == 34 {
            push_all(out, quot);
        } else if b == 39 {
            push_all(out, apos);
        } else {
            out.push(b);
        }
        proof {
            let next = bytes@.take(i + 1);
            assert(next.drop_last() =~= bytes@.take(i as int));
            assert(next.last() == b);
            assert(out@ =~= before + escaped_byte(b));
            assert(out@ =~= old(out)@ + html_escaped(next));
        }
        i += 1;
    }
    assert(bytes@.take(i as int) =~= bytes@);
}

fn push_lit(out: &mut Vec<u8>, text: &str)
    requires
        text.is_ascii(),
    ensures
        final(out)@ == old(out)@ + ascii_bytes(text@),
{
    push_all(out, lit(text));
}

/// A response with an HTML body: the head up to the length, the length of the
/// body, the rest of the head, the body.
pub open spec fn html_response(head: Seq<char>, rest: Seq<char>, body: Seq<u8>) -> Seq<u8> {
    ascii_bytes(head) + decimal(body.len()) + ascii_bytes(rest) + body
}

fn compose_html_response(head: &str, rest: &str, body: &Vec<u8>) -> (r: Vec<u8>)
    requires
        head.is_ascii(),
        rest.is_ascii(),
    ensures
        r@ == html_response(head@, rest@, body@),
{
    let mut out: Vec<u8> = Vec::new();
    push_lit(&mut out, head);
    push_decimal(&mut out, body.len() as u64);
    push_lit(&mut out, rest);
    push_all(&mut out, body.as_slice());
    assert(out@ =~= html_response(head@, rest@, body@));
    out
}

/// The body of the page for a host without a tunnel.
pub open spec fn not_found_body(host: Seq<char>) -> Seq<u8> {
    ascii_bytes(
        "<!DOCTYPE html><html><head><meta charset=\"utf-8\"><title>Tunnel not found</title></head><body><h1>Tunnel not found</h1><p>No tunnel is connected for <code>"@,
    ) + html_bytes(host) + ascii_bytes("</code>.</p></body></html>"@)
}

/// The response for a host without a tunnel: status 404 and a page that names
/// the host.
pub open spec fn not_found_response(host: Seq<char>) -> Seq<u8> {
    html_response(
        "HTTP/1.1 404 Not Found\r\nContent-Type: text/html; charset=utf-8\r\nContent-Length: "@,
        "\r\nCache-Control: no-cache\r\n\r\n"@,
        not_found_body(host),
    )
}

/// Writes the response for a host without a tunnel.
pub fn render_404_page(host: &str) -> (r: Vec<u8>)
    ensures
        r@ == not_found_response(host@),
{
    proof {
        reveal_strlit(
            "<!DOCTYPE html><html><head><meta charset=\"utf-8\"><title>Tunnel not found</title></head><body><h1>Tunnel not found</h1><p>No tunnel is connected for <code>",
        );
        reveal_strlit("</code>.</p></body></html>");
        reveal_strlit(
            "HTTP/1.1 404 Not Found\r\nContent-Type: text/html; charset=utf-8\r\nContent-Length: ",
        );
        reveal_strlit("\r\nCache-Control: no-cache\r\n\r\n");
    }
    let mut body: Vec<u8> = Vec::new();
    push_lit(
        &mut body,
        "<!DOCTYPE html><html><head><meta charset=\"utf-8\"><title>Tunnel not found</title></head><body><h1>Tunnel not found</h1><p>No tunnel is connected for <code>",
    );
    push_html(&mut body, host);
    push_lit(&mut body, "</code>.</p></body></html>");
    assert(body@ =~= not_found_body(host@));
    compose_html_response(
        "HTTP/1.1 404 Not Found\r\nContent-Type: text/html; charset=utf-8\r\nContent-Length: ",
        "\r\nCache-Control: no-cache\r\n\r\n",
        &body,
    )
}

/// The heading of the page for an unreachable local service.
pub open spec fn unavailable_title(kind: Seq<char>) -> Seq<char> {
    if kind == "connection-refused"@ {
        "Local Server Not Running"@
    } else if kind == "timeout"@ {
        "Local Server Timeout"@
    } else {
        "Connection Error"@
    }
}

/// The sentence of the page for an unreachable local service.
pub open spec fn unavailable_message(kind: Seq<char>, port: Seq<char>) -> Seq<u8> {
    if kind == "connection-refused"@ {
        ascii_bytes("Your tunnel is active, but no server is listening on port "@) + html_bytes(
            port,
        ) + ascii_bytes("."@)
    } else if kind == "timeout"@ {
        ascii_bytes("Your server on port "@) + html_bytes(port) + ascii_bytes(
            " is taking too long to respond."@,
        )
    } else {
        ascii_bytes("Could not connect to localhost:"@) + html_bytes(port) + ascii_bytes("."@)
    }
}

/// The body of the page for an unreachable local service.
pub open spec fn unavailable_body(e: NoverlinkErrorView) -> Seq<u8> {
    ascii_bytes("<!DOCTYPE html><html><head><meta charset=\"utf-8\"><title>"@) + ascii_bytes(
        unavailable_title(e.error_type),
    ) + ascii_bytes("</title></head><body><h1>"@) + ascii_bytes(unavailable_title(e.error_type))
        + ascii_bytes("</h1><p>"@) + unavailable_message(e.error_type, e.port) + ascii_bytes(
        "</p><p>Local port: "@,
    ) + html_bytes(e.port) + ascii_bytes("</p><pre>"@) + html_bytes(e.message) + ascii_bytes(
        "</pre></body></html>"@,
    )
}

/// The response for an unreachable local service: status 503, to be tried again
/// after five seconds, with a page that names the local port.
pub open spec fn unavailable_response(e: NoverlinkErrorView) -> Seq<u8> {
    html_response(
        "HTTP/1.1 503 Service Unavailable\r\nContent-Type: text/html; charset=utf-8\r\nContent-Length: "@,
        "\r\nCache-Control: no-cache, no-store, must-revalidate\r\nRetry-After: 5\r\nConnection: close\r\n\r\n"@,
        unavailable_body(e),
    )
}

fn title_for(kind: &str) -> (r: &'static str)
    ensures
        r@ == unavailable_title(kind@),
        r.is_ascii(),
{
    proof {
        reveal_strlit("Local Server Not Running");
        reveal_strlit("Local Server Timeout");
        reveal_strlit("Connection Error");
    }
    if same_text(kind, "connection-refused") {
        "Local Server Not Running"
    } else if same_text(kind, "timeout") {
        "Local Server Timeout"
    } else {
        "Connection Error"
    }
}

fn push_message(out: &mut Vec<u8>, kind: &str, port: &str)
    ensures
        final(out)@ == old(out)@ + unavailable_message(kind@, port@),
{
    proof {
        reveal_strlit("Your tunnel is active, but no server is listening on port ");
        reveal_strlit(".");
        reveal_strlit("Your server on port ");
        reveal_strlit(" is taking too long to respond.");
        reveal_strlit("Could not connect to localhost:");
    }
    if same_text(kind, "connection-refused") {
        push_lit(out, "Your tunnel is active, but no server is listening on port ");
        push_html(out, port);
        push_lit(out, ".");
    } else if same_text(kind, "timeout") {
        push_lit(out, "Your server on port ");
        push_html(out, port);
        push_lit(out, " is taking too long to respond.");
    } else {
        push_lit(out, "Could not connect to localhost:");
        push_html(out, port);
        push_lit(out, ".");
    }
    assert(out@ =~= old(out)@ + unavailable_message(kind@, port@));
}

/// Writes the response for an unreachable local service.
pub fn render_503_error_page(error: &NoverlinkError) -> (r: Vec<u8>)
    ensures
        r@ == unavailable_response(error@),
{
    proof {
        reveal_strlit("<!DOCTYPE html><html><head><meta charset=\"utf-8\"><title>");
        reveal_strlit("</title></head><body><h1>");
        reveal_strlit("</h1><p>");
        reveal_strlit("</p><p>Local port: ");
        reveal_strlit("</p><pre>");
        reveal_strlit("</pre></body></html>");
        reveal_strlit(
            "HTTP/1.1 503 Service Unavailable\r\nContent-Type: text/html; charset=utf-8\r\nContent-Length: ",
        );
        reveal_strlit(
            "\r\nCache-Control: no-cache, no-store, must-revalidate\r\nRetry-After: 5\r\nConnection: close\r\n\r\n",
        );
    }
    let kind = error.error_type.as_str();
    let title = title_for(kind);
    let mut body: Vec<u8> = Vec::new();
    push_lit(&mut body, "<!DOCTYPE html><html><head><meta charset=\"utf-8\"><title>");
    push_lit(&mut body, title);
    push_lit(&mut body, "</title></head><body><h1>");
    push_lit(&mut body, title);
    push_lit(&mut body, "</h1><p>");
    push_message(&mut body, kind, error.port.as_str());
    push_lit(&mut body, "</p><p>Local port: ");
    push_html(&mut body, error.port.as_str());
    push_lit(&mut body, "</p><pre>");
    push_html(&mut body, error.message.as_str());
    push_lit(&mut body, "</pre></body></html>");
    assert(body@ =~= unavailable_body(error@));
    compose_html_response(
        "HTTP/1.1 503 Service Unavailable\r\nContent-Type: text/html; charset=utf-8\r\nContent-Length: ",
        "\r\nCache-Control: no-cache, no-store, must-revalidate\r\nRetry-After: 5\r\nConnection: close\r\n\r\n",
        &body,
    )
}

} // verus!
