//! The messages of the control channel between relay and agent, and their form
//! on the wire: a JSON object whose member `type` names the variant. Binary
//! payloads travel as standard base64 text.

use vstd::prelude::*;
use vstd::string::StringExecFns;
use crate::bytes::{ascii_bytes, decimal, lit, push_all, push_decimal};
use crate::encoding::{
    json_quote, json_string_bytes, read_required_integer, read_required_text, required_integer,
    required_text,
};

verus! {

/// A message of the control channel.
#[derive(Debug, Clone)]
pub enum WebSocketMessage {
    /// Agent to relay: open a tunnel to `local_port` on the strength of `ticket`.
    Register { ticket: String, local_port: u16 },
    /// Relay to agent: the tunnel is open under `domain`, reachable at `url`.
    Ack { domain: String, url: String },
    /// Relay to agent: a request to replay; `payload` is base64.
    Request { request_id: u64, payload: String },
    /// Agent to relay: the response to request `request_id`; `payload` is base64.
    Response { request_id: u64, payload: String },
    /// Either way: something went wrong.
    Error { message: String },
    /// Relay to agent: are you there?
    Ping,
    /// Agent to relay: yes.
    Pong,
    /// Relay to agent: a browser asks for a WebSocket; `initial_request` is base64.
    WebSocketUpgrade { connection_id: String, initial_request: String },
    /// Agent to relay: the local service agreed; `upgrade_response` is base64.
    WebSocketReady { connection_id: String, upgrade_response: String },
    /// Either way: bytes of a bridged connection; `data` is base64.
    WebSocketFrame { connection_id: String, data: String },
    /// Either way: a bridged connection has ended.
    WebSocketClose { connection_id: String },
    /// Agent to relay: the local service refused the upgrade; `error_response` is
    /// base64.
    WebSocketError { connection_id: String, error_response: String },
}

/// A message as mathematical values.
pub enum MessageView {
    Register { ticket: Seq<char>, local_port: u16 },
    Ack { domain: Seq<char>, url: Seq<char> },
    Request { request_id: u64, payload: Seq<char> },
    Response { request_id: u64, payload: Seq<char> },
    Error { message: Seq<char> },
    Ping,
    Pong,
    WebSocketUpgrade { connection_id: Seq<char>, initial_request: Seq<char> },
    WebSocketReady { connection_id: Seq<char>, upgrade_response: Seq<char> },
    WebSocketFrame { connection_id: Seq<char>, data: Seq<char> },
    WebSocketClose { connection_id: Seq<char> },
    WebSocketError { connection_id: Seq<char>, error_response: Seq<char> },
}

impl View for WebSocketMessage {
    type V = MessageView;

    open spec fn view(&self) -> MessageView {
        match self {
            WebSocketMessage::Register { ticket, local_port } => MessageView::Register {
                ticket: ticket@,
                local_port: *local_port,
            },
            WebSocketMessage::Ack { domain, url } => MessageView::Ack {
                domain: domain@,
                url: url@,
            },
            WebSocketMessage::Request { request_id, payload } => MessageView::Request {
                request_id: *request_id,
                payload: payload@,
            },
            WebSocketMessage::Response { request_id, payload } => MessageView::Response {
                request_id: *request_id,
                payload: payload@,
            },
            WebSocketMessage::Error { message } => MessageView::Error { message: message@ },
            WebSocketMessage::Ping => MessageView::Ping,
            WebSocketMessage::Pong => MessageView::Pong,
            WebSocketMessage::WebSocketUpgrade {
                connection_id,
                initial_request,
            } => MessageView::WebSocketUpgrade {
                connection_id: connection_id@,
                initial_request: initial_request@,
            },
            WebSocketMessage::WebSocketReady {
                connection_id,
                upgrade_response,
            } => MessageView::WebSocketReady {
                connection_id: connection_id@,
                upgrade_response: upgrade_response@,
            },
            WebSocketMessage::WebSocketFrame {
                connection_id,
                data,
            } => MessageView::WebSocketFrame { connection_id: connection_id@, data: data@ },
            WebSocketMessage::WebSocketClose { connection_id } => MessageView::WebSocketClose {
                connection_id: connection_id@,
            },
            WebSocketMessage::WebSocketError {
                connection_id,
                error_response,
            } => MessageView::WebSocketError {
                connection_id: connection_id@,
                error_response: error_response@,
            },
        }
    }
}

/// The base64 text that a message carries, if it carries a payload.
pub open spec fn payload_of(m: MessageView) -> Option<Seq<char>> {
    match m {
        MessageView::Request { payload, .. } => Some(payload),
        MessageView::Response { payload, .. } => Some(payload),
        MessageView::WebSocketUpgrade { initial_request, .. } => Some(initial_request),
        MessageView::WebSocketReady { upgrade_response, .. } => Some(upgrade_response),
        MessageView::WebSocketFrame { data, .. } => Some(data),
        MessageView::WebSocketError { error_response, .. } => Some(error_response),
        _ => None,
    }
}

/// The message carries exactly the bytes `data`: its payload is base64 that
/// stands for them; a message without a payload carries no bytes.
pub open spec fn carries(m: MessageView, data: Option<Seq<u8>>) -> bool {
    match (payload_of(m), data) {
        (Some(p), Some(d)) => crate::encoding::base64_standard_decoded(p) == Some(d),
        (None, None) => true,
        _ => false,
    }
}

/// What precedes a value, then the value as a JSON string.
pub open spec fn text_member(lead: Seq<char>, value: Seq<char>) -> Seq<u8> {
    ascii_bytes(lead) + json_string_bytes(value)
}

/// What precedes a value, then the value as a JSON number.
pub open spec fn number_member(lead: Seq<char>, value: nat) -> Seq<u8> {
    ascii_bytes(lead) + decimal(value)
}

/// The closing brace.
pub open spec fn closing() -> Seq<u8> {
    ascii_bytes("}"@)
}

/// The JSON text of a message: `type` first, then the variant's members in the
/// order of their declaration, without white space.
pub open spec fn encoded(m: MessageView) -> Seq<u8> {
    match m {
        MessageView::Register { ticket, local_port } => text_member(
            "{\"type\":\"register\",\"ticket\":"@,
            ticket,
        ) + number_member(",\"local_port\":"@, local_port as nat) + closing(),
        MessageView::Ack { domain, url } => text_member("{\"type\":\"ack\",\"domain\":"@, domain)
            + text_member(",\"url\":"@, url) + closing(),
        MessageView::Request { request_id, payload } => number_member(
            "{\"type\":\"request\",\"request_id\":"@,
            request_id as nat,
        ) + text_member(",\"payload\":"@, payload) + closing(),
        MessageView::Response { request_id, payload } => number_member(
            "{\"type\":\"response\",\"request_id\":"@,
            request_id as nat,
        ) + text_member(",\"payload\":"@, payload) + closing(),
        MessageView::Error { message } => text_member("{\"type\":\"error\",\"message\":"@, message)
            + closing(),
        MessageView::Ping => ascii_bytes("{\"type\":\"ping\"}"@),
        MessageView::Pong => ascii_bytes("{\"type\":\"pong\"}"@),
        MessageView::WebSocketUpgrade { connection_id, initial_request } => text_member(
            "{\"type\":\"websocketupgrade\",\"connection_id\":"@,
            connection_id,
        ) + text_member(",\"initial_request\":"@, initial_request) + closing(),
        MessageView::WebSocketReady { connection_id, upgrade_response } => text_member(
            "{\"type\":\"websocketready\",\"connection_id\":"@,
            connection_id,
        ) + text_member(",\"upgrade_response\":"@, upgrade_response) + closing(),
        MessageView::WebSocketFrame { connection_id, data } => text_member(
            "{\"type\":\"websocketframe\",\"connection_id\":"@,
            connection_id,
        ) + text_member(",\"data\":"@, data) + closing(),
        MessageView::WebSocketClose { connection_id } => text_member(
            "{\"type\":\"websocketclose\",\"connection_id\":"@,
            connection_id,
        ) + closing(),
        MessageView::WebSocketError { connection_id, error_response } => text_member(
            "{\"type\":\"websocketerror\",\"connection_id\":"@,
            connection_id,
        ) + text_member(",\"error_response\":"@, error_response) + closing(),
    }
}

fn push_text(out: &mut Vec<u8>, lead: &str, value: &str)
    requires
        lead.is_ascii(),
    ensures
        final(out)@ == old(out)@ + text_member(lead@, value@),
{
    push_all(out, lit(lead));
    let q = json_quote(value);
    push_all(out, q.as_slice());
    assert(out@ =~= old(out)@ + text_member(lead@, value@));
}

fn push_number(out: &mut Vec<u8>, lead: &str, value: u64)
    requires
        lead.is_ascii(),
    ensures
        final(out)@ == old(out)@ + number_member(lead@, value as nat),
{
    push_all(out, lit(lead));
    push_decimal(out, value);
    assert(out@ =~= old(out)@ + number_member(lead@, value as nat));
}

fn push_closing(out: &mut Vec<u8>)
    ensures
        final(out)@ == old(out)@ + closing(),
{
    proof {
        reveal_strlit("}");
    }
    push_all(out, lit("}"));
}

/// Writes a message as JSON text.
pub fn encode_message(msg: &WebSocketMessage) -> (r: Vec<u8>)
    ensures
        r@ == encoded(msg@),
{
    let mut out: Vec<u8> = Vec::new();
    match msg {
        WebSocketMessage::Register { ticket, local_port } => {
            proof {
                reveal_strlit("{\"type\":\"register\",\"ticket\":");
                reveal_strlit(",\"local_port\":");
            }
            push_text(&mut out, "{\"type\":\"register\",\"ticket\":", ticket.as_str());
            push_number(&mut out, ",\"local_port\":", *local_port as u64);
            push_closing(&mut out);
        },
        WebSocketMessage::Ack { domain, url } => {
            proof {
                reveal_strlit("{\"type\":\"ack\",\"domain\":");
                reveal_strlit(",\"url\":");
            }
            push_text(&mut out, "{\"type\":\"ack\",\"domain\":", domain.as_str());
            push_text(&mut out, ",\"url\":", url.as_str());
            push_closing(&mut out);
        },
        WebSocketMessage::Request { request_id, payload } => {
            proof {
                reveal_strlit("{\"type\":\"request\",\"request_id\":");
                reveal_strlit(",\"payload\":");
            }
            push_number(&mut out, "{\"type\":\"request\",\"request_id\":", *request_id);
            push_text(&mut out, ",\"payload\":", payload.as_str());
            push_closing(&mut out);
        },
        WebSocketMessage::Response { request_id, payload } => {
            proof {
                reveal_strlit("{\"type\":\"response\",\"request_id\":");
                reveal_strlit(",\"payload\":");
            }
            push_number(&mut out, "{\"type\":\"response\",\"request_id\":", *request_id);
            push_text(&mut out, ",\"payload\":", payload.as_str());
            push_closing(&mut out);
        },
        WebSocketMessage::Error { message } => {
            proof {
                reveal_strlit("{\"type\":\"error\",\"message\":");
            }
            push_text(&mut out, "{\"type\":\"error\",\"message\":", message.as_str());
            push_closing(&mut out);
        },
        WebSocketMessage::Ping => {
            proof {
                reveal_strlit("{\"type\":\"ping\"}");
            }
            push_all(&mut out, lit("{\"type\":\"ping\"}"));
        },
        WebSocketMessage::Pong => {
            proof {
                reveal_strlit("{\"type\":\"pong\"}");
            }
            push_all(&mut out, lit("{\"type\":\"pong\"}"));
        },
        WebSocketMessage::WebSocketUpgrade { connection_id, initial_request } => {
            proof {
                reveal_strlit("{\"type\":\"websocketupgrade\",\"connection_id\":");
                reveal_strlit(",\"initial_request\":");
            }
            push_text(
                &mut out,
                "{\"type\":\"websocketupgrade\",\"connection_id\":",
                connection_id.as_str(),
            );
            push_text(&mut out, ",\"initial_request\":", initial_request.as_str());
            push_closing(&mut out);
        },
        WebSocketMessage::WebSocketReady { connection_id, upgrade_response } => {
            proof {
                reveal_strlit("{\"type\":\"websocketready\",\"connection_id\":");
                reveal_strlit(",\"upgrade_response\":");
            }
            push_text(
                &mut out,
                "{\"type\":\"websocketready\",\"connection_id\":",
                connection_id.as_str(),
            );
            push_text(&mut out, ",\"upgrade_response\":", upgrade_response.as_str());
            push_closing(&mut out);
        },
        WebSocketMessage::WebSocketFrame { connection_id, data } => {
            proof {
                reveal_strlit("{\"type\":\"websocketframe\",\"connection_id\":");
                reveal_strlit(",\"data\":");
            }
            push_text(
                &mut out,
                "{\"type\":\"websocketframe\",\"connection_id\":",
                connection_id.as_str(),
            );
            push_text(&mut out, ",\"data\":", data.as_str());
            push_closing(&mut out);
        },
        WebSocketMessage::WebSocketClose { connection_id } => {
            proof {
                reveal_strlit("{\"type\":\"websocketclose\",\"connection_id\":");
            }
            push_text(
                &mut out,
                "{\"type\":\"websocketclose\",\"connection_id\":",
                connection_id.as_str(),
            );
            push_closing(&mut out);
        },
        WebSocketMessage::WebSocketError { connection_id, error_response } => {
            proof {
                reveal_strlit("{\"type\":\"websocketerror\",\"connection_id\":");
                reveal_strlit(",\"error_response\":");
            }
            push_text(
                &mut out,
                "{\"type\":\"websocketerror\",\"connection_id\":",
                connection_id.as_str(),
            );
            push_text(&mut out, ",\"error_response\":", error_response.as_str());
            push_closing(&mut out);
        },
    }
    assert(out@ =~= encoded(msg@));
    out
}

/// A message with a connection identifier and one more text.
pub open spec fn two_texts(text: Seq<u8>, second: Seq<char>) -> Option<(Seq<char>, Seq<char>)> {
    match (required_text(text, "connection_id"@), required_text(text, second)) {
        (Some(a), Some(b)) => Some((a, b)),
        _ => None,
    }
}

/// A message with a request identifier and a payload.
pub open spec fn numbered_payload(text: Seq<u8>) -> Option<(u64, Seq<char>)> {
    match (
        required_integer(text, "request_id"@, 0, u64::MAX as int),
        required_text(text, "payload"@),
    ) {
        (Some(id), Some(p)) => Some((id as u64, p)),
        _ => None,
    }
}

/// The message that the JSON text `text` describes: an object whose `type` names
/// a variant and which holds that variant's members, each of its kind. Other
/// members are passed over.
pub open spec fn decoded(text: Seq<u8>) -> Option<MessageView> {
    match required_text(text, "type"@) {
        None => None,
        Some(tag) => if tag == "register"@ {
            match (
                required_text(text, "ticket"@),
                required_integer(text, "local_port"@, 0, 65535),
            ) {
                (Some(ticket), Some(port)) => Some(
                    MessageView::Register { ticket, local_port: port as u16 },
                ),
                _ => None,
            }
        } else if tag == "ack"@ {
            match (required_text(text, "domain"@), required_text(text, "url"@)) {
                (Some(domain), Some(url)) => Some(MessageView::Ack { domain, url }),
                _ => None,
            }
        } else if tag == "request"@ {
            match numbered_payload(text) {
                Some((request_id, payload)) => Some(MessageView::Request { request_id, payload }),
                None => None,
            }
        } else if tag == "response"@ {
            match numbered_payload(text) {
                Some((request_id, payload)) => Some(MessageView::Response { request_id, payload }),
                None => None,
            }
        } else if tag == "error"@ {
            match required_text(text, "message"@) {
                Some(message) => Some(MessageView::Error { message }),
                None => None,
            }
        } else if tag == "ping"@ {
            Some(MessageView::Ping)
        } else if tag == "pong"@ {
            Some(MessageView::Pong)
        } else if tag == "websocketupgrade"@ {
            match two_texts(text, "initial_request"@) {
                Some((connection_id, initial_request)) => Some(
                    MessageView::WebSocketUpgrade { connection_id, initial_request },
                ),
                None => None,
            }
        } else if tag == "websocketready"@ {
            match two_texts(text, "upgrade_response"@) {
                Some((connection_id, upgrade_response)) => Some(
                    MessageView::WebSocketReady { connection_id, upgrade_response },
                ),
                None => None,
            }
        } else if tag == "websocketframe"@ {
            match two_texts(text, "data"@) {
                Some((connection_id, data)) => Some(
                    MessageView::WebSocketFrame { connection_id, data },
                ),
                None => None,
            }
        } else if tag == "websocketclose"@ {
            match required_text(text, "connection_id"@) {
                Some(connection_id) => Some(MessageView::WebSocketClose { connection_id }),
                None => None,
            }
        } else if tag == "websocketerror"@ {
            match two_texts(text, "error_response"@) {
                Some((connection_id, error_response)) => Some(
                    MessageView::WebSocketError { connection_id, error_response },
                ),
                None => None,
            }
        } else {
            None
        },
    }
}

/// The view of a message that may be absent.
pub open spec fn message_view(m: Option<WebSocketMessage>) -> Option<MessageView> {
    match m {
        Some(m) => Some(m@),
        None => None,
    }
}

/// Whether two texts are the same.
pub fn same_text(a: &str, b: &str) -> (r: bool)
    ensures
        r == (a@ == b@),
{
    String::from_str(a) == String::from_str(b)
}

fn read_two_texts(text: &[u8], second: &str) -> (r: Option<(String, String)>)
    ensures
        match r {
            Some(p) => two_texts(text@, second@) == Some((p.0@, p.1@)),
            None => two_texts(text@, second@) is None,
        },
{
    match (read_required_text(text, "connection_id"), read_required_text(text, second)) {
        (Some(a), Some(b)) => Some((a, b)),
        _ => None,
    }
}

fn read_numbered_payload(text: &[u8]) -> (r: Option<(u64, String)>)
    ensures
        match r {
            Some(p) => numbered_payload(text@) == Some((p.0, p.1@)),
            None => numbered_payload(text@) is None,
        },
{
    match (
        read_required_integer(text, "request_id", 0, u64::MAX as i128),
        read_required_text(text, "payload"),
    ) {
        (Some(id), Some(p)) => Some((id as u64, p)),
        _ => None,
    }
}

/// Reads a message from its JSON text.
pub fn decode_message(text: &[u8]) -> (r: Option<WebSocketMessage>)
    ensures
        message_view(r) == decoded(text@),
{
    let tag = match read_required_text(text, "type") {
        Some(t) => t,
        None => {
            return None;
        },
    };
    let tag = tag.as_str();
    if same_text(tag, "register") {
        match (
            read_required_text(text, "ticket"),
            read_required_integer(text, "local_port", 0, 65535),
        ) {
            (Some(ticket), Some(port)) => Some(
                WebSocketMessage::Register { ticket, local_port: port as u16 },
            ),
            _ => None,
        }
    } else if same_text(tag, "ack") {
        match (read_required_text(text, "domain"), read_required_text(text, "url")) {
            (Some(domain), Some(url)) => Some(WebSocketMessage::Ack { domain, url }),
            _ => None,
        }
    } else if same_text(tag, "request") {
        match read_numbered_payload(text) {
            Some((request_id, payload)) => Some(WebSocketMessage::Request { request_id, payload }),
            None => None,
        }
    } else if same_text(tag, "response") {
        match read_numbered_payload(text) {
            Some((request_id, payload)) => Some(
                WebSocketMessage::Response { request_id, payload },
            ),
            None => None,
        }
    } else if same_text(tag, "error") {
        match read_required_text(text, "message") {
            Some(message) => Some(WebSocketMessage::Error { message }),
            None => None,
        }
    } else if same_text(tag, "ping") {
        Some(WebSocketMessage::Ping)
    } else if same_text(tag, "pong") {
        Some(WebSocketMessage::Pong)
    } else if same_text(tag, "websocketupgrade") {
        match read_two_texts(text, "initial_request") {
            Some((connection_id, initial_request)) => Some(
                WebSocketMessage::WebSocketUpgrade { connection_id, initial_request },
            ),
            None => None,
        }
    } else if same_text(tag, "websocketready") {
        match read_two_texts(text, "upgrade_response") {
            Some((connection_id, upgrade_response)) => Some(
                WebSocketMessage::WebSocketReady { connection_id, upgrade_response },
            ),
            None => None,
        }
    } else if same_text(tag, "websocketframe") {
        match read_two_texts(text, "data") {
            Some((connection_id, data)) => Some(
                WebSocketMessage::WebSocketFrame { connection_id, data },
            ),
            None => None,
        }
    } else if same_text(tag, "websocketclose") {
        match read_required_text(text, "connection_id") {
            Some(connection_id) => Some(WebSocketMessage::WebSocketClose { connection_id }),
            None => None,
        }
    } else if same_text(tag, "websocketerror") {
        match read_two_texts(text, "error_response") {
            Some((connection_id, error_response)) => Some(
                WebSocketMessage::WebSocketError { connection_id, error_response },
            ),
            None => None,
        }
    } else {
        None
    }
}

} // verus!
