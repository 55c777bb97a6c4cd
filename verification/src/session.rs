//! The relay's side of a control session: what to answer to a registration,
//! what to do with each message of the agent and of the edge, when to give the
//! agent up, and what to report when the session ends.
//!
//! The functions here decide; reading from and writing to the control channel,
//! the timers and the metadata service are the caller's part.

use tokio::sync::mpsc::Sender;
use vstd::prelude::*;
use vstd::string::StringExecFns;
use crate::encoding::{base64_decode, base64_encode, base64_standard, base64_standard_decoded};
use crate::protocol::{carries, decode_message, decoded, MessageView, WebSocketMessage};
use crate::registry::{
    full_url, requests_of_others, sockets_of_others, PendingRequest, TunnelMessage,
    TunnelMessageView, TunnelRegistry, WebSocketSinks,
};
use crate::ticket::{verdict, TicketError, TicketVerifier};

verus! {

/// Seconds between two pings.
pub const HEARTBEAT_INTERVAL_SECS: u64 = 30;

/// Seconds without a message from the agent at which the session is closed.
pub const CONNECTION_TIMEOUT_SECS: u64 = 90;

/// Seconds between two reports of the byte counters.
pub const STATS_INTERVAL_SECS: u64 = 60;

/// How many messages the queue from the edge into a session holds.
pub const COMMAND_QUEUE: usize = 100;

/// What to do with a connection after its first message.
pub enum Admission {
    /// Close without a word: the first message was no registration.
    Ignore,
    /// Send `reply`, then close.
    Refuse { reply: WebSocketMessage },
    /// Ask the metadata service for a session for this tunnel.
    Accept { user_id: String, domain: String, base_domain: String, local_port: u16 },
}

/// An `Admission` as mathematical values.
pub enum AdmissionView {
    Ignore,
    Refuse { reply: MessageView },
    Accept { user_id: Seq<char>, domain: Seq<char>, base_domain: Seq<char>, local_port: u16 },
}

impl View for Admission {
    type V = AdmissionView;

    open spec fn view(&self) -> AdmissionView {
        match self {
            Admission::Ignore => AdmissionView::Ignore,
            Admission::Refuse { reply } => AdmissionView::Refuse { reply: reply@ },
            Admission::Accept { user_id, domain, base_domain, local_port } => AdmissionView::Accept {
                user_id: user_id@,
                domain: domain@,
                base_domain: base_domain@,
                local_port: *local_port,
            },
        }
    }
}

/// The description of a ticket error.
pub open spec fn error_text(e: TicketError) -> Seq<char> {
    match e {
        TicketError::Malformed => "Ticket malformed"@,
        TicketError::Signature => "Invalid ticket signature"@,
        TicketError::Expired => "Ticket expired"@,
    }
}

/// An `Error` message with the given text.
pub open spec fn error_message(text: Seq<char>) -> MessageView {
    MessageView::Error { message: text }
}

/// The refusal of a subdomain that is taken.
pub open spec fn domain_in_use(domain: Seq<char>) -> MessageView {
    error_message("Domain '"@ + domain + "' is already in use on this relay"@)
}

/// What becomes of a connection whose first message is `first`, at time `now`,
/// when the tunnels `taken` are live: anything but a registration ends it without
/// a reply; a ticket that fails verification, that names no subdomain, or that
/// names one that is taken is answered with an `Error`; else the tunnel is
/// accepted, under the ticket's base domain or, where it has none, the relay's.
pub open spec fn admission(
    taken: Set<Seq<char>>,
    relay_domain: Seq<char>,
    secret: Seq<u8>,
    first: Seq<u8>,
    now: int,
) -> AdmissionView {
    match decoded(first) {
        Some(MessageView::Register { ticket, local_port }) => match verdict(secret, ticket, now) {
            Err(e) => AdmissionView::Refuse {
                reply: error_message("Authentication failed: "@ + error_text(e)),
            },
            Ok(p) => match p.subdomain {
                None => AdmissionView::Refuse {
                    reply: error_message("Invalid ticket: missing subdomain"@),
                },
                Some(d) => if taken.contains(d) {
                    AdmissionView::Refuse { reply: domain_in_use(d) }
                } else {
                    AdmissionView::Accept {
                        user_id: p.user_id,
                        domain: d,
                        base_domain: match p.base_domain {
                            Some(b) => b,
                            None => relay_domain,
                        },
                        local_port,
                    }
                },
            },
        },
        _ => AdmissionView::Ignore,
    }
}

fn join2(a: &str, b: &str) -> (r: String)
    ensures
        r@ == a@ + b@,
{
    let mut s = String::from_str(a);
    s.append(b);
    s
}

fn join3(a: &str, b: &str, c: &str) -> (r: String)
    ensures
        r@ == a@ + b@ + c@,
{
    let mut s = String::from_str(a);
    s.append(b);
    s.append(c);
    s
}

/// The `Error` message that refuses a subdomain that is taken.
pub fn domain_in_use_message(domain: &str) -> (r: WebSocketMessage)
    ensures
        r@ == domain_in_use(domain@),
{
    WebSocketMessage::Error {
        message: join3("Domain '", domain, "' is already in use on this relay"),
    }
}

/// Decides on a connection by its first message.
pub fn consider_registration(
    registry: &TunnelRegistry,
    verifier: &TicketVerifier,
    first: &[u8],
    now: i64,
) -> (r: Admission)
    ensures
        r@ == admission(
            registry.tunnels().dom(),
            registry.base_domain(),
            verifier.secret(),
            first@,
            now as int,
        ),
{
    let (ticket, local_port) = match decode_message(first) {
        Some(WebSocketMessage::Register { ticket, local_port }) => (ticket, local_port),
        _ => {
            return Admission::Ignore;
        },
    };
    let payload = match verifier.verify_at(ticket.as_str(), now) {
        Ok(p) => p,
        Err(e) => {
            let text = e.message();
            return Admission::Refuse {
                reply: WebSocketMessage::Error {
                    message: join2("Authentication failed: ", text.as_str()),
                },
            };
        },
    };
    let domain = match payload.subdomain {
        Some(d) => d,
        None => {
            return Admission::Refuse {
                reply: WebSocketMessage::Error {
                    message: String::from_str("Invalid ticket: missing subdomain"),
                },
            };
        },
    };
    if !registry.is_domain_available(domain.as_str()) {
        return Admission::Refuse { reply: domain_in_use_message(domain.as_str()) };
    }
    let base_domain = match payload.base_domain {
        Some(b) => b,
        None => String::from_str(registry.default_base_domain()),
    };
    Admission::Accept { user_id: payload.user_id, domain, base_domain, local_port }
}

/// The reply to an agent for whose tunnel the metadata service opened no session.
pub fn session_refused() -> (r: WebSocketMessage)
    ensures
        r@ == error_message("Failed to create tunnel session"@),
{
    WebSocketMessage::Error { message: String::from_str("Failed to create tunnel session") }
}

/// A running control session.
pub struct Session {
    /// The subdomain of the session's tunnel.
    pub domain: String,
    /// The session that the metadata service opened.
    pub session_id: String,
    /// Payload bytes sent to the agent so far.
    pub bytes_in: u64,
    /// Payload bytes received from the agent so far.
    pub bytes_out: u64,
    /// When the agent was last heard, in seconds of the caller's clock.
    pub last_message: u64,
}

/// What a session reports when it ends.
pub struct Closing {
    pub session_id: String,
    pub bytes_in: u64,
    pub bytes_out: u64,
}

/// `count` raised by `by`, stopping at the largest value.
pub open spec fn raised(count: u64, by: nat) -> u64 {
    if count + by > u64::MAX {
        u64::MAX
    } else {
        (count + by) as u64
    }
}

fn raise(count: u64, by: usize) -> (r: u64)
    ensures
        r == raised(count, by as nat),
{
    let by64: u64 = by as u64;
    if by64 > u64::MAX - count {
        u64::MAX
    } else {
        count + by64
    }
}

/// Opens the tunnel of an accepted agent once the metadata service has given it
/// a session: binds the subdomain and acknowledges. A subdomain that was taken
/// in the meantime is refused, and the registry stays as it is.
pub fn open_tunnel(
    registry: &mut TunnelRegistry,
    user_id: String,
    domain: String,
    base_domain: String,
    local_port: u16,
    session_id: String,
    request_tx: Sender<TunnelMessage>,
    now: u64,
) -> (r: Result<(Session, WebSocketMessage), WebSocketMessage>)
    requires
        old(registry).wf(),
    ensures
        final(registry).wf(),
        final(registry).same_pending(old(registry)),
        match r {
            Ok((session, ack)) => {
                &&& !old(registry).tunnels().dom().contains(domain@)
                &&& final(registry).tunnels().dom() == old(registry).tunnels().dom().insert(
                    domain@,
                )
                &&& forall|s: Seq<char>|
                    s != domain@ && old(registry).tunnels().dom().contains(s)
                        ==> #[trigger] final(registry).tunnels()[s] == old(registry).tunnels()[s]
                &&& final(registry).tunnels()[domain@].domain@ == domain@
                &&& final(registry).tunnels()[domain@].base_domain@ == base_domain@
                &&& final(registry).tunnels()[domain@].user_id@ == user_id@
                &&& final(registry).tunnels()[domain@].session_id@ == session_id@
                &&& final(registry).tunnels()[domain@].request_tx == request_tx
                &&& final(registry).tunnels()[domain@].local_port == local_port
                &&& ack@ == (MessageView::Ack {
                    domain: domain@,
                    url: full_url(domain@, base_domain@),
                })
                &&& session.domain@ == domain@
                &&& session.session_id@ == session_id@
                &&& session.bytes_in == 0
                &&& session.bytes_out == 0
                &&& session.last_message == now
            },
            Err(reply) => {
                &&& old(registry).tunnels().dom().contains(domain@)
                &&& final(registry).tunnels() == old(registry).tunnels()
                &&& reply@ == domain_in_use(domain@)
            },
        },
{
    let url = registry.get_full_url(domain.as_str(), base_domain.as_str());
    let session = Session {
        domain: domain.clone(),
        session_id: session_id.clone(),
        bytes_in: 0,
        bytes_out: 0,
        last_message: now,
    };
    let refusal = domain_in_use_message(domain.as_str());
    let ack = WebSocketMessage::Ack { domain: domain.clone(), url };
    match registry.register(domain, base_domain, user_id, session_id, request_tx, local_port) {
        Ok(_) => Ok((session, ack)),
        Err(_) => Err(refusal),
    }
}

/// The message that carries `m` to the agent: the same identifier, the payload
/// in base64.
pub open spec fn outgoing(m: TunnelMessageView) -> MessageView {
    match m {
        TunnelMessageView::HttpRequest { request_id, request_data } => MessageView::Request {
            request_id,
            payload: base64_standard(request_data),
        },
        TunnelMessageView::WebSocketUpgrade {
            connection_id,
            request_data,
        } => MessageView::WebSocketUpgrade {
            connection_id,
            initial_request: base64_standard(request_data),
        },
        TunnelMessageView::WebSocketFrame {
            connection_id,
            frame_data,
        } => MessageView::WebSocketFrame { connection_id, data: base64_standard(frame_data) },
        TunnelMessageView::WebSocketClose { connection_id } => MessageView::WebSocketClose {
            connection_id,
        },
    }
}

/// The bytes that `m` carries, if it carries any.
pub open spec fn data_of(m: TunnelMessageView) -> Option<Seq<u8>> {
    match m {
        TunnelMessageView::HttpRequest { request_data, .. } => Some(request_data),
        TunnelMessageView::WebSocketUpgrade { request_data, .. } => Some(request_data),
        TunnelMessageView::WebSocketFrame { frame_data, .. } => Some(frame_data),
        TunnelMessageView::WebSocketClose { .. } => None,
    }
}

/// The number of payload bytes that `m` carries.
pub open spec fn carried(m: TunnelMessageView) -> nat {
    match m {
        TunnelMessageView::HttpRequest { request_data, .. } => request_data.len(),
        TunnelMessageView::WebSocketUpgrade { request_data, .. } => request_data.len(),
        TunnelMessageView::WebSocketFrame { frame_data, .. } => frame_data.len(),
        TunnelMessageView::WebSocketClose { .. } => 0,
    }
}

/// What comes of a message of the agent.
pub enum Delivery {
    /// Nothing is to be sent on.
    Nothing,
    /// `data` is to be sent on `sink`.
    Deliver { sink: Sender<Vec<u8>>, data: Vec<u8> },
}

/// A `Delivery` as mathematical values.
pub enum DeliveryView {
    Nothing,
    Deliver { sink: Sender<Vec<u8>>, data: Seq<u8> },
}

impl View for Delivery {
    type V = DeliveryView;

    open spec fn view(&self) -> DeliveryView {
        match self {
            Delivery::Nothing => DeliveryView::Nothing,
            Delivery::Deliver { sink, data } => DeliveryView::Deliver { sink: *sink, data: data@ },
        }
    }
}

/// `data` on the sink of request `id`, if the request is pending.
pub open spec fn to_request(pending: Map<u64, PendingRequest>, id: u64, data: Seq<u8>)
    -> DeliveryView {
    if pending.dom().contains(id) {
        DeliveryView::Deliver { sink: pending[id].response_sink, data }
    } else {
        DeliveryView::Nothing
    }
}

/// What the text of an agent's message asks to deliver, given the pending
/// requests and the bridged connections: a response goes to the sink of its
/// request, the reply to an upgrade (accepted or refused) to the upgrade sink of
/// its connection, a frame to the frame sink of its connection. Nothing comes of
/// a message that cannot be read, of a payload that is no base64, of an
/// identifier that is not known, and of the other variants.
pub open spec fn delivery(
    pending: Map<u64, PendingRequest>,
    sockets: Map<Seq<char>, WebSocketSinks>,
    text: Seq<u8>,
) -> DeliveryView {
    match decoded(text) {
        Some(MessageView::Response { request_id, payload }) => match base64_standard_decoded(
            payload,
        ) {
            Some(data) => to_request(pending, request_id, data),
            None => DeliveryView::Nothing,
        },
        Some(MessageView::WebSocketReady { connection_id, upgrade_response }) => match (
            base64_standard_decoded(upgrade_response),
            sockets.dom().contains(connection_id),
        ) {
            (Some(data), true) => DeliveryView::Deliver {
                sink: sockets[connection_id].upgrade,
                data,
            },
            _ => DeliveryView::Nothing,
        },
        Some(MessageView::WebSocketError { connection_id, error_response }) => match (
            base64_standard_decoded(error_response),
            sockets.dom().contains(connection_id),
        ) {
            (Some(data), true) => DeliveryView::Deliver {
                sink: sockets[connection_id].upgrade,
                data,
            },
            _ => DeliveryView::Nothing,
        },
        Some(MessageView::WebSocketFrame { connection_id, data }) => match (
            base64_standard_decoded(data),
            sockets.dom().contains(connection_id),
        ) {
            (Some(data), true) => DeliveryView::Deliver {
                sink: sockets[connection_id].frames,
                data,
            },
            _ => DeliveryView::Nothing,
        },
        _ => DeliveryView::Nothing,
    }
}

/// The pending requests after a message of the agent: a response with a
/// readable payload takes its request out.
pub open spec fn pending_after(pending: Map<u64, PendingRequest>, text: Seq<u8>) -> Map<
    u64,
    PendingRequest,
> {
    match decoded(text) {
        Some(MessageView::Response { request_id, payload }) => if base64_standard_decoded(
            payload,
        ) is Some {
            pending.remove(request_id)
        } else {
            pending
        },
        _ => pending,
    }
}

/// The bridged connections after a message of the agent: a close and a refused
/// upgrade take their connection out.
pub open spec fn sockets_after(sockets: Map<Seq<char>, WebSocketSinks>, text: Seq<u8>) -> Map<
    Seq<char>,
    WebSocketSinks,
> {
    match decoded(text) {
        Some(MessageView::WebSocketClose { connection_id }) => sockets.remove(connection_id),
        Some(MessageView::WebSocketError { connection_id, .. }) => sockets.remove(connection_id),
        _ => sockets,
    }
}

/// The number of payload bytes that a message of the agent carries.
pub open spec fn received(text: Seq<u8>) -> nat {
    let payload = match decoded(text) {
        Some(MessageView::Response { payload, .. }) => Some(payload),
        Some(MessageView::WebSocketReady { upgrade_response, .. }) => Some(upgrade_response),
        Some(MessageView::WebSocketError { error_response, .. }) => Some(error_response),
        Some(MessageView::WebSocketFrame { data, .. }) => Some(data),
        _ => None,
    };
    match payload {
        Some(p) => match base64_standard_decoded(p) {
            Some(data) => data.len(),
            None => 0,
        },
        None => 0,
    }
}

impl Session {
    /// Seconds since the agent was last heard.
    pub open spec fn silence(&self, now: u64) -> int {
        if now >= self.last_message {
            now - self.last_message
        } else {
            0
        }
    }

    /// The heartbeat: `None` where the agent has been silent for ninety seconds or
    /// more and the session is to be closed, else the ping to send.
    pub fn on_heartbeat(&self, now: u64) -> (r: Option<WebSocketMessage>)
        ensures
            r is None <==> self.silence(now) >= CONNECTION_TIMEOUT_SECS,
            r is Some ==> r.unwrap()@ == MessageView::Ping,
    {
        let silent: u64 = if now >= self.last_message {
            now - self.last_message
        } else {
            0
        };
        if silent >= CONNECTION_TIMEOUT_SECS {
            None
        } else {
            Some(WebSocketMessage::Ping)
        }
    }

    /// The byte counters, for the periodic report.
    pub fn stats(&self) -> (r: (u64, u64))
        ensures
            r == (self.bytes_in, self.bytes_out),
    {
        (self.bytes_in, self.bytes_out)
    }

    /// Takes a message of the edge: counts its payload and gives the message that
    /// carries it to the agent, from which the agent reads back the very bytes
    /// that the edge queued. `None` only for a payload too long to be encoded on
    /// this machine.
    pub fn on_edge_message(&mut self, msg: TunnelMessage) -> (r: Option<WebSocketMessage>)
        ensures
            final(self).bytes_in == raised(old(self).bytes_in, carried(msg@)),
            final(self).bytes_out == old(self).bytes_out,
            final(self).last_message == old(self).last_message,
            final(self).domain == old(self).domain,
            final(self).session_id == old(self).session_id,
            r is None <==> carried(msg@) > usize::MAX / 2,
            r is Some ==> r.unwrap()@ == outgoing(msg@),
            r is Some ==> carries(r.unwrap()@, data_of(msg@)),
    {
        match msg {
            TunnelMessage::HttpRequest { request_id, request_data } => {
                self.bytes_in = raise(self.bytes_in, request_data.len());
                if request_data.len() > usize::MAX / 2 {
                    return None;
                }
                Some(
                    WebSocketMessage::Request {
                        request_id,
                        payload: base64_encode(request_data.as_slice()),
                    },
                )
            },
            TunnelMessage::WebSocketUpgrade { connection_id, request_data } => {
                self.bytes_in = raise(self.bytes_in, request_data.len());
                if request_data.len() > usize::MAX / 2 {
                    return None;
                }
                Some(
                    WebSocketMessage::WebSocketUpgrade {
                        connection_id,
                        initial_request: base64_encode(request_data.as_slice()),
                    },
                )
            },
            TunnelMessage::WebSocketFrame { connection_id, frame_data } => {
                self.bytes_in = raise(self.bytes_in, frame_data.len());
                if frame_data.len() > usize::MAX / 2 {
                    return None;
                }
                Some(
                    WebSocketMessage::WebSocketFrame {
                        connection_id,
                        data: base64_encode(frame_data.as_slice()),
                    },
                )
            },
            TunnelMessage::WebSocketClose { connection_id } => {
                self.bytes_in = raise(self.bytes_in, 0);
                Some(WebSocketMessage::WebSocketClose { connection_id })
            },
        }
    }

    /// Takes the text of a message of the agent at time `now`: notes that the
    /// agent was heard, counts the payload, and finds the sink on which the
    /// payload is to go. The request of a response leaves the registry with the
    /// finding of its sink, so a second response to it finds none; a close and a
    /// refused upgrade take their connection out of the registry.
    pub fn on_agent_message(&mut self, registry: &mut TunnelRegistry, text: &[u8], now: u64) -> (r:
        Delivery)
        ensures
            r@ == delivery(
                old(registry).pending_requests(),
                old(registry).pending_websockets(),
                text@,
            ),
            final(registry).pending_requests() == pending_after(
                old(registry).pending_requests(),
                text@,
            ),
            final(registry).pending_websockets() == sockets_after(
                old(registry).pending_websockets(),
                text@,
            ),
            final(registry).tunnels() == old(registry).tunnels(),
            final(registry).upcoming_request_id() == old(registry).upcoming_request_id(),
            final(registry).upcoming_connection_number() == old(
                registry,
            ).upcoming_connection_number(),
            final(registry).base_domain() == old(registry).base_domain(),
            final(self).bytes_out == raised(old(self).bytes_out, received(text@)),
            final(self).bytes_in == old(self).bytes_in,
            final(self).last_message == now,
            final(self).domain == old(self).domain,
            final(self).session_id == old(self).session_id,
    {
        self.last_message = now;
        match decode_message(text) {
            Some(WebSocketMessage::Response { request_id, payload }) => {
                match base64_decode(payload.as_str()) {
                    Some(data) => {
                        self.bytes_out = raise(self.bytes_out, data.len());
                        match registry.take_pending_request(request_id) {
                            Some(sink) => Delivery::Deliver { sink, data },
                            None => Delivery::Nothing,
                        }
                    },
                    None => {
                        self.bytes_out = raise(self.bytes_out, 0);
                        Delivery::Nothing
                    },
                }
            },
            Some(WebSocketMessage::WebSocketReady { connection_id, upgrade_response }) => {
                match base64_decode(upgrade_response.as_str()) {
                    Some(data) => {
                        self.bytes_out = raise(self.bytes_out, data.len());
                        match registry.websocket_sinks(connection_id.as_str()) {
                            Some(sinks) => Delivery::Deliver { sink: sinks.upgrade, data },
                            None => Delivery::Nothing,
                        }
                    },
                    None => {
                        self.bytes_out = raise(self.bytes_out, 0);
                        Delivery::Nothing
                    },
                }
            },
            Some(WebSocketMessage::WebSocketError { connection_id, error_response }) => {
                let found = registry.websocket_sinks(connection_id.as_str());
                registry.remove_websocket(connection_id.as_str());
                match base64_decode(error_response.as_str()) {
                    Some(data) => {
                        self.bytes_out = raise(self.bytes_out, data.len());
                        match found {
                            Some(sinks) => Delivery::Deliver { sink: sinks.upgrade, data },
                            None => Delivery::Nothing,
                        }
                    },
                    None => {
                        self.bytes_out = raise(self.bytes_out, 0);
                        Delivery::Nothing
                    },
                }
            },
            Some(WebSocketMessage::WebSocketFrame { connection_id, data }) => {
                match base64_decode(data.as_str()) {
                    Some(bytes) => {
                        self.bytes_out = raise(self.bytes_out, bytes.len());
                        match registry.websocket_sinks(connection_id.as_str()) {
                            Some(sinks) => Delivery::Deliver { sink: sinks.frames, data: bytes },
                            None => Delivery::Nothing,
                        }
                    },
                    None => {
                        self.bytes_out = raise(self.bytes_out, 0);
                        Delivery::Nothing
                    },
                }
            },
            Some(WebSocketMessage::WebSocketClose { connection_id }) => {
                registry.remove_websocket(connection_id.as_str());
                self.bytes_out = raise(self.bytes_out, 0);
                Delivery::Nothing
            },
            _ => {
                self.bytes_out = raise(self.bytes_out, 0);
                Delivery::Nothing
            },
        }
    }

    /// Ends the session: releases its subdomain, drops the requests that await a
    /// response from its agent and the connections that it bridges, and gives what
    /// is to be reported to the metadata service. With its entry a waiting request
    /// loses its sink, so the edge that waits for the response finds the queue
    /// closed and answers that the agent is gone. What waits on other tunnels
    /// stays.
    pub fn close(self, registry: &mut TunnelRegistry) -> (r: Closing)
        requires
            old(registry).wf(),
        ensures
            final(registry).wf(),
            final(registry).tunnels() == old(registry).tunnels().remove(self.domain@),
            final(registry).pending_requests() == requests_of_others(
                old(registry).pending_requests(),
                self.domain@,
            ),
            final(registry).pending_websockets() == sockets_of_others(
                old(registry).pending_websockets(),
                self.domain@,
            ),
            final(registry).upcoming_request_id() == old(registry).upcoming_request_id(),
            final(registry).upcoming_connection_number() == old(
                registry,
            ).upcoming_connection_number(),
            final(registry).base_domain() == old(registry).base_domain(),
            r.session_id == self.session_id,
            r.bytes_in == self.bytes_in,
            r.bytes_out == self.bytes_out,
    {
        registry.remove(self.domain.as_str());
        registry.release_pending(self.domain.as_str());
        Closing { session_id: self.session_id, bytes_in: self.bytes_in, bytes_out: self.bytes_out }
    }
}

/// A byte counter never goes down.
pub proof fn law_counters_monotonic(count: u64, by: nat)
    ensures
        raised(count, by) >= count,
{
}

/// The frames for connection `c` among the messages from `i` on, in their order.
pub open spec fn frames_queued(events: Seq<TunnelMessageView>, c: Seq<char>, i: int) -> Seq<
    Seq<u8>,
>
    decreases events.len() - i,
{
    if i < 0 || i >= events.len() {
        Seq::empty()
    } else {
        match events[i] {
            TunnelMessageView::WebSocketFrame { connection_id, frame_data } => if connection_id
                == c {
                seq![frame_data] + frames_queued(events, c, i + 1)
            } else {
                frames_queued(events, c, i + 1)
            },
            _ => frames_queued(events, c, i + 1),
        }
    }
}

/// The payloads of the frames for connection `c` among the messages that carry
/// the messages from `i` on to the agent, in their order.
pub open spec fn frames_sent(events: Seq<TunnelMessageView>, c: Seq<char>, i: int) -> Seq<
    Seq<char>,
>
    decreases events.len() - i,
{
    if i < 0 || i >= events.len() {
        Seq::empty()
    } else {
        match outgoing(events[i]) {
            MessageView::WebSocketFrame { connection_id, data } => if connection_id == c {
                seq![data] + frames_sent(events, c, i + 1)
            } else {
                frames_sent(events, c, i + 1)
            },
            _ => frames_sent(events, c, i + 1),
        }
    }
}

/// The base64 texts of a sequence of byte strings.
pub open spec fn all_encoded(frames: Seq<Seq<u8>>) -> Seq<Seq<char>> {
    Seq::new(frames.len(), |k: int| base64_standard(frames[k]))
}

/// Frames go to the agent in the order in which the edge queued them: the
/// frames of each connection among the messages sent are the frames of that
/// connection among the messages queued, one for one and in the same order.
pub proof fn law_frames_to_agent_keep_order(events: Seq<TunnelMessageView>, c: Seq<char>, i: int)
    requires
        0 <= i,
    ensures
        frames_sent(events, c, i) == all_encoded(frames_queued(events, c, i)),
    decreases events.len() - i,
{
    if i < events.len() {
        law_frames_to_agent_keep_order(events, c, i + 1);
        let rest = frames_queued(events, c, i + 1);
        match events[i] {
            TunnelMessageView::WebSocketFrame { connection_id, frame_data } => {
                if connection_id == c {
                    assert(all_encoded(seq![frame_data] + rest) =~= seq![
                        base64_standard(frame_data),
                    ] + all_encoded(rest));
                }
            },
            _ => {},
        }
    } else {
        assert(all_encoded(Seq::<Seq<u8>>::empty()) =~= Seq::<Seq<char>>::empty());
    }
}

/// The payload of the frame for connection `c` that `text` holds, if it holds
/// one.
pub open spec fn frame_for(text: Seq<u8>, c: Seq<char>) -> Option<Seq<u8>> {
    match decoded(text) {
        Some(MessageView::WebSocketFrame { connection_id, data }) => if connection_id == c {
            base64_standard_decoded(data)
        } else {
            None
        },
        _ => None,
    }
}

/// Whether `text` takes connection `c` out of the registry.
pub open spec fn ends_connection(text: Seq<u8>, c: Seq<char>) -> bool {
    match decoded(text) {
        Some(MessageView::WebSocketClose { connection_id }) => connection_id == c,
        Some(MessageView::WebSocketError { connection_id, .. }) => connection_id == c,
        _ => false,
    }
}

/// The bridged connections after the first `n` of the agent's messages.
pub open spec fn sockets_at(
    sockets: Map<Seq<char>, WebSocketSinks>,
    texts: Seq<Seq<u8>>,
    n: int,
) -> Map<Seq<char>, WebSocketSinks>
    decreases n,
{
    if n <= 0 || n > texts.len() {
        sockets
    } else {
        sockets_after(sockets_at(sockets, texts, n - 1), texts[n - 1])
    }
}

/// The pending requests after the first `n` of the agent's messages.
pub open spec fn pending_at(
    pending: Map<u64, PendingRequest>,
    texts: Seq<Seq<u8>>,
    n: int,
) -> Map<u64, PendingRequest>
    decreases n,
{
    if n <= 0 || n > texts.len() {
        pending
    } else {
        pending_after(pending_at(pending, texts, n - 1), texts[n - 1])
    }
}

/// What comes of the `n`-th of the agent's messages when they are taken in their
/// order from a registry with the given tables.
pub open spec fn delivery_at(
    pending: Map<u64, PendingRequest>,
    sockets: Map<Seq<char>, WebSocketSinks>,
    texts: Seq<Seq<u8>>,
    n: int,
) -> DeliveryView {
    delivery(pending_at(pending, texts, n), sockets_at(sockets, texts, n), texts[n])
}

/// Frames go to the browser in the order in which the agent sent them: of a
/// connection that is bridged and not ended, every frame is delivered when its
/// message is taken, with its payload, on the frame queue of the connection. So
/// of two frames of one connection the earlier is first on that queue.
pub proof fn law_frames_to_browser_keep_order(
    pending: Map<u64, PendingRequest>,
    sockets: Map<Seq<char>, WebSocketSinks>,
    texts: Seq<Seq<u8>>,
    c: Seq<char>,
    n: int,
)
    requires
        0 <= n < texts.len(),
        sockets.dom().contains(c),
        forall|k: int| 0 <= k < n ==> !ends_connection(#[trigger] texts[k], c),
        frame_for(texts[n], c) is Some,
    ensures
        delivery_at(pending, sockets, texts, n) == (DeliveryView::Deliver {
            sink: sockets[c].frames,
            data: frame_for(texts[n], c).unwrap(),
        }),
{
    lemma_connection_stays(sockets, texts, c, n);
}

proof fn lemma_connection_stays(
    sockets: Map<Seq<char>, WebSocketSinks>,
    texts: Seq<Seq<u8>>,
    c: Seq<char>,
    n: int,
)
    requires
        0 <= n <= texts.len(),
        sockets.dom().contains(c),
        forall|k: int| 0 <= k < n ==> !ends_connection(#[trigger] texts[k], c),
    ensures
        sockets_at(sockets, texts, n).dom().contains(c),
        sockets_at(sockets, texts, n)[c] == sockets[c],
    decreases n,
{
    if n > 0 {
        lemma_connection_stays(sockets, texts, c, n - 1);
        assert(!ends_connection(texts[n - 1], c));
    }
}

/// A response is delivered at most once: after the message that carries a
/// readable response to a request, the request is not pending, so nothing comes
/// of a second response to it.
pub proof fn law_response_delivered_once(
    pending: Map<u64, PendingRequest>,
    sockets: Map<Seq<char>, WebSocketSinks>,
    first: Seq<u8>,
    second: Seq<u8>,
    id: u64,
)
    requires
        decoded(first) matches Some(MessageView::Response { request_id, payload }) && request_id
            == id && base64_standard_decoded(payload) is Some,
        decoded(second) matches Some(MessageView::Response { request_id, .. }) && request_id == id,
    ensures
        delivery(pending_after(pending, first), sockets_after(sockets, first), second)
            == DeliveryView::Nothing,
{
}

/// Once a session has ended, nothing comes of a response to one of its
/// requests: the request left the registry with the session.
pub proof fn law_ended_session_delivers_nothing(
    pending: Map<u64, PendingRequest>,
    sockets: Map<Seq<char>, WebSocketSinks>,
    domain: Seq<char>,
    text: Seq<u8>,
    id: u64,
)
    requires
        decoded(text) matches Some(MessageView::Response { request_id, .. }) && request_id == id,
        pending.dom().contains(id) ==> pending[id].domain@ == domain,
    ensures
        delivery(requests_of_others(pending, domain), sockets_of_others(sockets, domain), text)
            == DeliveryView::Nothing,
{
}

} // verus!
