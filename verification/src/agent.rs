//! The agent's side of the control channel: how it registers, what it does with
//! each message of the relay, and how it bridges a WebSocket connection to the
//! local service.
//!
//! The functions here decide; the control channel, the sockets to the local
//! service and the tasks that serve them are the caller's part.

use dashmap::DashMap;
use tokio::sync::mpsc::Sender;
use vstd::prelude::*;
use vstd::string::StringExecFns;
use crate::bytes::{ascii_bytes, eq_at, has_prefix, lit, push_all};
use crate::encoding::{base64_decode, base64_encode, base64_standard, base64_standard_decoded};
use crate::http::{find_headers_end, headers_end};
use crate::protocol::{carries, decode_message, decoded, MessageView, WebSocketMessage};

verus! {

/// A request that the relay sent to be replayed.
#[derive(Debug)]
pub struct IncomingRequest {
    pub id: u64,
    pub payload: Vec<u8>,
}

/// A response on its way to the relay.
pub struct OutgoingResponse {
    pub id: u64,
    pub payload: Vec<u8>,
}

/// An upgrade that the relay sent to be replayed.
#[derive(Debug)]
pub struct WebSocketUpgradeRequest {
    pub connection_id: String,
    pub initial_request: Vec<u8>,
}

/// The most bytes of a reply to an upgrade that are read.
pub const MAX_UPGRADE_REPLY: usize = 8192;

/// The most bytes that are read at once from the local service on a bridge.
pub const BRIDGE_CHUNK: usize = 8192;

/// How many messages each of the agent's queues holds.
pub const AGENT_QUEUE: usize = 100;

/// The sinks of the agent's bridges, by connection identifier.
pub uninterp spec fn bridge_entries(table: DashMap<String, Sender<Vec<u8>>>) -> Map<
    Seq<char>,
    Sender<Vec<u8>>,
>;

/// `DashMap::new`: a table without entries.
#[verifier::external_body]
fn new_bridge_table() -> (r: DashMap<String, Sender<Vec<u8>>>)
    ensures
        bridge_entries(r).dom() == Set::<Seq<char>>::empty(),
{
    DashMap::new()
}

/// `DashMap::insert`: afterwards `key` leads to `sink`, the other entries are as
/// before.
#[verifier::external_body]
fn bridge_table_insert(table: &mut DashMap<String, Sender<Vec<u8>>>, key: String, sink: Sender<Vec<u8>>)
    ensures
        bridge_entries(*final(table)) == bridge_entries(*old(table)).insert(key@, sink),
{
    table.insert(key, sink);
}

/// `DashMap::get`, then `Sender::clone`: another handle on the queue stored
/// under `key`, if there is an entry.
#[verifier::external_body]
fn bridge_table_get(table: &DashMap<String, Sender<Vec<u8>>>, key: &str) -> (r: Option<Sender<Vec<u8>>>)
    ensures
        r.is_some() == bridge_entries(*table).dom().contains(key@),
        r.is_some() ==> r.unwrap() == bridge_entries(*table)[key@],
{
    table.get(key).map(|entry| entry.value().clone())
}

/// `DashMap::remove`: afterwards the table has no entry under `key`, the other
/// entries are as before.
#[verifier::external_body]
fn bridge_table_remove(table: &mut DashMap<String, Sender<Vec<u8>>>, key: &str)
    ensures
        bridge_entries(*final(table)) == bridge_entries(*old(table)).remove(key@),
{
    table.remove(key);
}

/// The agent's bridges: for each bridged connection the queue into the task
/// that writes to the local service.
pub struct Bridges {
    table: DashMap<String, Sender<Vec<u8>>>,
}

impl Bridges {
    /// The sinks of the bridges, by connection identifier.
    pub closed spec fn entries(&self) -> Map<Seq<char>, Sender<Vec<u8>>> {
        bridge_entries(self.table)
    }

    /// No bridges.
    pub fn new() -> (r: Self)
        ensures
            r.entries().dom() == Set::<Seq<char>>::empty(),
    {
        Bridges { table: new_bridge_table() }
    }

    /// Enters the bridge of `connection_id`.
    pub fn register(&mut self, connection_id: String, sink: Sender<Vec<u8>>)
        ensures
            final(self).entries() == old(self).entries().insert(connection_id@, sink),
    {
        bridge_table_insert(&mut self.table, connection_id, sink);
    }

    /// The sink of the bridge of `connection_id`.
    pub fn sink(&self, connection_id: &str) -> (r: Option<Sender<Vec<u8>>>)
        ensures
            r.is_some() == self.entries().dom().contains(connection_id@),
            r.is_some() ==> r.unwrap() == self.entries()[connection_id@],
    {
        bridge_table_get(&self.table, connection_id)
    }

    /// Forgets the bridge of `connection_id`.
    pub fn release(&mut self, connection_id: &str)
        ensures
            final(self).entries() == old(self).entries().remove(connection_id@),
    {
        bridge_table_remove(&mut self.table, connection_id);
    }
}

/// The message by which the agent asks for its tunnel.
pub fn registration(ticket: &str, local_port: u16) -> (r: WebSocketMessage)
    ensures
        r@ == (MessageView::Register { ticket: ticket@, local_port }),
{
    WebSocketMessage::Register { ticket: ticket.to_string(), local_port }
}

/// What the relay's reply means for the registration.
pub enum Registration {
    /// The tunnel is open at `url`.
    Accepted { url: String },
    /// The relay refused, for the reason in `message`.
    Refused { message: String },
    /// The reply is neither; the agent goes on waiting.
    Pending,
    /// The reply cannot be read; the agent gives up.
    Unreadable,
}

/// A `Registration` as mathematical values.
pub enum RegistrationView {
    Accepted { url: Seq<char> },
    Refused { message: Seq<char> },
    Pending,
    Unreadable,
}

impl View for Registration {
    type V = RegistrationView;

    open spec fn view(&self) -> RegistrationView {
        match self {
            Registration::Accepted { url } => RegistrationView::Accepted { url: url@ },
            Registration::Refused { message } => RegistrationView::Refused { message: message@ },
            Registration::Pending => RegistrationView::Pending,
            Registration::Unreadable => RegistrationView::Unreadable,
        }
    }
}

/// What a reply of the relay means for the registration: an `Ack` opens the
/// tunnel, an `Error` refuses it, any other message is passed over.
pub open spec fn registration_reply(text: Seq<u8>) -> RegistrationView {
    match decoded(text) {
        Some(MessageView::Ack { url, .. }) => RegistrationView::Accepted { url },
        Some(MessageView::Error { message }) => RegistrationView::Refused {
            message: "Registration failed: "@ + message,
        },
        Some(_) => RegistrationView::Pending,
        None => RegistrationView::Unreadable,
    }
}

/// Reads a reply of the relay while the agent waits for its tunnel.
pub fn on_registration_reply(text: &[u8]) -> (r: Registration)
    ensures
        r@ == registration_reply(text@),
{
    match decode_message(text) {
        Some(WebSocketMessage::Ack { domain, url }) => Registration::Accepted { url },
        Some(WebSocketMessage::Error { message }) => {
            let mut text = String::from_str("Registration failed: ");
            text.append(message.as_str());
            Registration::Refused { message: text }
        },
        Some(_) => Registration::Pending,
        None => Registration::Unreadable,
    }
}

/// What the agent does with a message of the relay.
pub enum AgentStep {
    /// Nothing.
    Ignore,
    /// Replay the request against the local service and send back what comes.
    Forward(IncomingRequest),
    /// Open a bridge to the local service.
    StartBridge(WebSocketUpgradeRequest),
    /// Send `data` on `sink`, into the bridge of `connection_id`.
    ToBridge { connection_id: String, sink: Sender<Vec<u8>>, data: Vec<u8> },
    /// Send `reply` to the relay.
    Reply(WebSocketMessage),
    /// Leave the control loop: the relay reported an error.
    Stop,
}

/// An `AgentStep` as mathematical values.
pub enum AgentStepView {
    Ignore,
    Forward { id: u64, payload: Seq<u8> },
    StartBridge { connection_id: Seq<char>, initial_request: Seq<u8> },
    ToBridge { connection_id: Seq<char>, sink: Sender<Vec<u8>>, data: Seq<u8> },
    Reply(MessageView),
    Stop,
}

impl View for AgentStep {
    type V = AgentStepView;

    open spec fn view(&self) -> AgentStepView {
        match self {
            AgentStep::Ignore => AgentStepView::Ignore,
            AgentStep::Forward(r) => AgentStepView::Forward { id: r.id, payload: r.payload@ },
            AgentStep::StartBridge(u) => AgentStepView::StartBridge {
                connection_id: u.connection_id@,
                initial_request: u.initial_request@,
            },
            AgentStep::ToBridge { connection_id, sink, data } => AgentStepView::ToBridge {
                connection_id: connection_id@,
                sink: *sink,
                data: data@,
            },
            AgentStep::Reply(m) => AgentStepView::Reply(m@),
            AgentStep::Stop => AgentStepView::Stop,
        }
    }
}

/// What the agent does with the text of a message of the relay, given its
/// bridges: a request is replayed, an upgrade opens a bridge, a frame goes into
/// the bridge of its connection if there is one, a ping is answered with a pong,
/// an error ends the loop. Nothing comes of a message that cannot be read, of a
/// payload that is no base64, of a frame for a connection without a bridge, and
/// of the other variants.
pub open spec fn agent_step(bridges: Map<Seq<char>, Sender<Vec<u8>>>, text: Seq<u8>)
    -> AgentStepView {
    match decoded(text) {
        Some(MessageView::Request { request_id, payload }) => match base64_standard_decoded(
            payload,
        ) {
            Some(data) => AgentStepView::Forward { id: request_id, payload: data },
            None => AgentStepView::Ignore,
        },
        Some(MessageView::WebSocketUpgrade { connection_id, initial_request }) => match
            base64_standard_decoded(initial_request) {
            Some(data) => AgentStepView::StartBridge { connection_id, initial_request: data },
            None => AgentStepView::Ignore,
        },
        Some(MessageView::WebSocketFrame { connection_id, data }) => match (
            bridges.dom().contains(connection_id),
            base64_standard_decoded(data),
        ) {
            (true, Some(bytes)) => AgentStepView::ToBridge {
                connection_id,
                sink: bridges[connection_id],
                data: bytes,
            },
            _ => AgentStepView::Ignore,
        },
        Some(MessageView::Ping) => AgentStepView::Reply(MessageView::Pong),
        Some(MessageView::Error { .. }) => AgentStepView::Stop,
        _ => AgentStepView::Ignore,
    }
}

/// The bridges after a message of the relay: a close takes its bridge out.
pub open spec fn bridges_after(bridges: Map<Seq<char>, Sender<Vec<u8>>>, text: Seq<u8>) -> Map<
    Seq<char>,
    Sender<Vec<u8>>,
> {
    match decoded(text) {
        Some(MessageView::WebSocketClose { connection_id }) => bridges.remove(connection_id),
        _ => bridges,
    }
}

/// Decides what to do with a message of the relay.
pub fn on_relay_message(bridges: &mut Bridges, text: &[u8]) -> (r: AgentStep)
    ensures
        r@ == agent_step(old(bridges).entries(), text@),
        final(bridges).entries() == bridges_after(old(bridges).entries(), text@),
{
    match decode_message(text) {
        Some(WebSocketMessage::Request { request_id, payload }) => {
            match base64_decode(payload.as_str()) {
                Some(data) => AgentStep::Forward(IncomingRequest { id: request_id, payload: data }),
                None => AgentStep::Ignore,
            }
        },
        Some(WebSocketMessage::WebSocketUpgrade { connection_id, initial_request }) => {
            match base64_decode(initial_request.as_str()) {
                Some(data) => AgentStep::StartBridge(
                    WebSocketUpgradeRequest { connection_id, initial_request: data },
                ),
                None => AgentStep::Ignore,
            }
        },
        Some(WebSocketMessage::WebSocketFrame { connection_id, data }) => {
            match bridges.sink(connection_id.as_str()) {
                Some(sink) => match base64_decode(data.as_str()) {
                    Some(bytes) => AgentStep::ToBridge { connection_id, sink, data: bytes },
                    None => AgentStep::Ignore,
                },
                None => AgentStep::Ignore,
            }
        },
        Some(WebSocketMessage::WebSocketClose { connection_id }) => {
            bridges.release(connection_id.as_str());
            AgentStep::Ignore
        },
        Some(WebSocketMessage::Ping) => AgentStep::Reply(WebSocketMessage::Pong),
        Some(WebSocketMessage::Error { message }) => AgentStep::Stop,
        _ => AgentStep::Ignore,
    }
}

/// The message that carries a response to the relay, from which the relay reads
/// back the very bytes of the response. `None` only for a response too long to
/// be encoded on this machine.
pub fn response_message(response: &OutgoingResponse) -> (r: Option<WebSocketMessage>)
    ensures
        r is None <==> response.payload@.len() > usize::MAX / 2,
        r is Some ==> r.unwrap()@ == (MessageView::Response {
            request_id: response.id,
            payload: base64_standard(response.payload@),
        }),
        r is Some ==> carries(r.unwrap()@, Some(response.payload@)),
{
    if response.payload.len() > usize::MAX / 2 {
        return None;
    }
    Some(
        WebSocketMessage::Response {
            request_id: response.id,
            payload: base64_encode(response.payload.as_slice()),
        },
    )
}

/// How far the reading of the local service's reply to an upgrade has come.
#[derive(Clone, Copy, Debug, PartialEq, Eq, Structural)]
pub enum ReplyProgress {
    /// The head of the reply has ended.
    Complete,
    /// The head is longer than allowed, ended or not.
    TooLarge,
    /// The head has not ended.
    NeedMore,
}

/// How far the reading of a reply has come when `buf` was read: complete as
/// soon as the empty line is there, if the head with its empty line is at most
/// 8192 bytes long; too large if it is longer, and above 8192 bytes without the
/// empty line.
pub open spec fn reply_progress(buf: Seq<u8>) -> ReplyProgress {
    if headers_end(buf) is Some {
        if headers_end(buf).unwrap() + 4 > MAX_UPGRADE_REPLY {
            ReplyProgress::TooLarge
        } else {
            ReplyProgress::Complete
        }
    } else if buf.len() > MAX_UPGRADE_REPLY {
        ReplyProgress::TooLarge
    } else {
        ReplyProgress::NeedMore
    }
}

/// Adds what was read from the local service to its reply to an upgrade.
pub fn feed_upgrade_reply(buffer: &mut Vec<u8>, chunk: &[u8]) -> (r: ReplyProgress)
    ensures
        final(buffer)@ == old(buffer)@ + chunk@,
        r == reply_progress(final(buffer)@),
{
    push_all(buffer, chunk);
    match find_headers_end(buffer.as_slice()) {
        Some(he) => {
            return if he > MAX_UPGRADE_REPLY - 4 {
                ReplyProgress::TooLarge
            } else {
                ReplyProgress::Complete
            };
        },
        None => {},
    }
    if buffer.len() > MAX_UPGRADE_REPLY {
        ReplyProgress::TooLarge
    } else {
        ReplyProgress::NeedMore
    }
}

/// Whether the local service agreed to the upgrade: its reply begins with
/// `HTTP/1.1 101`.
pub open spec fn switches_protocols(reply: Seq<u8>) -> bool {
    has_prefix(reply, ascii_bytes("HTTP/1.1 101"@))
}

/// The message that carries the local service's reply to an upgrade: `Ready`
/// where it agreed, `Error` where it did not.
pub open spec fn upgrade_reply(connection_id: Seq<char>, reply: Seq<u8>) -> MessageView {
    if switches_protocols(reply) {
        MessageView::WebSocketReady { connection_id, upgrade_response: base64_standard(reply) }
    } else {
        MessageView::WebSocketError { connection_id, error_response: base64_standard(reply) }
    }
}

/// Decides on the local service's reply to an upgrade: the message for the
/// relay, and whether the bridge is to run. `None` only for a reply too long to
/// be encoded on this machine.
pub fn on_upgrade_reply(connection_id: &str, reply: &[u8]) -> (r: Option<(WebSocketMessage, bool)>)
    ensures
        r is None <==> reply@.len() > usize::MAX / 2,
        r is Some ==> r.unwrap().0@ == upgrade_reply(connection_id@, reply@),
        r is Some ==> r.unwrap().1 == switches_protocols(reply@),
        r is Some ==> carries(r.unwrap().0@, Some(reply@)),
{
    if reply.len() > usize::MAX / 2 {
        return None;
    }
    proof {
        reveal_strlit("HTTP/1.1 101");
    }
    let encoded = base64_encode(reply);
    if eq_at(reply, lit("HTTP/1.1 101"), 0) {
        Some(
            (
                WebSocketMessage::WebSocketReady {
                    connection_id: connection_id.to_string(),
                    upgrade_response: encoded,
                },
                true,
            ),
        )
    } else {
        Some(
            (
                WebSocketMessage::WebSocketError {
                    connection_id: connection_id.to_string(),
                    error_response: encoded,
                },
                false,
            ),
        )
    }
}

/// The message that carries bytes read from the local service on a bridge.
/// `None` only for a chunk too long to be encoded on this machine.
pub fn local_frame(connection_id: &str, chunk: &[u8]) -> (r: Option<WebSocketMessage>)
    ensures
        r is None <==> chunk@.len() > usize::MAX / 2,
        r is Some ==> r.unwrap()@ == (MessageView::WebSocketFrame {
            connection_id: connection_id@,
            data: base64_standard(chunk@),
        }),
        r is Some ==> carries(r.unwrap()@, Some(chunk@)),
{
    if chunk.len() > usize::MAX / 2 {
        return None;
    }
    Some(
        WebSocketMessage::WebSocketFrame {
            connection_id: connection_id.to_string(),
            data: base64_encode(chunk),
        },
    )
}

/// The message that tells the relay that the local side of a bridge has ended.
pub fn local_closed(connection_id: &str) -> (r: WebSocketMessage)
    ensures
        r@ == (MessageView::WebSocketClose { connection_id: connection_id@ }),
{
    WebSocketMessage::WebSocketClose { connection_id: connection_id.to_string() }
}

/// The payload of the frame for connection `c` that `text` holds, if it holds
/// one.
pub open spec fn relayed_frame(text: Seq<u8>, c: Seq<char>) -> Option<Seq<u8>> {
    match decoded(text) {
        Some(MessageView::WebSocketFrame { connection_id, data }) => if connection_id == c {
            base64_standard_decoded(data)
        } else {
            None
        },
        _ => None,
    }
}

/// Whether `text` takes the bridge of connection `c` out.
pub open spec fn closes_bridge(text: Seq<u8>, c: Seq<char>) -> bool {
    decoded(text) matches Some(MessageView::WebSocketClose { connection_id }) && connection_id
        == c
}

/// The bridges after the first `n` of the relay's messages.
pub open spec fn bridges_at(
    bridges: Map<Seq<char>, Sender<Vec<u8>>>,
    texts: Seq<Seq<u8>>,
    n: int,
) -> Map<Seq<char>, Sender<Vec<u8>>>
    decreases n,
{
    if n <= 0 || n > texts.len() {
        bridges
    } else {
        bridges_after(bridges_at(bridges, texts, n - 1), texts[n - 1])
    }
}

proof fn lemma_bridge_stays(
    bridges: Map<Seq<char>, Sender<Vec<u8>>>,
    texts: Seq<Seq<u8>>,
    c: Seq<char>,
    n: int,
)
    requires
        0 <= n <= texts.len(),
        bridges.dom().contains(c),
        forall|k: int| 0 <= k < n ==> !closes_bridge(#[trigger] texts[k], c),
    ensures
        bridges_at(bridges, texts, n).dom().contains(c),
        bridges_at(bridges, texts, n)[c] == bridges[c],
    decreases n,
{
    if n > 0 {
        lemma_bridge_stays(bridges, texts, c, n - 1);
        assert(!closes_bridge(texts[n - 1], c));
    }
}

/// Frames go to the local service in the order in which the relay sent them:
/// of a connection whose bridge is open and not closed, every frame goes, when
/// its message is taken, with its payload into the queue of the bridge. So of
/// two frames of one connection the earlier is first in that queue.
pub proof fn law_frames_to_local_keep_order(
    bridges: Map<Seq<char>, Sender<Vec<u8>>>,
    texts: Seq<Seq<u8>>,
    c: Seq<char>,
    n: int,
)
    requires
        0 <= n < texts.len(),
        bridges.dom().contains(c),
        forall|k: int| 0 <= k < n ==> !closes_bridge(#[trigger] texts[k], c),
        relayed_frame(texts[n], c) is Some,
    ensures
        agent_step(bridges_at(bridges, texts, n), texts[n]) == (AgentStepView::ToBridge {
            connection_id: c,
            sink: bridges[c],
            data: relayed_frame(texts[n], c).unwrap(),
        }),
{
    lemma_bridge_stays(bridges, texts, c, n);
}

} // verus!
