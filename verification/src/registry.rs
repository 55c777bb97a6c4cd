//! The relay's registry: which agent serves which subdomain, which requests
//! await a response, and which WebSocket connections are being bridged.
//!
//! The registry hands out the sinks it stores; sending on a sink is left to the
//! caller, who can wait for room in the queue. Taking the sink of a pending
//! request removes the entry, so a response finds its sink at most once.
//!
//! Every pending request and every bridged connection is entered with the
//! subdomain of the tunnel it goes through. When that tunnel ends, its entries
//! are dropped with their sinks, and whoever waits on the receiving end of one
//! finds the queue closed.

use std::sync::Arc;
use dashmap::DashMap;
use tokio::sync::mpsc::{Receiver, Sender};
use vstd::prelude::*;
use vstd::string::StringExecFns;
use crate::bytes::{decimal, lemma_decimal_digits, lemma_decimal_injective, push_decimal};
use crate::encoding::{ascii_chars, ascii_text};
use crate::protocol::same_text;

verus! {

/// `dashmap::DashMap`, a concurrent hash map.
#[verifier::external_type_specification]
#[verifier::external_body]
#[verifier::reject_recursive_types(K)]
#[verifier::reject_recursive_types(V)]
#[verifier::reject_recursive_types(S)]
pub struct ExDashMap<K, V, S>(DashMap<K, V, S>);

/// `tokio::sync::mpsc::Sender`, the sending end of a bounded queue.
#[verifier::external_type_specification]
#[verifier::external_body]
#[verifier::reject_recursive_types(T)]
pub struct ExSender<T>(Sender<T>);

/// `tokio::sync::mpsc::Receiver`, the receiving end of a bounded queue.
#[verifier::external_type_specification]
#[verifier::external_body]
#[verifier::reject_recursive_types(T)]
pub struct ExReceiver<T>(Receiver<T>);

/// What the edge hands to the control session of a tunnel.
#[derive(Debug, Clone)]
pub enum TunnelMessage {
    /// A request that awaits its response.
    HttpRequest { request_id: u64, request_data: Vec<u8> },
    /// The head of a request that asks for a WebSocket.
    WebSocketUpgrade { connection_id: String, request_data: Vec<u8> },
    /// Bytes that the browser sent on a bridged connection.
    WebSocketFrame { connection_id: String, frame_data: Vec<u8> },
    /// The browser's side of a bridged connection has ended.
    WebSocketClose { connection_id: String },
}

/// A `TunnelMessage` as mathematical values.
pub enum TunnelMessageView {
    HttpRequest { request_id: u64, request_data: Seq<u8> },
    WebSocketUpgrade { connection_id: Seq<char>, request_data: Seq<u8> },
    WebSocketFrame { connection_id: Seq<char>, frame_data: Seq<u8> },
    WebSocketClose { connection_id: Seq<char> },
}

impl View for TunnelMessage {
    type V = TunnelMessageView;

    open spec fn view(&self) -> TunnelMessageView {
        match self {
            TunnelMessage::HttpRequest {
                request_id,
                request_data,
            } => TunnelMessageView::HttpRequest {
                request_id: *request_id,
                request_data: request_data@,
            },
            TunnelMessage::WebSocketUpgrade {
                connection_id,
                request_data,
            } => TunnelMessageView::WebSocketUpgrade {
                connection_id: connection_id@,
                request_data: request_data@,
            },
            TunnelMessage::WebSocketFrame {
                connection_id,
                frame_data,
            } => TunnelMessageView::WebSocketFrame {
                connection_id: connection_id@,
                frame_data: frame_data@,
            },
            TunnelMessage::WebSocketClose {
                connection_id,
            } => TunnelMessageView::WebSocketClose { connection_id: connection_id@ },
        }
    }
}

/// A live tunnel: the binding of a subdomain to the agent that serves it.
pub struct Tunnel {
    /// The subdomain, unique in the registry.
    pub domain: String,
    /// The domain under which the subdomain is served.
    pub base_domain: String,
    /// The user who owns the tunnel.
    pub user_id: String,
    /// The session that the metadata service opened for the tunnel.
    pub session_id: String,
    /// The queue into the tunnel's control session.
    pub request_tx: Sender<TunnelMessage>,
    /// The port that the agent forwards to.
    pub local_port: u16,
}

/// A request that awaits its response: the tunnel it went into, and the sink on
/// which the response is awaited.
pub struct PendingRequest {
    /// The subdomain of the tunnel that the request was handed to.
    pub domain: String,
    /// Where the response goes.
    pub response_sink: Sender<Vec<u8>>,
}

impl PendingRequest {
    /// Whether the request went into another tunnel than that of `domain`.
    pub fn of_other(&self, domain: &str) -> (r: bool)
        ensures
            r == (self.domain@ != domain@),
    {
        !same_text(self.domain.as_str(), domain)
    }
}

/// The sinks of a bridged WebSocket connection: the one for the reply to the
/// upgrade, and the one for the frames that follow.
pub struct WebSocketSinks {
    /// The subdomain of the tunnel that bridges the connection.
    pub domain: String,
    pub upgrade: Sender<Vec<u8>>,
    pub frames: Sender<Vec<u8>>,
}

impl WebSocketSinks {
    /// Whether the connection is bridged by another tunnel than that of `domain`.
    pub fn of_other(&self, domain: &str) -> (r: bool)
        ensures
            r == (self.domain@ != domain@),
    {
        !same_text(self.domain.as_str(), domain)
    }
}

/// Why the registry refused.
#[derive(Clone, Copy, Debug, PartialEq, Eq, Structural)]
pub enum RegistryError {
    /// The subdomain is bound to a live tunnel.
    AlreadyRegistered,
}

/// How many messages the reply queue of an upgrade holds.
pub const UPGRADE_QUEUE: usize = 1;

/// How many messages a frame queue holds.
pub const FRAME_QUEUE: usize = 100;

/// The tunnels that a table holds, by subdomain.
pub uninterp spec fn tunnel_entries(table: DashMap<String, Arc<Tunnel>>) -> Map<Seq<char>, Tunnel>;

/// The requests that a table of pending requests holds, by request identifier.
pub uninterp spec fn pending_entries(table: DashMap<u64, PendingRequest>) -> Map<
    u64,
    PendingRequest,
>;

/// The sinks that a table of bridged connections holds, by connection identifier.
pub uninterp spec fn websocket_entries(table: DashMap<String, WebSocketSinks>) -> Map<
    Seq<char>,
    WebSocketSinks,
>;

/// The number of messages that the queue behind `sink` was made to hold.
pub uninterp spec fn queue_bound(sink: Sender<Vec<u8>>) -> nat;

/// The sending end of the queue that `receiver` reads from.
pub uninterp spec fn sending_end(receiver: Receiver<Vec<u8>>) -> Sender<Vec<u8>>;

/// The pending requests among `requests` that went into another tunnel than that
/// of `domain`.
pub open spec fn requests_of_others(requests: Map<u64, PendingRequest>, domain: Seq<char>) -> Map<
    u64,
    PendingRequest,
> {
    Map::new(
        |id: u64| requests.dom().contains(id) && requests[id].domain@ != domain,
        |id: u64| requests[id],
    )
}

/// The bridged connections among `sockets` that another tunnel than that of
/// `domain` bridges.
pub open spec fn sockets_of_others(
    sockets: Map<Seq<char>, WebSocketSinks>,
    domain: Seq<char>,
) -> Map<Seq<char>, WebSocketSinks> {
    Map::new(
        |c: Seq<char>| sockets.dom().contains(c) && sockets[c].domain@ != domain,
        |c: Seq<char>| sockets[c],
    )
}

/// `after` is `before` with the request `id` entered for the tunnel of `domain`,
/// awaiting its response on `sink`.
pub open spec fn entered(
    before: Map<u64, PendingRequest>,
    after: Map<u64, PendingRequest>,
    id: u64,
    domain: Seq<char>,
    sink: Sender<Vec<u8>>,
) -> bool {
    &&& after.dom() == before.dom().insert(id)
    &&& after[id].domain@ == domain
    &&& after[id].response_sink == sink
    &&& forall|k: u64| k != id && before.dom().contains(k) ==> #[trigger] after[k] == before[k]
}

/// The decimal digits of `n` as characters.
pub open spec fn decimal_chars(n: nat) -> Seq<char> {
    ascii_chars(decimal(n))
}

/// `DashMap::new`: a table without entries.
#[verifier::external_body]
fn new_tunnel_table() -> (r: DashMap<String, Arc<Tunnel>>)
    ensures
        tunnel_entries(r).dom() == Set::<Seq<char>>::empty(),
{
    DashMap::new()
}

/// `DashMap::contains_key`: whether the table has an entry under `key`.
#[verifier::external_body]
fn tunnel_table_contains(table: &DashMap<String, Arc<Tunnel>>, key: &str) -> (r: bool)
    ensures
        r == tunnel_entries(*table).dom().contains(key@),
{
    table.contains_key(key)
}

/// `DashMap::insert`: afterwards `key` leads to `value`, the other entries are
/// as before.
#[verifier::external_body]
fn tunnel_table_insert(table: &mut DashMap<String, Arc<Tunnel>>, key: String, value: Arc<Tunnel>)
    ensures
        tunnel_entries(*final(table)) == tunnel_entries(*old(table)).insert(key@, *value),
{
    table.insert(key, value);
}

/// `DashMap::get`: the tunnel stored under `key`, if there is one.
#[verifier::external_body]
fn tunnel_table_get(table: &DashMap<String, Arc<Tunnel>>, key: &str) -> (r: Option<Arc<Tunnel>>)
    ensures
        r.is_some() == tunnel_entries(*table).dom().contains(key@),
        r.is_some() ==> *r.unwrap() == tunnel_entries(*table)[key@],
{
    table.get(key).map(|entry| Arc::clone(entry.value()))
}

/// `DashMap::remove`: afterwards the table has no entry under `key`, the other
/// entries are as before.
#[verifier::external_body]
fn tunnel_table_remove(table: &mut DashMap<String, Arc<Tunnel>>, key: &str)
    ensures
        tunnel_entries(*final(table)) == tunnel_entries(*old(table)).remove(key@),
{
    table.remove(key);
}

/// `DashMap::new`: a table without entries.
#[verifier::external_body]
fn new_pending_table() -> (r: DashMap<u64, PendingRequest>)
    ensures
        pending_entries(r).dom() == Set::<u64>::empty(),
{
    DashMap::new()
}

/// `DashMap::insert`: afterwards `id` leads to `request`, the other entries are
/// as before.
#[verifier::external_body]
fn pending_table_insert(table: &mut DashMap<u64, PendingRequest>, id: u64, request: PendingRequest)
    ensures
        pending_entries(*final(table)) == pending_entries(*old(table)).insert(id, request),
{
    table.insert(id, request);
}

/// `DashMap::remove`: the request stored under `id` leaves the table and is
/// returned; without one the table stays as it is.
#[verifier::external_body]
fn pending_table_remove(table: &mut DashMap<u64, PendingRequest>, id: u64) -> (r: Option<
    PendingRequest,
>)
    ensures
        r.is_some() == pending_entries(*old(table)).dom().contains(id),
        r.is_some() ==> r.unwrap() == pending_entries(*old(table))[id],
        pending_entries(*final(table)) == pending_entries(*old(table)).remove(id),
{
    table.remove(&id).map(|entry| entry.1)
}

/// `DashMap::retain`, which keeps the entries for which the closure answers
/// `true` and drops the others: afterwards the table holds the requests of the
/// other tunnels, each as before, and none of the tunnel of `domain`.
#[verifier::external_body]
fn pending_table_release(table: &mut DashMap<u64, PendingRequest>, domain: &str)
    ensures
        pending_entries(*final(table)) == requests_of_others(pending_entries(*old(table)), domain@),
{
    table.retain(|_, request| request.of_other(domain));
}

/// `DashMap::new`: a table without entries.
#[verifier::external_body]
fn new_websocket_table() -> (r: DashMap<String, WebSocketSinks>)
    ensures
        websocket_entries(r).dom() == Set::<Seq<char>>::empty(),
{
    DashMap::new()
}

/// `DashMap::insert`: afterwards `key` leads to `sinks`, the other entries are
/// as before.
#[verifier::external_body]
fn websocket_table_insert(
    table: &mut DashMap<String, WebSocketSinks>,
    key: String,
    sinks: WebSocketSinks,
)
    ensures
        websocket_entries(*final(table)) == websocket_entries(*old(table)).insert(key@, sinks),
{
    table.insert(key, sinks);
}

/// `DashMap::get`, then `clone` on the subdomain and on both sinks: another
/// handle on each queue stored under `key`, if there is an entry.
#[verifier::external_body]
fn websocket_table_get(table: &DashMap<String, WebSocketSinks>, key: &str) -> (r: Option<
    WebSocketSinks,
>)
    ensures
        r.is_some() == websocket_entries(*table).dom().contains(key@),
        r.is_some() ==> r.unwrap() == websocket_entries(*table)[key@],
{
    table.get(key).map(
        |entry|
            WebSocketSinks {
                domain: entry.value().domain.clone(),
                upgrade: entry.value().upgrade.clone(),
                frames: entry.value().frames.clone(),
            },
    )
}

/// `DashMap::remove`: afterwards the table has no entry under `key`, the other
/// entries are as before.
#[verifier::external_body]
fn websocket_table_remove(table: &mut DashMap<String, WebSocketSinks>, key: &str)
    ensures
        websocket_entries(*final(table)) == websocket_entries(*old(table)).remove(key@),
{
    table.remove(key);
}

/// `DashMap::retain`, which keeps the entries for which the closure answers
/// `true` and drops the others: afterwards the table holds the connections that
/// the other tunnels bridge, each as before, and none of the tunnel of `domain`.
#[verifier::external_body]
fn websocket_table_release(table: &mut DashMap<String, WebSocketSinks>, domain: &str)
    ensures
        websocket_entries(*final(table)) == sockets_of_others(
            websocket_entries(*old(table)),
            domain@,
        ),
{
    table.retain(|_, sinks| sinks.of_other(domain));
}

/// `tokio::sync::mpsc::channel`: a queue of byte strings that holds at most
/// `capacity` messages, as its two ends: what is sent on the first is received
/// on the second. The crate panics on a capacity of 0 or above its limit, so
/// only small positive capacities are let in.
#[verifier::external_body]
fn byte_queue(capacity: usize) -> (r: (Sender<Vec<u8>>, Receiver<Vec<u8>>))
    requires
        0 < capacity <= 65536,
    ensures
        queue_bound(r.0) == capacity,
        sending_end(r.1) == r.0,
{
    tokio::sync::mpsc::channel(capacity)
}

/// The identifier after `id`; after the last one the count starts over at 0.
pub open spec fn following(id: u64) -> u64 {
    if id == u64::MAX {
        0
    } else {
        (id + 1) as u64
    }
}

/// The public URL of a tunnel.
pub open spec fn full_url(subdomain: Seq<char>, base_domain: Seq<char>) -> Seq<char> {
    "https://"@ + subdomain + "."@ + base_domain
}

/// The name of the bridged connection with number `n`.
pub open spec fn connection_name(n: u64) -> Seq<char> {
    "ws-"@ + decimal_chars(n as nat)
}

/// The registry of one relay.
pub struct TunnelRegistry {
    tunnels: DashMap<String, Arc<Tunnel>>,
    next_request_id: u64,
    pending_requests: DashMap<u64, PendingRequest>,
    default_base_domain: String,
    next_ws_connection_id: u64,
    pending_websockets: DashMap<String, WebSocketSinks>,
}

impl TunnelRegistry {
    /// The live tunnels, by subdomain.
    pub closed spec fn tunnels(&self) -> Map<Seq<char>, Tunnel> {
        tunnel_entries(self.tunnels)
    }

    /// The requests that await a response.
    pub closed spec fn pending_requests(&self) -> Map<u64, PendingRequest> {
        pending_entries(self.pending_requests)
    }

    /// The sinks of the bridged connections.
    pub closed spec fn pending_websockets(&self) -> Map<Seq<char>, WebSocketSinks> {
        websocket_entries(self.pending_websockets)
    }

    /// The request identifier that is handed out next.
    pub closed spec fn upcoming_request_id(&self) -> u64 {
        self.next_request_id
    }

    /// The number of the connection identifier that is handed out next.
    pub closed spec fn upcoming_connection_number(&self) -> u64 {
        self.next_ws_connection_id
    }

    /// The base domain that the relay was configured with.
    pub closed spec fn base_domain(&self) -> Seq<char> {
        self.default_base_domain@
    }

    /// Every tunnel is stored under its own subdomain.
    pub open spec fn wf(&self) -> bool {
        forall|s: Seq<char>| #[trigger]
            self.tunnels().dom().contains(s) ==> self.tunnels()[s].domain@ == s
    }

    /// The registry apart from its tunnels is the same in `self` and `other`.
    pub open spec fn same_pending(&self, other: &Self) -> bool {
        &&& self.pending_requests() == other.pending_requests()
        &&& self.pending_websockets() == other.pending_websockets()
        &&& self.upcoming_request_id() == other.upcoming_request_id()
        &&& self.upcoming_connection_number() == other.upcoming_connection_number()
        &&& self.base_domain() == other.base_domain()
    }

    /// An empty registry. Identifiers start at 1.
    pub fn new(default_base_domain: String) -> (r: Self)
        ensures
            r.wf(),
            r.tunnels() == Map::<Seq<char>, Tunnel>::empty(),
            r.pending_requests() == Map::<u64, PendingRequest>::empty(),
            r.pending_websockets() == Map::<Seq<char>, WebSocketSinks>::empty(),
            r.upcoming_request_id() == 1,
            r.upcoming_connection_number() == 1,
            r.base_domain() == default_base_domain@,
    {
        let r = TunnelRegistry {
            tunnels: new_tunnel_table(),
            next_request_id: 1,
            pending_requests: new_pending_table(),
            default_base_domain,
            next_ws_connection_id: 1,
            pending_websockets: new_websocket_table(),
        };
        assert(r.tunnels() =~= Map::<Seq<char>, Tunnel>::empty());
        assert(r.pending_requests() =~= Map::<u64, PendingRequest>::empty());
        assert(r.pending_websockets() =~= Map::<Seq<char>, WebSocketSinks>::empty());
        r
    }

    /// The public URL of `subdomain` under `base_domain`.
    pub fn get_full_url(&self, subdomain: &str, base_domain: &str) -> (r: String)
        ensures
            r@ == full_url(subdomain@, base_domain@),
    {
        let mut url = String::from_str("https://");
        url.append(subdomain);
        url.append(".");
        url.append(base_domain);
        url
    }

    /// The base domain that the relay was configured with.
    pub fn default_base_domain(&self) -> (r: &str)
        ensures
            r@ == self.base_domain(),
    {
        self.default_base_domain.as_str()
    }

    /// Whether no live tunnel holds `domain`.
    pub fn is_domain_available(&self, domain: &str) -> (r: bool)
        ensures
            r == !self.tunnels().dom().contains(domain@),
    {
        !tunnel_table_contains(&self.tunnels, domain)
    }

    /// Binds `domain` to a new tunnel. A subdomain that is bound to a live tunnel
    /// is refused, and the registry stays as it is.
    pub fn register(
        &mut self,
        domain: String,
        base_domain: String,
        user_id: String,
        session_id: String,
        request_tx: Sender<TunnelMessage>,
        local_port: u16,
    ) -> (r: Result<Arc<Tunnel>, RegistryError>)
        requires
            old(self).wf(),
        ensures
            final(self).wf(),
            final(self).same_pending(old(self)),
            match r {
                Ok(tunnel) => {
                    &&& !old(self).tunnels().dom().contains(domain@)
                    &&& final(self).tunnels() == old(self).tunnels().insert(domain@, *tunnel)
                    &&& tunnel.domain@ == domain@
                    &&& tunnel.base_domain@ == base_domain@
                    &&& tunnel.user_id@ == user_id@
                    &&& tunnel.session_id@ == session_id@
                    &&& tunnel.request_tx == request_tx
                    &&& tunnel.local_port == local_port
                },
                Err(e) => {
                    &&& e == RegistryError::AlreadyRegistered
                    &&& old(self).tunnels().dom().contains(domain@)
                    &&& final(self).tunnels() == old(self).tunnels()
                },
            },
    {
        if tunnel_table_contains(&self.tunnels, domain.as_str()) {
            return Err(RegistryError::AlreadyRegistered);
        }
        let tunnel = Arc::new(
            Tunnel {
                domain: domain.clone(),
                base_domain,
                user_id,
                session_id,
                request_tx,
                local_port,
            },
        );
        tunnel_table_insert(&mut self.tunnels, domain, Arc::clone(&tunnel));
        proof {
            assert forall|s: Seq<char>| #[trigger]
                self.tunnels().dom().contains(s) implies self.tunnels()[s].domain@ == s by {
                if s != domain@ {
                    assert(old(self).tunnels().dom().contains(s));
                }
            }
        }
        Ok(tunnel)
    }

    /// The tunnel that holds `domain`.
    pub fn get(&self, domain: &str) -> (r: Option<Arc<Tunnel>>)
        ensures
            r.is_some() == self.tunnels().dom().contains(domain@),
            r.is_some() ==> *r.unwrap() == self.tunnels()[domain@],
    {
        tunnel_table_get(&self.tunnels, domain)
    }

    /// Releases `domain`: afterwards no tunnel holds it.
    pub fn remove(&mut self, domain: &str)
        requires
            old(self).wf(),
        ensures
            final(self).wf(),
            final(self).same_pending(old(self)),
            final(self).tunnels() == old(self).tunnels().remove(domain@),
    {
        tunnel_table_remove(&mut self.tunnels, domain);
        proof {
            assert forall|s: Seq<char>| #[trigger]
                self.tunnels().dom().contains(s) implies self.tunnels()[s].domain@ == s by {
                assert(old(self).tunnels().dom().contains(s));
            }
        }
    }

    /// Drops what waits on the tunnel of `domain`: its pending requests and the
    /// connections it bridges. Their sinks go with them, so whoever holds the
    /// receiving end of one finds the queue closed. The entries of the other
    /// tunnels stay.
    pub fn release_pending(&mut self, domain: &str)
        ensures
            final(self).pending_requests() == requests_of_others(
                old(self).pending_requests(),
                domain@,
            ),
            final(self).pending_websockets() == sockets_of_others(
                old(self).pending_websockets(),
                domain@,
            ),
            final(self).tunnels() == old(self).tunnels(),
            final(self).upcoming_request_id() == old(self).upcoming_request_id(),
            final(self).upcoming_connection_number() == old(self).upcoming_connection_number(),
            final(self).base_domain() == old(self).base_domain(),
    {
        pending_table_release(&mut self.pending_requests, domain);
        websocket_table_release(&mut self.pending_websockets, domain);
    }

    /// Hands out the next request identifier.
    pub fn next_request_id(&mut self) -> (id: u64)
        ensures
            id == old(self).upcoming_request_id(),
            final(self).upcoming_request_id() == following(id),
            final(self).tunnels() == old(self).tunnels(),
            final(self).pending_requests() == old(self).pending_requests(),
            final(self).pending_websockets() == old(self).pending_websockets(),
            final(self).upcoming_connection_number() == old(self).upcoming_connection_number(),
            final(self).base_domain() == old(self).base_domain(),
    {
        let id: u64 = self.next_request_id;
        self.next_request_id = if id == u64::MAX {
            0
        } else {
            id + 1
        };
        id
    }

    /// Enters request `request_id`, which went into the tunnel of `domain`, with
    /// the sink on which its response is awaited.
    pub fn register_pending_request(
        &mut self,
        request_id: u64,
        domain: String,
        response_tx: Sender<Vec<u8>>,
    )
        ensures
            entered(
                old(self).pending_requests(),
                final(self).pending_requests(),
                request_id,
                domain@,
                response_tx,
            ),
            final(self).tunnels() == old(self).tunnels(),
            final(self).pending_websockets() == old(self).pending_websockets(),
            final(self).upcoming_request_id() == old(self).upcoming_request_id(),
            final(self).upcoming_connection_number() == old(self).upcoming_connection_number(),
            final(self).base_domain() == old(self).base_domain(),
    {
        pending_table_insert(
            &mut self.pending_requests,
            request_id,
            PendingRequest { domain, response_sink: response_tx },
        );
    }

    /// Takes the sink of request `request_id` out of the registry: the sink that
    /// was installed for it, or `None` where the request is not pending. Whoever
    /// delivers a response sends it on the sink taken; the entry is gone with the
    /// taking, so a second response for the same request finds none.
    pub fn take_pending_request(&mut self, request_id: u64) -> (r: Option<Sender<Vec<u8>>>)
        ensures
            r.is_some() == old(self).pending_requests().dom().contains(request_id),
            r.is_some() ==> r.unwrap() == old(self).pending_requests()[request_id].response_sink,
            final(self).pending_requests() == old(self).pending_requests().remove(request_id),
            final(self).tunnels() == old(self).tunnels(),
            final(self).pending_websockets() == old(self).pending_websockets(),
            final(self).upcoming_request_id() == old(self).upcoming_request_id(),
            final(self).upcoming_connection_number() == old(self).upcoming_connection_number(),
            final(self).base_domain() == old(self).base_domain(),
    {
        match pending_table_remove(&mut self.pending_requests, request_id) {
            Some(request) => Some(request.response_sink),
            None => None,
        }
    }

    /// Hands out the next connection identifier, `ws-<n>`.
    pub fn next_ws_connection_id(&mut self) -> (id: String)
        ensures
            id@ == connection_name(old(self).upcoming_connection_number()),
            final(self).upcoming_connection_number() == following(
                old(self).upcoming_connection_number(),
            ),
            final(self).tunnels() == old(self).tunnels(),
            final(self).pending_requests() == old(self).pending_requests(),
            final(self).pending_websockets() == old(self).pending_websockets(),
            final(self).upcoming_request_id() == old(self).upcoming_request_id(),
            final(self).base_domain() == old(self).base_domain(),
    {
        let n: u64 = self.next_ws_connection_id;
        self.next_ws_connection_id = if n == u64::MAX {
            0
        } else {
            n + 1
        };
        let mut digits: Vec<u8> = Vec::new();
        push_decimal(&mut digits, n);
        proof {
            lemma_decimal_digits(n as nat);
        }
        let mut id = String::from_str("ws-");
        let text = ascii_text(digits.as_slice());
        id.append(text.as_str());
        id
    }

    /// Installs the two queues of a connection that the tunnel of `domain`
    /// bridges, and hands back their receiving ends: first the one for the reply
    /// to the upgrade, which holds one message, then the one for frames, which
    /// holds a hundred.
    pub fn register_pending_websocket(&mut self, connection_id: String, domain: String) -> (r: (
        Receiver<Vec<u8>>,
        Receiver<Vec<u8>>,
    ))
        ensures
            final(self).pending_websockets()[connection_id@].domain@ == domain@,
            sending_end(r.0) == final(self).pending_websockets()[connection_id@].upgrade,
            sending_end(r.1) == final(self).pending_websockets()[connection_id@].frames,
            final(self).pending_websockets().dom() == old(self).pending_websockets().dom().insert(
                connection_id@,
            ),
            forall|c: Seq<char>|
                c != connection_id@ && old(self).pending_websockets().dom().contains(c)
                    ==> #[trigger] final(self).pending_websockets()[c] == old(
                    self,
                ).pending_websockets()[c],
            queue_bound(final(self).pending_websockets()[connection_id@].upgrade) == UPGRADE_QUEUE,
            queue_bound(final(self).pending_websockets()[connection_id@].frames) == FRAME_QUEUE,
            final(self).tunnels() == old(self).tunnels(),
            final(self).pending_requests() == old(self).pending_requests(),
            final(self).upcoming_request_id() == old(self).upcoming_request_id(),
            final(self).upcoming_connection_number() == old(self).upcoming_connection_number(),
            final(self).base_domain() == old(self).base_domain(),
    {
        let (upgrade, upgrade_rx) = byte_queue(UPGRADE_QUEUE);
        let (frames, frame_rx) = byte_queue(FRAME_QUEUE);
        websocket_table_insert(
            &mut self.pending_websockets,
            connection_id,
            WebSocketSinks { domain, upgrade, frames },
        );
        (upgrade_rx, frame_rx)
    }

    /// The sinks of the bridged connection `connection_id`, or `None` where the
    /// registry holds none. The entry stays.
    pub fn websocket_sinks(&self, connection_id: &str) -> (r: Option<WebSocketSinks>)
        ensures
            r.is_some() == self.pending_websockets().dom().contains(connection_id@),
            r.is_some() ==> r.unwrap() == self.pending_websockets()[connection_id@],
    {
        websocket_table_get(&self.pending_websockets, connection_id)
    }

    /// Forgets the bridged connection `connection_id`.
    pub fn remove_websocket(&mut self, connection_id: &str)
        ensures
            final(self).pending_websockets() == old(self).pending_websockets().remove(
                connection_id@,
            ),
            final(self).tunnels() == old(self).tunnels(),
            final(self).pending_requests() == old(self).pending_requests(),
            final(self).upcoming_request_id() == old(self).upcoming_request_id(),
            final(self).upcoming_connection_number() == old(self).upcoming_connection_number(),
            final(self).base_domain() == old(self).base_domain(),
    {
        websocket_table_remove(&mut self.pending_websockets, connection_id);
    }
}

/// Identifiers grow: the one handed out after `id` is greater, until the count
/// has run through all of `u64`.
pub proof fn law_identifiers_increase(id: u64)
    requires
        id < u64::MAX,
    ensures
        following(id) > id,
{
}

/// Connection identifiers are not handed out twice: different numbers have
/// different names.
pub proof fn law_connection_names_differ(a: u64, b: u64)
    requires
        a != b,
    ensures
        connection_name(a) != connection_name(b),
{
    if connection_name(a) == connection_name(b) {
        reveal_strlit("ws-");
        let da = decimal(a as nat);
        let db = decimal(b as nat);
        lemma_decimal_digits(a as nat);
        lemma_decimal_digits(b as nat);
        let na = connection_name(a);
        let nb = connection_name(b);
        assert(na.len() == 3 + da.len());
        assert(nb.len() == 3 + db.len());
        assert forall|k: int| 0 <= k < da.len() implies da[k] == db[k] by {
            assert(na[3 + k] == ascii_chars(da)[k]);
            assert(nb[3 + k] == ascii_chars(db)[k]);
            assert(da[k] as char == db[k] as char);
            assert(48 <= da[k] <= 57);
            assert(48 <= db[k] <= 57);
        }
        assert(da =~= db);
        lemma_decimal_injective(a as nat, b as nat);
    }
}

/// At most one tunnel holds a subdomain: two entries of a well-formed registry
/// whose tunnels have the same subdomain are one entry.
pub proof fn law_subdomain_unique(registry: &TunnelRegistry, a: Seq<char>, b: Seq<char>)
    requires
        registry.wf(),
        registry.tunnels().dom().contains(a),
        registry.tunnels().dom().contains(b),
        registry.tunnels()[a].domain@ == registry.tunnels()[b].domain@,
    ensures
        a == b,
{
}

/// A table to which an entry is added and from which that entry is taken again
/// holds what it held before, where it had no such entry.
pub proof fn law_entry_leaves_no_trace<K, V>(table: Map<K, V>, key: K, value: V)
    requires
        !table.dom().contains(key),
    ensures
        table.insert(key, value).remove(key) == table,
{
    assert(table.insert(key, value).remove(key) =~= table);
}

/// After the release of a tunnel no request waits on it, and the requests that
/// wait on the other tunnels are as before.
pub proof fn law_release_spares_other_requests(
    requests: Map<u64, PendingRequest>,
    domain: Seq<char>,
    id: u64,
)
    ensures
        requests_of_others(requests, domain).dom().contains(id) <==> requests.dom().contains(id)
            && requests[id].domain@ != domain,
        requests_of_others(requests, domain).dom().contains(id) ==> requests_of_others(
            requests,
            domain,
        )[id] == requests[id],
{
}

/// After the release of a tunnel it bridges no connection, and the connections
/// that the other tunnels bridge are as before.
pub proof fn law_release_spares_other_connections(
    sockets: Map<Seq<char>, WebSocketSinks>,
    domain: Seq<char>,
    connection: Seq<char>,
)
    ensures
        sockets_of_others(sockets, domain).dom().contains(connection) <==> sockets.dom().contains(
            connection,
        ) && sockets[connection].domain@ != domain,
        sockets_of_others(sockets, domain).dom().contains(connection) ==> sockets_of_others(
            sockets,
            domain,
        )[connection] == sockets[connection],
{
}

/// Once the sink of a request is taken, the request is no longer pending: a
/// second taking finds none.
pub proof fn law_sink_taken_once<V>(pending: Map<u64, V>, id: u64)
    ensures
        !pending.remove(id).dom().contains(id),
{
}

/// What happens to a table's key: an entry under it is added, or the entry
/// under it is taken out.
pub enum TableOp<K> {
    Enter(K),
    Leave(K),
}

/// The keys of a table that had the keys `start` after the first `n` of `ops`.
pub open spec fn keys_after<K>(start: Set<K>, ops: Seq<TableOp<K>>, n: int) -> Set<K>
    decreases n,
{
    if n <= 0 || n > ops.len() {
        start
    } else {
        match ops[n - 1] {
            TableOp::Enter(k) => keys_after(start, ops, n - 1).insert(k),
            TableOp::Leave(k) => keys_after(start, ops, n - 1).remove(k),
        }
    }
}

/// `op` takes the entry under `k` out.
pub open spec fn leaves<K>(op: TableOp<K>, k: K) -> bool {
    op == TableOp::Leave(k)
}

/// A later one of `ops` takes out what the `i`-th of them adds.
pub open spec fn left_later<K>(ops: Seq<TableOp<K>>, i: int) -> bool {
    match ops[i] {
        TableOp::Enter(k) => exists|j: int| i < j < ops.len() && leaves(#[trigger] ops[j], k),
        TableOp::Leave(_) => true,
    }
}

/// Every entry that `ops` adds is taken out again later.
pub open spec fn all_leave<K>(ops: Seq<TableOp<K>>) -> bool {
    forall|i: int| 0 <= i < ops.len() ==> #[trigger] left_later(ops, i)
}

/// `k` was added by the `i`-th of `ops` and not taken out by those after it
/// up to the `n`-th.
pub open spec fn stays_from<K>(ops: Seq<TableOp<K>>, k: K, i: int, n: int) -> bool {
    &&& 0 <= i < n
    &&& ops[i] == TableOp::Enter(k)
    &&& forall|j: int| i < j < n ==> !leaves(#[trigger] ops[j], k)
}

proof fn lemma_key_was_entered<K>(ops: Seq<TableOp<K>>, n: int, k: K) -> (i: int)
    requires
        0 <= n <= ops.len(),
        keys_after(Set::<K>::empty(), ops, n).contains(k),
    ensures
        stays_from(ops, k, i, n),
    decreases n,
{
    if n > 0 {
        match ops[n - 1] {
            TableOp::Enter(e) => {
                if e == k {
                    n - 1
                } else {
                    let i = lemma_key_was_entered(ops, n - 1, k);
                    i
                }
            },
            TableOp::Leave(l) => {
                let i = lemma_key_was_entered(ops, n - 1, k);
                i
            },
        }
    } else {
        0
    }
}

/// Nothing leaks: a table that starts empty is empty again after any sequence
/// of additions and takings in which every entry that is added is taken out
/// later.
pub proof fn law_no_leak<K>(ops: Seq<TableOp<K>>)
    requires
        all_leave(ops),
    ensures
        keys_after(Set::<K>::empty(), ops, ops.len() as int) == Set::<K>::empty(),
{
    let end = keys_after(Set::<K>::empty(), ops, ops.len() as int);
    assert forall|k: K| !end.contains(k) by {
        if end.contains(k) {
            let i = lemma_key_was_entered(ops, ops.len() as int, k);
            assert(left_later(ops, i));
        }
    }
    assert(end =~= Set::<K>::empty());
}

} // verus!
