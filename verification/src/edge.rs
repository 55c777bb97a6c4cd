//! The public edge of the relay: what to do with a browser's connection at each
//! point of its life. Reading and writing the socket, waiting and the timers are
//! the caller's part; the functions here decide what is read for, what is
//! written, and what is entered in and taken from the registry.

use std::sync::Arc;
use tokio::sync::mpsc::{Receiver, Sender};
use vstd::prelude::*;
use vstd::slice::*;
use vstd::utf8::encode_utf8;
use crate::bytes::{ascii_bytes, copy_bytes, push_all};
use crate::encoding::utf8_text;
use crate::http::{find_headers_end, headers_end};
use crate::logging::{original_size, truncate_body, truncated, MAX_BODY_SIZE};
use crate::pages::{
    agent_disconnected_response, agent_not_responding_response, incomplete_headers_response,
    malformed_request_response, no_host_response, not_found_response, render_404_page,
    render_503_error_page, response_timeout_response, unavailable_response,
    upgrade_not_sent_response, upgrade_timeout_response,
};
use crate::registry::{
    connection_name, entered, following, queue_bound, sending_end, Tunnel, TunnelMessage,
    TunnelMessageView, TunnelRegistry, FRAME_QUEUE, UPGRADE_QUEUE,
};
use crate::request::{
    before, header_views, parse_request_prefix, part_before, request_prefix, text_of, Header,
    HeaderView, ParsedRequest, RequestPrefix, RequestPrefixView,
};
use crate::response::{
    extract_noverlink_error, noverlink_error, parse_response_headers, parse_response_status,
    response_headers, response_status,
};

verus! {

/// The most bytes of a head that are read before the request is refused.
pub const MAX_HEADER_BYTES: usize = 8192;

/// Seconds that a browser has to send its head.
pub const HEADER_READ_SECS: u64 = 10;

/// Seconds that the edge waits for the response to a request.
pub const RESPONSE_WAIT_SECS: u64 = 420;

/// Seconds that the edge waits for the reply to an upgrade.
pub const UPGRADE_WAIT_SECS: u64 = 30;

/// The most bytes that are read at once from a bridged connection.
pub const FRAME_CHUNK: usize = 8192;

/// How far the reading of a head has come.
#[derive(Clone, Copy, Debug, PartialEq, Eq, Structural)]
pub enum HeadProgress {
    /// The head has ended at this index.
    Complete { headers_end: usize },
    /// The head is longer than allowed, ended or not.
    TooLarge,
    /// The head has not ended.
    NeedMore,
}

/// How far the reading of a head has come when `buf` was read: complete as soon
/// as the empty line is there, if the head with its empty line is at most 8192
/// bytes long; too large if it is longer, and at 8192 bytes without the empty
/// line.
pub open spec fn head_progress(buf: Seq<u8>) -> HeadProgress {
    match headers_end(buf) {
        Some(he) => if he + 4 > MAX_HEADER_BYTES {
            HeadProgress::TooLarge
        } else {
            HeadProgress::Complete { headers_end: he as usize }
        },
        None => if buf.len() >= MAX_HEADER_BYTES {
            HeadProgress::TooLarge
        } else {
            HeadProgress::NeedMore
        },
    }
}

/// Adds what was read to the buffer and says how far the head has come.
pub fn feed_head(buffer: &mut Vec<u8>, chunk: &[u8]) -> (r: HeadProgress)
    ensures
        final(buffer)@ == old(buffer)@ + chunk@,
        r == head_progress(final(buffer)@),
{
    push_all(buffer, chunk);
    match find_headers_end(buffer.as_slice()) {
        Some(he) => if he > MAX_HEADER_BYTES - 4 {
            HeadProgress::TooLarge
        } else {
            HeadProgress::Complete { headers_end: he }
        },
        None => if buffer.len() >= MAX_HEADER_BYTES {
            HeadProgress::TooLarge
        } else {
            HeadProgress::NeedMore
        },
    }
}

/// Where a request goes.
pub enum Route {
    /// Nowhere: `response` is written and the connection closed.
    Reject { response: Vec<u8> },
    /// To `tunnel`, which holds `subdomain`.
    Serve { tunnel: Arc<Tunnel>, request: ParsedRequest, subdomain: String },
}

/// A `Route` as mathematical values.
pub enum RouteView {
    Reject { response: Seq<u8> },
    Serve { tunnel: Tunnel, request: RequestPrefixView, subdomain: Seq<char> },
}

impl View for Route {
    type V = RouteView;

    open spec fn view(&self) -> RouteView {
        match self {
            Route::Reject { response } => RouteView::Reject { response: response@ },
            Route::Serve { tunnel, request, subdomain } => RouteView::Serve {
                tunnel: **tunnel,
                request: RequestPrefix::Parsed(*request)@,
                subdomain: subdomain@,
            },
        }
    }
}

/// The subdomain that a host names: its first label, where that is valid UTF-8.
pub open spec fn subdomain_of(host: Seq<char>) -> Option<Seq<char>> {
    text_of(before(encode_utf8(host), 46))
}

/// Where the request that begins with `buf` goes, given the live tunnels: a
/// head that the parser finds unfinished or malformed, and one without a host,
/// are answered with status 400; a host whose subdomain has no tunnel is
/// answered with the 404 page; else the request is served by the tunnel of the
/// subdomain.
pub open spec fn routing(tunnels: Map<Seq<char>, Tunnel>, buf: Seq<u8>) -> RouteView {
    match request_prefix(buf) {
        RequestPrefixView::Incomplete => RouteView::Reject {
            response: ascii_bytes("HTTP/1.1 400 Bad Request\r\n\r\nIncomplete headers\r\n"@),
        },
        RequestPrefixView::Malformed => RouteView::Reject {
            response: ascii_bytes("HTTP/1.1 400 Bad Request\r\n\r\nMalformed request\r\n"@),
        },
        RequestPrefixView::Parsed { host, .. } => match host {
            None => RouteView::Reject {
                response: ascii_bytes("HTTP/1.1 400 Bad Request\r\n\r\nNo Host header\r\n"@),
            },
            Some(h) => match subdomain_of(h) {
                Some(s) => if tunnels.dom().contains(s) {
                    RouteView::Serve { tunnel: tunnels[s], request: request_prefix(buf), subdomain: s }
                } else {
                    RouteView::Reject { response: not_found_response(h) }
                },
                None => RouteView::Reject { response: not_found_response(h) },
            },
        },
    }
}

/// Decides where a request goes by its head.
pub fn route_request(registry: &TunnelRegistry, buf: &[u8]) -> (r: Route)
    ensures
        r@ == routing(registry.tunnels(), buf@),
{
    let request = match parse_request_prefix(buf) {
        RequestPrefix::Incomplete => {
            return Route::Reject { response: copy_bytes(incomplete_headers_response()) };
        },
        RequestPrefix::Malformed => {
            return Route::Reject { response: copy_bytes(malformed_request_response()) };
        },
        RequestPrefix::Parsed(p) => p,
    };
    let subdomain = match &request.host {
        None => {
            return Route::Reject { response: copy_bytes(no_host_response()) };
        },
        Some(h) => match utf8_text(part_before(h.as_str().as_bytes(), 46)) {
            Some(s) => s,
            None => {
                return Route::Reject { response: render_404_page(h.as_str()) };
            },
        },
    };
    match registry.get(subdomain.as_str()) {
        Some(tunnel) => Route::Serve { tunnel, request, subdomain },
        None => match &request.host {
            Some(h) => Route::Reject { response: render_404_page(h.as_str()) },
            None => Route::Reject { response: copy_bytes(no_host_response()) },
        },
    }
}

/// The length that counts for a request: the announced one, 0 where none is
/// announced.
pub open spec fn body_length(content_length: Option<u64>) -> nat {
    match content_length {
        Some(n) => n as nat,
        None => 0,
    }
}

/// How many bytes of a request are still to be read when `have` are there: what
/// is missing of the head, the empty line and the announced body.
pub open spec fn missing_bytes(have: nat, headers_end: nat, content_length: nat) -> nat {
    if headers_end + 4 + content_length > have {
        (headers_end + 4 + content_length - have) as nat
    } else {
        0
    }
}

/// How many bytes of a request are still to be read, as far as the machine can
/// count.
pub fn remaining_body(have: usize, headers_end: usize, content_length: Option<u64>) -> (r: usize)
    ensures
        r as nat == if missing_bytes(have as nat, headers_end as nat, body_length(content_length))
            > usize::MAX {
            usize::MAX as nat
        } else {
            missing_bytes(have as nat, headers_end as nat, body_length(content_length))
        },
{
    let announced: u64 = match content_length {
        Some(n) => n,
        None => 0,
    };
    let total: u128 = headers_end as u128 + 4 + announced as u128;
    if total > have as u128 {
        let missing: u128 = total - have as u128;
        if missing > usize::MAX as u128 {
            usize::MAX
        } else {
            missing as usize
        }
    } else {
        0
    }
}

/// Enters a request for the tunnel of `domain` in the registry: hands out its
/// identifier, installs the sink for its response, and gives the message that
/// carries it to the tunnel's session.
pub fn begin_forward(
    registry: &mut TunnelRegistry,
    domain: &str,
    response_tx: Sender<Vec<u8>>,
    request_data: Vec<u8>,
) -> (r: (u64, TunnelMessage))
    ensures
        r.0 == old(registry).upcoming_request_id(),
        r.1@ == (TunnelMessageView::HttpRequest { request_id: r.0, request_data: request_data@ }),
        final(registry).upcoming_request_id() == following(r.0),
        entered(
            old(registry).pending_requests(),
            final(registry).pending_requests(),
            r.0,
            domain@,
            response_tx,
        ),
        final(registry).tunnels() == old(registry).tunnels(),
        final(registry).pending_websockets() == old(registry).pending_websockets(),
        final(registry).upcoming_connection_number() == old(registry).upcoming_connection_number(),
        final(registry).base_domain() == old(registry).base_domain(),
{
    let request_id = registry.next_request_id();
    registry.register_pending_request(request_id, String::from_str(domain), response_tx);
    (request_id, TunnelMessage::HttpRequest { request_id, request_data })
}

/// How the wait for a response ended.
pub enum ForwardOutcome {
    /// The request could not be handed to the tunnel's session.
    NotSent,
    /// The agent's response arrived.
    Response(Vec<u8>),
    /// The sink was closed without a response.
    Disconnected,
    /// No response came in time.
    TimedOut,
}

/// A `ForwardOutcome` as mathematical values.
pub enum ForwardOutcomeView {
    NotSent,
    Response(Seq<u8>),
    Disconnected,
    TimedOut,
}

impl View for ForwardOutcome {
    type V = ForwardOutcomeView;

    open spec fn view(&self) -> ForwardOutcomeView {
        match self {
            ForwardOutcome::NotSent => ForwardOutcomeView::NotSent,
            ForwardOutcome::Response(d) => ForwardOutcomeView::Response(d@),
            ForwardOutcome::Disconnected => ForwardOutcomeView::Disconnected,
            ForwardOutcome::TimedOut => ForwardOutcomeView::TimedOut,
        }
    }
}

/// What the edge does at the end of a request.
pub struct ForwardResult {
    /// What is written to the browser.
    pub to_browser: Vec<u8>,
    /// The status that is recorded.
    pub status: u16,
    /// The response's headers, for the record.
    pub response_headers: Option<Vec<Header>>,
    /// The recorded part of the response's body.
    pub response_body: Option<Vec<u8>>,
    /// The length of the response's body where it was cut for the record.
    pub original_response_size: Option<u32>,
}

/// A `ForwardResult` as mathematical values.
pub struct ForwardResultView {
    pub to_browser: Seq<u8>,
    pub status: u16,
    pub response_headers: Option<Seq<HeaderView>>,
    pub response_body: Option<Seq<u8>>,
    pub original_response_size: Option<u32>,
}

/// The views of an optional list of headers.
pub open spec fn optional_headers(hs: Option<Vec<Header>>) -> Option<Seq<HeaderView>> {
    match hs {
        Some(v) => Some(header_views(v@)),
        None => None,
    }
}

impl View for ForwardResult {
    type V = ForwardResultView;

    open spec fn view(&self) -> ForwardResultView {
        ForwardResultView {
            to_browser: self.to_browser@,
            status: self.status,
            response_headers: optional_headers(self.response_headers),
            response_body: crate::request::bytes_view(self.response_body),
            original_response_size: self.original_response_size,
        }
    }
}

/// A synthesized answer: nothing of a response is recorded with it.
pub open spec fn synthesized(answer: Seq<char>, status: u16) -> ForwardResultView {
    ForwardResultView {
        to_browser: ascii_bytes(answer),
        status,
        response_headers: None,
        response_body: None,
        original_response_size: None,
    }
}

/// The body of a response, where its head has ended and something follows it.
pub open spec fn body_of(response: Seq<u8>) -> Option<Seq<u8>> {
    match headers_end(response) {
        Some(he) => if response.len() > he + 4 {
            Some(response.subrange(he + 4, response.len() as int))
        } else {
            None
        },
        None => None,
    }
}

/// A size as the record holds it.
pub open spec fn recorded_size(size: Option<u64>) -> Option<u32> {
    match size {
        Some(n) => Some(
            if n > u32::MAX {
                u32::MAX
            } else {
                n as u32
            },
        ),
        None => None,
    }
}

/// What the edge does with the agent's response: a response that reports an
/// unreachable local service is replaced by the 503 page; any other is written
/// as it is, and its status, headers and the first 64 KiB of its body are
/// recorded.
pub open spec fn relayed(response: Seq<u8>) -> ForwardResultView {
    match noverlink_error(response) {
        Some(e) => ForwardResultView {
            to_browser: unavailable_response(e),
            status: 503,
            response_headers: response_headers(response),
            response_body: None,
            original_response_size: None,
        },
        None => ForwardResultView {
            to_browser: response,
            status: response_status(response),
            response_headers: response_headers(response),
            response_body: match body_of(response) {
                Some(b) => Some(truncated(b, MAX_BODY_SIZE as int)),
                None => None,
            },
            original_response_size: match body_of(response) {
                Some(b) => recorded_size(original_size(b, MAX_BODY_SIZE as int)),
                None => None,
            },
        },
    }
}

/// What the edge does at the end of a request, by how the wait ended.
pub open spec fn forward_result(outcome: ForwardOutcomeView) -> ForwardResultView {
    match outcome {
        ForwardOutcomeView::NotSent => synthesized(
            "HTTP/1.1 504 Gateway Timeout\r\n\r\nCLI not responding\r\n"@,
            504,
        ),
        ForwardOutcomeView::Response(data) => relayed(data),
        ForwardOutcomeView::Disconnected => synthesized(
            "HTTP/1.1 502 Bad Gateway\r\n\r\nCLI disconnected\r\n"@,
            502,
        ),
        ForwardOutcomeView::TimedOut => synthesized(
            "HTTP/1.1 504 Gateway Timeout\r\n\r\nRequest timeout\r\n"@,
            504,
        ),
    }
}

fn shorten(size: Option<u64>) -> (r: Option<u32>)
    ensures
        r == recorded_size(size),
{
    match size {
        Some(n) => Some(
            if n > u32::MAX as u64 {
                u32::MAX
            } else {
                n as u32
            },
        ),
        None => None,
    }
}

fn synthesize(answer: &[u8], status: u16) -> (r: ForwardResult)
    ensures
        r@ == (ForwardResultView {
            to_browser: answer@,
            status,
            response_headers: None,
            response_body: None,
            original_response_size: None,
        }),
{
    ForwardResult {
        to_browser: copy_bytes(answer),
        status,
        response_headers: None,
        response_body: None,
        original_response_size: None,
    }
}

/// Decides what to write and what to record for the agent's response.
pub fn relay_response(response: Vec<u8>) -> (r: ForwardResult)
    ensures
        r@ == relayed(response@),
{
    let response_headers = parse_response_headers(response.as_slice());
    match extract_noverlink_error(response.as_slice()) {
        Some(e) => {
            return ForwardResult {
                to_browser: render_503_error_page(&e),
                status: 503,
                response_headers,
                response_body: None,
                original_response_size: None,
            };
        },
        None => {},
    }
    let status = parse_response_status(response.as_slice());
    let (response_body, original_response_size) = match find_headers_end(response.as_slice()) {
        Some(he) => if response.len() > he + 4 {
            let (cut, size) = truncate_body(
                slice_subrange(response.as_slice(), he + 4, response.len()),
                MAX_BODY_SIZE,
            );
            (Some(cut), shorten(size))
        } else {
            (None, None)
        },
        None => (None, None),
    };
    ForwardResult {
        to_browser: response,
        status,
        response_headers,
        response_body,
        original_response_size,
    }
}

/// Ends a request: takes it out of the registry, whatever became of it, and
/// decides what is written to the browser and what is recorded.
pub fn conclude_forward(registry: &mut TunnelRegistry, request_id: u64, outcome: ForwardOutcome)
    -> (r: ForwardResult)
    ensures
        r@ == forward_result(outcome@),
        final(registry).pending_requests() == old(registry).pending_requests().remove(request_id),
        final(registry).tunnels() == old(registry).tunnels(),
        final(registry).pending_websockets() == old(registry).pending_websockets(),
        final(registry).upcoming_request_id() == old(registry).upcoming_request_id(),
        final(registry).upcoming_connection_number() == old(registry).upcoming_connection_number(),
        final(registry).base_domain() == old(registry).base_domain(),
{
    let _ = registry.take_pending_request(request_id);
    match outcome {
        ForwardOutcome::NotSent => synthesize(agent_not_responding_response(), 504),
        ForwardOutcome::Response(data) => relay_response(data),
        ForwardOutcome::Disconnected => synthesize(agent_disconnected_response(), 502),
        ForwardOutcome::TimedOut => synthesize(response_timeout_response(), 504),
    }
}

/// What the edge holds of a connection that asks for a WebSocket.
pub struct PendingUpgrade {
    /// The identifier of the connection.
    pub connection_id: String,
    /// Where the reply to the upgrade arrives.
    pub upgrade_rx: Receiver<Vec<u8>>,
    /// Where the frames for the browser arrive.
    pub frame_rx: Receiver<Vec<u8>>,
    /// The message that carries the upgrade to the tunnel's session.
    pub message: TunnelMessage,
}

/// Enters a connection that asks for a WebSocket from the tunnel of `domain` in
/// the registry: hands out its identifier, installs its two queues, and gives
/// their receiving ends with the message that carries the upgrade to the
/// tunnel's session.
pub fn begin_upgrade(registry: &mut TunnelRegistry, domain: &str, request_data: Vec<u8>) -> (r:
    PendingUpgrade)
    ensures
        final(registry).pending_websockets()[r.connection_id@].domain@ == domain@,
        sending_end(r.upgrade_rx) == final(registry).pending_websockets()[r.connection_id@].upgrade,
        sending_end(r.frame_rx) == final(registry).pending_websockets()[r.connection_id@].frames,
        forall|c: Seq<char>|
            c != r.connection_id@ && old(registry).pending_websockets().dom().contains(c)
                ==> #[trigger] final(registry).pending_websockets()[c] == old(
                registry,
            ).pending_websockets()[c],
        r.connection_id@ == connection_name(old(registry).upcoming_connection_number()),
        r.message@ == (TunnelMessageView::WebSocketUpgrade {
            connection_id: r.connection_id@,
            request_data: request_data@,
        }),
        final(registry).upcoming_connection_number() == following(
            old(registry).upcoming_connection_number(),
        ),
        final(registry).pending_websockets().dom() == old(
            registry,
        ).pending_websockets().dom().insert(r.connection_id@),
        queue_bound(final(registry).pending_websockets()[r.connection_id@].upgrade)
            == UPGRADE_QUEUE,
        queue_bound(final(registry).pending_websockets()[r.connection_id@].frames) == FRAME_QUEUE,
        final(registry).tunnels() == old(registry).tunnels(),
        final(registry).pending_requests() == old(registry).pending_requests(),
        final(registry).upcoming_request_id() == old(registry).upcoming_request_id(),
        final(registry).base_domain() == old(registry).base_domain(),
{
    let connection_id = registry.next_ws_connection_id();
    let (upgrade_rx, frame_rx) = registry.register_pending_websocket(
        connection_id.clone(),
        String::from_str(domain),
    );
    let message = TunnelMessage::WebSocketUpgrade {
        connection_id: connection_id.clone(),
        request_data,
    };
    PendingUpgrade { connection_id, upgrade_rx, frame_rx, message }
}

/// How the wait for the reply to an upgrade ended.
pub enum UpgradeOutcome {
    /// The upgrade could not be handed to the tunnel's session.
    NotSent,
    /// The agent's reply arrived.
    Reply(Vec<u8>),
    /// The sink was closed without a reply.
    Disconnected,
    /// No reply came in time.
    TimedOut,
}

/// An `UpgradeOutcome` as mathematical values.
pub enum UpgradeOutcomeView {
    NotSent,
    Reply(Seq<u8>),
    Disconnected,
    TimedOut,
}

impl View for UpgradeOutcome {
    type V = UpgradeOutcomeView;

    open spec fn view(&self) -> UpgradeOutcomeView {
        match self {
            UpgradeOutcome::NotSent => UpgradeOutcomeView::NotSent,
            UpgradeOutcome::Reply(d) => UpgradeOutcomeView::Reply(d@),
            UpgradeOutcome::Disconnected => UpgradeOutcomeView::Disconnected,
            UpgradeOutcome::TimedOut => UpgradeOutcomeView::TimedOut,
        }
    }
}

/// What the edge does after the wait for the reply to an upgrade.
pub struct UpgradeResult {
    /// What is written to the browser.
    pub to_browser: Vec<u8>,
    /// Whether the connection is bridged from here on.
    pub bridge: bool,
}

/// What is written to the browser after the wait for the reply to an upgrade:
/// the agent's reply as it is, else a synthesized answer.
pub open spec fn upgrade_answer(outcome: UpgradeOutcomeView) -> Seq<u8> {
    match outcome {
        UpgradeOutcomeView::NotSent => ascii_bytes(
            "HTTP/1.1 502 Bad Gateway\r\n\r\nCLI not responding\r\n"@,
        ),
        UpgradeOutcomeView::Reply(data) => data,
        UpgradeOutcomeView::Disconnected => ascii_bytes(
            "HTTP/1.1 502 Bad Gateway\r\n\r\nCLI disconnected\r\n"@,
        ),
        UpgradeOutcomeView::TimedOut => ascii_bytes(
            "HTTP/1.1 504 Gateway Timeout\r\n\r\nUpgrade timeout\r\n"@,
        ),
    }
}

/// Ends the wait for the reply to an upgrade. With a reply the connection is
/// bridged and stays in the registry; without one it leaves the registry.
pub fn conclude_upgrade(registry: &mut TunnelRegistry, connection_id: &str, outcome: UpgradeOutcome)
    -> (r: UpgradeResult)
    ensures
        r.to_browser@ == upgrade_answer(outcome@),
        r.bridge == (outcome is Reply),
        final(registry).pending_websockets() == if outcome is Reply {
            old(registry).pending_websockets()
        } else {
            old(registry).pending_websockets().remove(connection_id@)
        },
        final(registry).tunnels() == old(registry).tunnels(),
        final(registry).pending_requests() == old(registry).pending_requests(),
        final(registry).upcoming_request_id() == old(registry).upcoming_request_id(),
        final(registry).upcoming_connection_number() == old(registry).upcoming_connection_number(),
        final(registry).base_domain() == old(registry).base_domain(),
{
    match outcome {
        UpgradeOutcome::Reply(data) => UpgradeResult { to_browser: data, bridge: true },
        UpgradeOutcome::NotSent => {
            registry.remove_websocket(connection_id);
            UpgradeResult { to_browser: copy_bytes(upgrade_not_sent_response()), bridge: false }
        },
        UpgradeOutcome::Disconnected => {
            registry.remove_websocket(connection_id);
            UpgradeResult { to_browser: copy_bytes(agent_disconnected_response()), bridge: false }
        },
        UpgradeOutcome::TimedOut => {
            registry.remove_websocket(connection_id);
            UpgradeResult { to_browser: copy_bytes(upgrade_timeout_response()), bridge: false }
        },
    }
}

/// The message that carries bytes read from the browser on a bridged connection.
pub fn browser_frame(connection_id: &str, chunk: &[u8]) -> (r: TunnelMessage)
    ensures
        r@ == (TunnelMessageView::WebSocketFrame {
            connection_id: connection_id@,
            frame_data: chunk@,
        }),
{
    TunnelMessage::WebSocketFrame {
        connection_id: connection_id.to_string(),
        frame_data: copy_bytes(chunk),
    }
}

/// The message that tells the agent that the browser's side has ended.
pub fn browser_closed(connection_id: &str) -> (r: TunnelMessage)
    ensures
        r@ == (TunnelMessageView::WebSocketClose { connection_id: connection_id@ }),
{
    TunnelMessage::WebSocketClose { connection_id: connection_id.to_string() }
}

/// Ends a bridge: the connection leaves the registry.
pub fn end_bridge(registry: &mut TunnelRegistry, connection_id: &str)
    ensures
        final(registry).pending_websockets() == old(registry).pending_websockets().remove(
            connection_id@,
        ),
        final(registry).tunnels() == old(registry).tunnels(),
        final(registry).pending_requests() == old(registry).pending_requests(),
        final(registry).upcoming_request_id() == old(registry).upcoming_request_id(),
        final(registry).upcoming_connection_number() == old(registry).upcoming_connection_number(),
        final(registry).base_domain() == old(registry).base_domain(),
{
    registry.remove_websocket(connection_id);
}

/// Every request that the edge has entered ends with one answer to the browser:
/// the agent's response, the 503 page in its place, or one of the three
/// synthesized answers with status 502 or 504.
pub proof fn law_one_answer(outcome: ForwardOutcomeView)
    ensures
        ({
            let answer = forward_result(outcome).to_browser;
            match outcome {
                ForwardOutcomeView::Response(data) => answer == data || (noverlink_error(data)
                    is Some && answer == unavailable_response(noverlink_error(data).unwrap())),
                ForwardOutcomeView::NotSent => answer == ascii_bytes(
                    "HTTP/1.1 504 Gateway Timeout\r\n\r\nCLI not responding\r\n"@,
                ),
                ForwardOutcomeView::Disconnected => answer == ascii_bytes(
                    "HTTP/1.1 502 Bad Gateway\r\n\r\nCLI disconnected\r\n"@,
                ),
                ForwardOutcomeView::TimedOut => answer == ascii_bytes(
                    "HTTP/1.1 504 Gateway Timeout\r\n\r\nRequest timeout\r\n"@,
                ),
            }
        }),
{
}

} // verus!
