use base64::Engine;
use hmac::{Hmac, Mac};
use noverlink::agent::{
    feed_upgrade_reply, local_closed, local_frame, on_registration_reply, on_relay_message,
    on_upgrade_reply, registration, response_message, AgentStep, Bridges, OutgoingResponse,
    Registration, ReplyProgress,
};
use noverlink::logging::{
    build_request_log, write_headers_json, HttpRequestLog, LogBuffer, LoggerMessage,
    RequestSummary, RequestTimer,
};
use noverlink::protocol::{decode_message, encode_message, WebSocketMessage};
use noverlink::registry::{TunnelMessage, TunnelRegistry};
use noverlink::request::Header;
use noverlink::session::{
    consider_registration, open_tunnel, session_refused, Admission, Delivery, Session,
};
use noverlink::ticket::TicketVerifier;
use sha2::Sha256;
use tokio::sync::mpsc;

const SECRET: &str = "0123456789abcdef0123456789abcdef";

fn ticket(subdomain: Option<&str>, exp: i64, secret: &str) -> String {
    let mut body = String::from("{\"user_id\":\"user-1\",\"plan\":\"free\",\"max_tunnels\":1");
    if let Some(s) = subdomain {
        body.push_str(&format!(",\"subdomain\":\"{}\"", s));
    }
    body.push_str(&format!(",\"ticket_id\":\"t-1\",\"exp\":{}", exp));
    let mut mac = Hmac::<Sha256>::new_from_slice(secret.as_bytes()).unwrap();
    mac.update(format!("{}}}", body).as_bytes());
    let sig = hex::encode(mac.finalize().into_bytes());
    let signed = format!("{},\"sig\":\"{}\"}}", body, sig);
    base64::engine::general_purpose::URL_SAFE_NO_PAD.encode(signed.as_bytes())
}

fn register_text(ticket: &str) -> Vec<u8> {
    encode_message(&WebSocketMessage::Register { ticket: ticket.to_string(), local_port: 3000 })
}

fn error_text(admission: Admission) -> String {
    match admission {
        Admission::Refuse { reply: WebSocketMessage::Error { message } } => message,
        _ => panic!("the registration is refused with an error"),
    }
}

fn running_session(registry: &mut TunnelRegistry) -> (Session, mpsc::Receiver<TunnelMessage>) {
    let (tx, rx) = mpsc::channel(100);
    let (session, _ack) = open_tunnel(
        registry,
        "user-1".to_string(),
        "abc".to_string(),
        "example.test".to_string(),
        3000,
        "session-1".to_string(),
        tx,
        1000,
    )
    .ok()
    .unwrap();
    (session, rx)
}

fn log(n: u16) -> HttpRequestLog {
    HttpRequestLog {
        method: "GET".to_string(),
        path: "/".to_string(),
        query_string: None,
        request_headers: String::new(),
        request_body: None,
        response_status: n,
        response_headers: None,
        response_body: None,
        duration_ms: 1,
        timestamp: 0,
        original_request_size: None,
        original_response_size: None,
    }
}

#[test]
fn registration_is_accepted_with_a_good_ticket() {
    let registry = TunnelRegistry::new("relay.test".to_string());
    let verifier = TicketVerifier::new(SECRET);
    let first = register_text(&ticket(Some("abc"), 2000, SECRET));
    match consider_registration(&registry, &verifier, &first, 1000) {
        Admission::Accept { user_id, domain, base_domain, local_port } => {
            assert_eq!(user_id, "user-1");
            assert_eq!(domain, "abc");
            assert_eq!(base_domain, "relay.test");
            assert_eq!(local_port, 3000);
        }
        _ => panic!("the ticket is good"),
    }
}

#[test]
fn expired_ticket_is_refused_with_its_reason() {
    let registry = TunnelRegistry::new("relay.test".to_string());
    let verifier = TicketVerifier::new(SECRET);
    let first = register_text(&ticket(Some("abc"), 999, SECRET));
    let message = error_text(consider_registration(&registry, &verifier, &first, 1000));
    assert!(message.starts_with("Authentication failed: "));
    assert!(message.contains("expired"));
    assert_eq!(message, "Authentication failed: Ticket expired");
}

#[test]
fn registrations_are_refused_for_each_reason() {
    let mut registry = TunnelRegistry::new("relay.test".to_string());
    let verifier = TicketVerifier::new(SECRET);
    let wrong = register_text(&ticket(Some("abc"), 2000, "another-secret-another-secret-xx"));
    assert_eq!(
        error_text(consider_registration(&registry, &verifier, &wrong, 1000)),
        "Authentication failed: Invalid ticket signature"
    );
    let garbage = register_text("garbage");
    assert_eq!(
        error_text(consider_registration(&registry, &verifier, &garbage, 1000)),
        "Authentication failed: Ticket malformed"
    );
    let nameless = register_text(&ticket(None, 2000, SECRET));
    assert_eq!(
        error_text(consider_registration(&registry, &verifier, &nameless, 1000)),
        "Invalid ticket: missing subdomain"
    );
    let (_session, _rx) = running_session(&mut registry);
    let taken = register_text(&ticket(Some("abc"), 2000, SECRET));
    assert_eq!(
        error_text(consider_registration(&registry, &verifier, &taken, 1000)),
        "Domain 'abc' is already in use on this relay"
    );
    assert!(matches!(
        consider_registration(&registry, &verifier, b"{\"type\":\"ping\"}", 1000),
        Admission::Ignore
    ));
    assert!(matches!(
        consider_registration(&registry, &verifier, b"not json", 1000),
        Admission::Ignore
    ));
    assert!(matches!(
        session_refused(),
        WebSocketMessage::Error { message } if message == "Failed to create tunnel session"
    ));
}

#[test]
fn opening_a_tunnel_acknowledges_with_its_url() {
    let mut registry = TunnelRegistry::new("relay.test".to_string());
    let (tx, _rx) = mpsc::channel(100);
    let (session, ack) = open_tunnel(
        &mut registry,
        "user-1".to_string(),
        "abc".to_string(),
        "example.test".to_string(),
        3000,
        "session-1".to_string(),
        tx,
        77,
    )
    .ok()
    .unwrap();
    match ack {
        WebSocketMessage::Ack { domain, url } => {
            assert_eq!(domain, "abc");
            assert_eq!(url, "https://abc.example.test");
        }
        _ => panic!("an acknowledgement"),
    }
    assert_eq!(session.domain, "abc");
    assert_eq!(session.session_id, "session-1");
    assert_eq!((session.bytes_in, session.bytes_out, session.last_message), (0, 0, 77));
    let tunnel = registry.get("abc").unwrap();
    assert_eq!(tunnel.user_id, "user-1");
    assert_eq!(tunnel.base_domain, "example.test");
    assert_eq!(tunnel.local_port, 3000);

    let (tx2, _rx2) = mpsc::channel(100);
    let second = open_tunnel(
        &mut registry,
        "user-2".to_string(),
        "abc".to_string(),
        "example.test".to_string(),
        1,
        "session-2".to_string(),
        tx2,
        78,
    );
    match second {
        Err(WebSocketMessage::Error { message }) => {
            assert_eq!(message, "Domain 'abc' is already in use on this relay")
        }
        _ => panic!("the subdomain is taken"),
    }
    assert_eq!(registry.get("abc").unwrap().session_id, "session-1");
}

#[test]
fn heartbeat_gives_up_after_ninety_seconds_of_silence() {
    let mut registry = TunnelRegistry::new("relay.test".to_string());
    let (mut session, _rx) = running_session(&mut registry);
    assert!(matches!(session.on_heartbeat(1030), Some(WebSocketMessage::Ping)));
    assert!(matches!(session.on_heartbeat(1060), Some(WebSocketMessage::Ping)));
    assert!(matches!(session.on_heartbeat(1089), Some(WebSocketMessage::Ping)));
    assert!(session.on_heartbeat(1090).is_none());
    assert!(session.on_heartbeat(1091).is_none());
    assert!(matches!(session.on_heartbeat(5), Some(WebSocketMessage::Ping)));

    let _ = session.on_agent_message(&mut registry, b"{\"type\":\"pong\"}", 1080);
    assert_eq!(session.last_message, 1080);
    assert!(matches!(session.on_heartbeat(1169), Some(WebSocketMessage::Ping)));
    assert!(session.on_heartbeat(1170).is_none());

    let closing = session.close(&mut registry);
    assert_eq!(closing.session_id, "session-1");
    assert!(registry.is_domain_available("abc"));
}

#[test]
fn edge_messages_are_carried_and_counted() {
    let mut registry = TunnelRegistry::new("relay.test".to_string());
    let (mut session, _rx) = running_session(&mut registry);
    let out = session
        .on_edge_message(TunnelMessage::HttpRequest { request_id: 7, request_data: b"HELLO WORLD".to_vec() })
        .unwrap();
    assert!(matches!(
        out,
        WebSocketMessage::Request { request_id: 7, payload } if payload == "SEVMTE8gV09STEQ="
    ));
    assert_eq!(session.bytes_in, 11);
    let out = session
        .on_edge_message(TunnelMessage::WebSocketUpgrade { connection_id: "ws-1".to_string(), request_data: b"ab".to_vec() })
        .unwrap();
    assert!(matches!(
        out,
        WebSocketMessage::WebSocketUpgrade { connection_id, initial_request } if connection_id == "ws-1" && initial_request == "YWI="
    ));
    let out = session
        .on_edge_message(TunnelMessage::WebSocketFrame { connection_id: "ws-1".to_string(), frame_data: b"c".to_vec() })
        .unwrap();
    assert!(matches!(
        out,
        WebSocketMessage::WebSocketFrame { connection_id, data } if connection_id == "ws-1" && data == "Yw=="
    ));
    let out = session
        .on_edge_message(TunnelMessage::WebSocketClose { connection_id: "ws-1".to_string() })
        .unwrap();
    assert!(matches!(out, WebSocketMessage::WebSocketClose { connection_id } if connection_id == "ws-1"));
    assert_eq!(session.bytes_in, 14);
    assert_eq!(session.stats(), (14, 0));

    session.bytes_in = u64::MAX - 1;
    let _ = session.on_edge_message(TunnelMessage::WebSocketFrame {
        connection_id: "ws-1".to_string(),
        frame_data: b"abc".to_vec(),
    });
    assert_eq!(session.bytes_in, u64::MAX);
}

#[test]
fn a_response_is_delivered_to_its_request_once() {
    let mut registry = TunnelRegistry::new("relay.test".to_string());
    let (mut session, _rx) = running_session(&mut registry);
    let (tx, mut rx) = mpsc::channel(1);
    let id = registry.next_request_id();
    registry.register_pending_request(id, "abc".to_string(), tx);

    let text = encode_message(&WebSocketMessage::Response { request_id: id, payload: "aGVsbG8=".to_string() });
    match session.on_agent_message(&mut registry, &text, 1001) {
        Delivery::Deliver { sink, data } => {
            assert_eq!(data, b"hello".to_vec());
            sink.try_send(data).unwrap();
        }
        Delivery::Nothing => panic!("the request is pending"),
    }
    assert_eq!(rx.try_recv().unwrap(), b"hello".to_vec());
    assert_eq!(session.bytes_out, 5);

    assert!(matches!(session.on_agent_message(&mut registry, &text, 1002), Delivery::Nothing));
    assert_eq!(session.bytes_out, 10);
    assert_eq!(session.last_message, 1002);

    let bad = encode_message(&WebSocketMessage::Response { request_id: id, payload: "***".to_string() });
    assert!(matches!(session.on_agent_message(&mut registry, &bad, 1003), Delivery::Nothing));
    assert_eq!(session.bytes_out, 10);
    assert!(matches!(session.on_agent_message(&mut registry, b"garbage", 1004), Delivery::Nothing));
    assert_eq!(session.last_message, 1004);
}

#[test]
fn frames_arrive_in_the_order_sent() {
    let mut registry = TunnelRegistry::new("relay.test".to_string());
    let (mut session, _rx) = running_session(&mut registry);
    let id = registry.next_ws_connection_id();
    let (mut upgrade_rx, mut frame_rx) = registry.register_pending_websocket(id.clone(), "abc".to_string());

    let ready = encode_message(&WebSocketMessage::WebSocketReady {
        connection_id: id.clone(),
        upgrade_response: base64::engine::general_purpose::STANDARD.encode(b"HTTP/1.1 101 X\r\n\r\n"),
    });
    match session.on_agent_message(&mut registry, &ready, 1001) {
        Delivery::Deliver { sink, data } => sink.try_send(data).unwrap(),
        Delivery::Nothing => panic!("the connection is pending"),
    }
    assert_eq!(upgrade_rx.try_recv().unwrap(), b"HTTP/1.1 101 X\r\n\r\n".to_vec());

    for frame in [&b"F1"[..], &b"F2"[..], &b"F3"[..]] {
        let text = encode_message(&WebSocketMessage::WebSocketFrame {
            connection_id: id.clone(),
            data: base64::engine::general_purpose::STANDARD.encode(frame),
        });
        match session.on_agent_message(&mut registry, &text, 1002) {
            Delivery::Deliver { sink, data } => sink.try_send(data).unwrap(),
            Delivery::Nothing => panic!("the connection is bridged"),
        }
    }
    assert_eq!(frame_rx.try_recv().unwrap(), b"F1".to_vec());
    assert_eq!(frame_rx.try_recv().unwrap(), b"F2".to_vec());
    assert_eq!(frame_rx.try_recv().unwrap(), b"F3".to_vec());

    let close = encode_message(&WebSocketMessage::WebSocketClose { connection_id: id.clone() });
    assert!(matches!(session.on_agent_message(&mut registry, &close, 1003), Delivery::Nothing));
    assert!(registry.websocket_sinks(&id).is_none());
    let late = encode_message(&WebSocketMessage::WebSocketFrame { connection_id: id, data: "RjQ=".to_string() });
    assert!(matches!(session.on_agent_message(&mut registry, &late, 1004), Delivery::Nothing));
}

#[test]
fn a_refused_upgrade_is_delivered_and_forgotten() {
    let mut registry = TunnelRegistry::new("relay.test".to_string());
    let (mut session, _rx) = running_session(&mut registry);
    let id = registry.next_ws_connection_id();
    let (mut upgrade_rx, _frame_rx) = registry.register_pending_websocket(id.clone(), "abc".to_string());
    let refused = encode_message(&WebSocketMessage::WebSocketError {
        connection_id: id.clone(),
        error_response: base64::engine::general_purpose::STANDARD.encode(b"HTTP/1.1 400 Bad Request\r\n\r\n"),
    });
    match session.on_agent_message(&mut registry, &refused, 1001) {
        Delivery::Deliver { sink, data } => sink.try_send(data).unwrap(),
        Delivery::Nothing => panic!("the connection is pending"),
    }
    assert_eq!(upgrade_rx.try_recv().unwrap(), b"HTTP/1.1 400 Bad Request\r\n\r\n".to_vec());
    assert!(registry.websocket_sinks(&id).is_none());
}

#[test]
fn nothing_is_left_when_everything_has_ended() {
    let mut registry = TunnelRegistry::new("relay.test".to_string());
    let (session, _rx) = running_session(&mut registry);
    let (tx, _response_rx) = mpsc::channel(1);
    let (request_id, _) = noverlink::edge::begin_forward(&mut registry, "abc", tx, Vec::new());
    let pending = noverlink::edge::begin_upgrade(&mut registry, "abc", Vec::new());
    let _ = noverlink::edge::conclude_forward(&mut registry, request_id, noverlink::edge::ForwardOutcome::TimedOut);
    noverlink::edge::end_bridge(&mut registry, &pending.connection_id);
    let _ = session.close(&mut registry);
    assert!(registry.is_domain_available("abc"));
    assert!(registry.get("abc").is_none());
    assert!(registry.take_pending_request(request_id).is_none());
    assert!(registry.websocket_sinks(&pending.connection_id).is_none());
}

#[test]
fn agent_registers_and_reads_the_reply() {
    let first = registration("ticket-text", 3000);
    assert_eq!(
        String::from_utf8(encode_message(&first)).unwrap(),
        "{\"type\":\"register\",\"ticket\":\"ticket-text\",\"local_port\":3000}"
    );
    let ack = encode_message(&WebSocketMessage::Ack { domain: "abc".to_string(), url: "https://abc.example.test".to_string() });
    assert!(matches!(
        on_registration_reply(&ack),
        Registration::Accepted { url } if url == "https://abc.example.test"
    ));
    let error = encode_message(&WebSocketMessage::Error { message: "Authentication failed: Ticket expired".to_string() });
    assert!(matches!(
        on_registration_reply(&error),
        Registration::Refused { message } if message == "Registration failed: Authentication failed: Ticket expired"
    ));
    assert!(matches!(on_registration_reply(b"{\"type\":\"ping\"}"), Registration::Pending));
    assert!(matches!(on_registration_reply(b"nonsense"), Registration::Unreadable));
}

#[test]
fn agent_dispatches_the_relays_messages() {
    let mut bridges = Bridges::new();
    let request = encode_message(&WebSocketMessage::Request { request_id: 9, payload: "R0VUIC8=".to_string() });
    match on_relay_message(&mut bridges, &request) {
        AgentStep::Forward(r) => {
            assert_eq!(r.id, 9);
            assert_eq!(r.payload, b"GET /".to_vec());
        }
        _ => panic!("a request is forwarded"),
    }
    let upgrade = encode_message(&WebSocketMessage::WebSocketUpgrade { connection_id: "ws-1".to_string(), initial_request: "R0VUIC8=".to_string() });
    match on_relay_message(&mut bridges, &upgrade) {
        AgentStep::StartBridge(u) => {
            assert_eq!(u.connection_id, "ws-1");
            assert_eq!(u.initial_request, b"GET /".to_vec());
        }
        _ => panic!("an upgrade opens a bridge"),
    }
    let frame = encode_message(&WebSocketMessage::WebSocketFrame { connection_id: "ws-1".to_string(), data: "cGluZw==".to_string() });
    assert!(matches!(on_relay_message(&mut bridges, &frame), AgentStep::Ignore));

    let (tx, mut rx) = mpsc::channel(100);
    bridges.register("ws-1".to_string(), tx);
    match on_relay_message(&mut bridges, &frame) {
        AgentStep::ToBridge { connection_id, sink, data } => {
            assert_eq!(connection_id, "ws-1");
            sink.try_send(data).unwrap();
        }
        _ => panic!("the bridge is there"),
    }
    assert_eq!(rx.try_recv().unwrap(), b"ping".to_vec());

    assert!(matches!(
        on_relay_message(&mut bridges, b"{\"type\":\"ping\"}"),
        AgentStep::Reply(WebSocketMessage::Pong)
    ));
    assert!(matches!(
        on_relay_message(&mut bridges, b"{\"type\":\"error\",\"message\":\"bye\"}"),
        AgentStep::Stop
    ));
    assert!(matches!(on_relay_message(&mut bridges, b"{\"type\":\"pong\"}"), AgentStep::Ignore));
    assert!(matches!(on_relay_message(&mut bridges, b"nonsense"), AgentStep::Ignore));
    let bad = encode_message(&WebSocketMessage::Request { request_id: 1, payload: "!!".to_string() });
    assert!(matches!(on_relay_message(&mut bridges, &bad), AgentStep::Ignore));

    let close = encode_message(&WebSocketMessage::WebSocketClose { connection_id: "ws-1".to_string() });
    assert!(matches!(on_relay_message(&mut bridges, &close), AgentStep::Ignore));
    assert!(bridges.sink("ws-1").is_none());
    bridges.release("ws-1");
}

#[test]
fn agent_writes_its_messages() {
    let response = response_message(&OutgoingResponse { id: 4, payload: b"hello".to_vec() }).unwrap();
    assert!(matches!(
        response,
        WebSocketMessage::Response { request_id: 4, payload } if payload == "aGVsbG8="
    ));
    let (ready, run) = on_upgrade_reply("ws-2", b"HTTP/1.1 101 Switching Protocols\r\n\r\n").unwrap();
    assert!(run);
    assert!(matches!(ready, WebSocketMessage::WebSocketReady { connection_id, .. } if connection_id == "ws-2"));
    let (refused, run) = on_upgrade_reply("ws-2", b"HTTP/1.1 400 Bad Request\r\n\r\n").unwrap();
    assert!(!run);
    match refused {
        WebSocketMessage::WebSocketError { connection_id, error_response } => {
            assert_eq!(connection_id, "ws-2");
            assert_eq!(
                base64::engine::general_purpose::STANDARD.decode(error_response).unwrap(),
                b"HTTP/1.1 400 Bad Request\r\n\r\n".to_vec()
            );
        }
        _ => panic!("a refusal"),
    }
    assert!(matches!(
        local_frame("ws-2", b"ping").unwrap(),
        WebSocketMessage::WebSocketFrame { connection_id, data } if connection_id == "ws-2" && data == "cGluZw=="
    ));
    assert!(matches!(
        local_closed("ws-2"),
        WebSocketMessage::WebSocketClose { connection_id } if connection_id == "ws-2"
    ));
    let text = encode_message(&local_frame("ws-2", b"ping").unwrap());
    assert!(decode_message(&text).is_some());
}

#[test]
fn upgrade_reply_is_read_to_the_end_of_its_head() {
    let mut buffer = Vec::new();
    assert_eq!(feed_upgrade_reply(&mut buffer, b"HTTP/1.1 101 X\r\n"), ReplyProgress::NeedMore);
    assert_eq!(feed_upgrade_reply(&mut buffer, b"\r\n"), ReplyProgress::Complete);
    let mut long = Vec::new();
    assert_eq!(feed_upgrade_reply(&mut long, &vec![b'a'; 8192]), ReplyProgress::NeedMore);
    assert_eq!(feed_upgrade_reply(&mut long, b"a"), ReplyProgress::TooLarge);
    let mut edge = vec![b'a'; 8188];
    assert_eq!(feed_upgrade_reply(&mut edge, b"\r\n\r\n"), ReplyProgress::Complete);
    let mut over = vec![b'a'; 8189];
    assert_eq!(feed_upgrade_reply(&mut over, b"\r\n\r\n"), ReplyProgress::TooLarge);
}

#[test]
fn records_are_batched_by_session() {
    let mut buffer = LogBuffer::new();
    for n in 0..49 {
        assert!(buffer
            .on_message(LoggerMessage::Log { session_id: "a".to_string(), request: log(n) })
            .is_none());
    }
    assert!(buffer
        .on_message(LoggerMessage::Log { session_id: "b".to_string(), request: log(500) })
        .is_none());
    let batch = buffer
        .on_message(LoggerMessage::Log { session_id: "a".to_string(), request: log(49) })
        .unwrap();
    assert_eq!(batch.session_id, "a");
    assert_eq!(batch.requests.len(), 50);
    for (n, request) in batch.requests.iter().enumerate() {
        assert_eq!(request.response_status as usize, n);
    }
    assert!(buffer
        .on_message(LoggerMessage::Log { session_id: "a".to_string(), request: log(50) })
        .is_none());
    let flushed = buffer
        .on_message(LoggerMessage::FlushSession { session_id: "b".to_string() })
        .unwrap();
    assert_eq!(flushed.session_id, "b");
    assert_eq!(flushed.requests.len(), 1);
    assert_eq!(flushed.requests[0].response_status, 500);
    assert!(buffer
        .on_message(LoggerMessage::FlushSession { session_id: "b".to_string() })
        .is_none());
    assert!(buffer
        .on_message(LoggerMessage::Log { session_id: "c".to_string(), request: log(7) })
        .is_none());
    let all = buffer.on_tick();
    assert_eq!(all.len(), 2);
    assert_eq!(all[0].session_id, "a");
    assert_eq!(all[0].requests[0].response_status, 50);
    assert_eq!(all[1].session_id, "c");
    assert!(buffer.on_tick().is_empty());
}

#[test]
fn request_record_holds_its_fields() {
    let headers = vec![
        Header { name: b"Host".to_vec(), value: b"abc.example.test".to_vec() },
        Header { name: b"X-A".to_vec(), value: b"1".to_vec() },
        Header { name: b"X-Bin".to_vec(), value: vec![0xff] },
        Header { name: b"X-A".to_vec(), value: b"2".to_vec() },
    ];
    assert_eq!(
        String::from_utf8(write_headers_json(&headers)).unwrap(),
        "{\"Host\":\"abc.example.test\",\"X-A\":\"2\"}"
    );
    assert_eq!(String::from_utf8(write_headers_json(&Vec::new())).unwrap(), "{}");
    let response_headers = vec![Header { name: b"Content-Length".to_vec(), value: b"5".to_vec() }];
    let record = build_request_log(&RequestSummary {
        method: b"POST",
        path: b"/api",
        query: Some(b"x=1"),
        headers: &headers,
        body: b"hello",
        response_status: 200,
        response_headers: Some(&response_headers),
        response_body: Some(b"hello"),
        original_response_size: None,
        duration_ms: 12,
        timestamp: 1_700_000_000,
    });
    assert_eq!(record.method, "POST");
    assert_eq!(record.path, "/api");
    assert_eq!(record.query_string.as_deref(), Some("x=1"));
    assert_eq!(
        base64::engine::general_purpose::STANDARD.decode(&record.request_headers).unwrap(),
        b"{\"Host\":\"abc.example.test\",\"X-A\":\"2\"}".to_vec()
    );
    assert_eq!(record.request_body.as_deref(), Some("aGVsbG8="));
    assert_eq!(record.response_status, 200);
    assert_eq!(
        base64::engine::general_purpose::STANDARD.decode(record.response_headers.unwrap()).unwrap(),
        b"{\"Content-Length\":\"5\"}".to_vec()
    );
    assert_eq!(record.response_body.as_deref(), Some("aGVsbG8="));
    assert_eq!(record.duration_ms, 12);
    assert_eq!(record.timestamp, 1_700_000_000);
    assert_eq!(record.original_request_size, Some(5));
    assert_eq!(record.original_response_size, None);

    let long = vec![b'x'; 70_000];
    let record = build_request_log(&RequestSummary {
        method: &[0xff],
        path: &[0xfe],
        query: None,
        headers: &Vec::new(),
        body: &long,
        response_status: 504,
        response_headers: None,
        response_body: None,
        original_response_size: Some(9),
        duration_ms: u64::MAX,
        timestamp: -1,
    });
    let empty = build_request_log(&RequestSummary {
        method: b"GET",
        path: b"/",
        query: None,
        headers: &Vec::new(),
        body: b"",
        response_status: 200,
        response_headers: None,
        response_body: None,
        original_response_size: None,
        duration_ms: 0,
        timestamp: 0,
    });
    assert!(empty.request_body.is_none());
    assert!(empty.original_request_size.is_none());
    assert_eq!(record.method, "UNKNOWN");
    assert_eq!(record.path, "/");
    assert!(record.query_string.is_none());
    assert_eq!(
        base64::engine::general_purpose::STANDARD.decode(record.request_body.unwrap()).unwrap().len(),
        65536
    );
    assert_eq!(record.original_request_size, Some(70_000));
    assert_eq!(record.original_response_size, Some(9));
    assert_eq!(record.duration_ms, u32::MAX);
    assert!(record.response_headers.is_none());
    assert!(record.response_body.is_none());
}

#[test]
fn timer_measures_from_its_start() {
    let timer = RequestTimer::start_now();
    assert!(timer.elapsed_ms() < 60_000);
}

#[test]
fn get_round_trip_through_the_control_channel() {
    let mut registry = TunnelRegistry::new("example.test".to_string());
    let (mut session, mut commands) = running_session(&mut registry);
    let mut bridges = Bridges::new();

    let request = b"GET /hello HTTP/1.1\r\nHost: abc.example.test\r\n\r\n";
    let tunnel = match noverlink::edge::route_request(&registry, request) {
        noverlink::edge::Route::Serve { tunnel, .. } => tunnel,
        noverlink::edge::Route::Reject { .. } => panic!("the tunnel is registered"),
    };
    let (tx, mut response_rx) = mpsc::channel(1);
    let (id, message) = noverlink::edge::begin_forward(&mut registry, "abc", tx, request.to_vec());
    tunnel.request_tx.try_send(message).unwrap();

    let queued = commands.try_recv().unwrap();
    let to_agent = encode_message(&session.on_edge_message(queued).unwrap());

    let incoming = match on_relay_message(&mut bridges, &to_agent) {
        AgentStep::Forward(r) => r,
        _ => panic!("a request is forwarded"),
    };
    assert_eq!(incoming.id, id);
    assert_eq!(
        noverlink::host::rewrite_host_header(&incoming.payload, 8080),
        b"GET /hello HTTP/1.1\r\nHost: localhost:8080\r\n\r\n".to_vec()
    );
    let local = b"HTTP/1.1 200 OK\r\nContent-Length: 5\r\n\r\nhello".to_vec();
    let from_agent = encode_message(
        &response_message(&OutgoingResponse { id: incoming.id, payload: local.clone() }).unwrap(),
    );

    match session.on_agent_message(&mut registry, &from_agent, 1001) {
        Delivery::Deliver { sink, data } => sink.try_send(data).unwrap(),
        Delivery::Nothing => panic!("the request is pending"),
    }
    let outcome = noverlink::edge::ForwardOutcome::Response(response_rx.try_recv().unwrap());
    let result = noverlink::edge::conclude_forward(&mut registry, id, outcome);
    assert_eq!(result.to_browser, local);
    assert_eq!(session.stats(), (request.len() as u64, local.len() as u64));
}

#[test]
fn websocket_echo_passes_both_ways() {
    let mut registry = TunnelRegistry::new("example.test".to_string());
    let (mut session, _commands) = running_session(&mut registry);
    let mut bridges = Bridges::new();

    let head = b"GET /ws HTTP/1.1\r\nHost: abc.example.test\r\nUpgrade: websocket\r\nConnection: Upgrade\r\nSec-WebSocket-Key: k\r\n\r\n";
    let mut pending = noverlink::edge::begin_upgrade(&mut registry, "abc", head.to_vec());
    let connection_id = pending.connection_id.clone();
    let to_agent = encode_message(&session.on_edge_message(pending.message).unwrap());
    let upgrade = match on_relay_message(&mut bridges, &to_agent) {
        AgentStep::StartBridge(u) => u,
        _ => panic!("an upgrade opens a bridge"),
    };
    assert_eq!(upgrade.initial_request, head.to_vec());

    let accepted = b"HTTP/1.1 101 Switching Protocols\r\n\r\n";
    let (ready, run) = on_upgrade_reply(&upgrade.connection_id, accepted).unwrap();
    assert!(run);
    let (to_local, mut local_rx) = mpsc::channel(100);
    bridges.register(upgrade.connection_id.clone(), to_local);
    match session.on_agent_message(&mut registry, &encode_message(&ready), 1001) {
        Delivery::Deliver { sink, data } => sink.try_send(data).unwrap(),
        Delivery::Nothing => panic!("the connection is pending"),
    }
    let reply = pending.upgrade_rx.try_recv().unwrap();
    let result = noverlink::edge::conclude_upgrade(
        &mut registry,
        &connection_id,
        noverlink::edge::UpgradeOutcome::Reply(reply),
    );
    assert_eq!(result.to_browser, accepted.to_vec());

    let frame = noverlink::edge::browser_frame(&connection_id, b"ping");
    let to_agent = encode_message(&session.on_edge_message(frame).unwrap());
    match on_relay_message(&mut bridges, &to_agent) {
        AgentStep::ToBridge { sink, data, .. } => sink.try_send(data).unwrap(),
        _ => panic!("the bridge is open"),
    }
    let at_local = local_rx.try_recv().unwrap();
    assert_eq!(at_local, b"ping".to_vec());

    let echoed = encode_message(&local_frame(&upgrade.connection_id, &at_local).unwrap());
    match session.on_agent_message(&mut registry, &echoed, 1002) {
        Delivery::Deliver { sink, data } => sink.try_send(data).unwrap(),
        Delivery::Nothing => panic!("the connection is bridged"),
    }
    assert_eq!(pending.frame_rx.try_recv().unwrap(), b"ping".to_vec());
}


#[test]
fn ending_a_session_fails_what_waits_on_it() {
    let mut registry = TunnelRegistry::new("relay.test".to_string());
    let (session, _commands) = running_session(&mut registry);
    let (other_tx, _other_commands) = mpsc::channel(100);
    let _other = open_tunnel(
        &mut registry,
        "user-2".to_string(),
        "xyz".to_string(),
        "example.test".to_string(),
        4000,
        "session-2".to_string(),
        other_tx,
        1000,
    )
    .ok()
    .unwrap();

    let (tx, mut response_rx) = mpsc::channel(1);
    let (request_id, _) = noverlink::edge::begin_forward(&mut registry, "abc", tx, Vec::new());
    let (other_sink, mut other_rx) = mpsc::channel(1);
    let (other_id, _) = noverlink::edge::begin_forward(&mut registry, "xyz", other_sink, Vec::new());
    let mut bridged = noverlink::edge::begin_upgrade(&mut registry, "abc", Vec::new());
    let other_bridged = noverlink::edge::begin_upgrade(&mut registry, "xyz", Vec::new());
    assert!(matches!(response_rx.try_recv(), Err(mpsc::error::TryRecvError::Empty)));

    let _ = session.close(&mut registry);

    assert!(registry.get("abc").is_none());
    assert!(registry.get("xyz").is_some());
    assert!(matches!(response_rx.try_recv(), Err(mpsc::error::TryRecvError::Disconnected)));
    assert!(matches!(bridged.upgrade_rx.try_recv(), Err(mpsc::error::TryRecvError::Disconnected)));
    assert!(matches!(bridged.frame_rx.try_recv(), Err(mpsc::error::TryRecvError::Disconnected)));
    assert!(registry.websocket_sinks(&bridged.connection_id).is_none());
    assert_eq!(registry.websocket_sinks(&other_bridged.connection_id).unwrap().domain, "xyz");

    let answer = noverlink::edge::conclude_forward(
        &mut registry,
        request_id,
        noverlink::edge::ForwardOutcome::Disconnected,
    );
    assert_eq!(answer.status, 502);
    assert!(answer.to_browser.starts_with(b"HTTP/1.1 502 Bad Gateway\r\n"));
    assert!(registry.take_pending_request(request_id).is_none());

    assert!(matches!(other_rx.try_recv(), Err(mpsc::error::TryRecvError::Empty)));
    let sink = registry.take_pending_request(other_id).unwrap();
    sink.try_send(b"late".to_vec()).unwrap();
    assert_eq!(other_rx.try_recv().unwrap(), b"late".to_vec());
}

#[test]
fn a_response_after_the_end_of_its_session_goes_nowhere() {
    let mut registry = TunnelRegistry::new("relay.test".to_string());
    let (session, _commands) = running_session(&mut registry);
    let (tx, _response_rx) = mpsc::channel(1);
    let (request_id, _) = noverlink::edge::begin_forward(&mut registry, "abc", tx, Vec::new());
    assert_eq!(request_id, 1);
    let _ = session.close(&mut registry);

    let (mut later, _later_commands) = running_session(&mut registry);
    let text = b"{\"type\":\"response\",\"request_id\":1,\"payload\":\"aGk=\"}";
    assert!(matches!(later.on_agent_message(&mut registry, text, 1001), Delivery::Nothing));
}
