use noverlink::edge::{
    begin_forward, begin_upgrade, browser_closed, browser_frame, conclude_forward,
    conclude_upgrade, end_bridge, feed_head, remaining_body, route_request, ForwardOutcome,
    HeadProgress, Route, UpgradeOutcome,
};
use noverlink::http::find_headers_end;
use noverlink::pages::{
    header_too_large_response, render_404_page, render_503_error_page, request_timeout_response,
};
use noverlink::registry::{TunnelMessage, TunnelRegistry};
use noverlink::request::{is_websocket_upgrade, parse_request_prefix, RequestPrefix};
use noverlink::response::{
    extract_noverlink_error, parse_response_headers, parse_response_status, NoverlinkError,
};
use tokio::sync::mpsc;

fn registry_with(subdomain: &str) -> (TunnelRegistry, mpsc::Receiver<TunnelMessage>) {
    let mut registry = TunnelRegistry::new("example.test".to_string());
    let (tx, rx) = mpsc::channel(100);
    registry
        .register(
            subdomain.to_string(),
            "example.test".to_string(),
            "user-1".to_string(),
            "session-1".to_string(),
            tx,
            3000,
        )
        .unwrap();
    (registry, rx)
}

#[test]
fn http_test_find_headers_end() {
    let req = b"GET / HTTP/1.1\r\nHost: example.com\r\n\r\nBody";
    assert_eq!(find_headers_end(req), Some(33));

    let incomplete = b"GET / HTTP/1.1\r\nHost: example.com\r\n";
    assert_eq!(find_headers_end(incomplete), None);
}

#[test]
fn test_is_websocket_upgrade() {
    let ws_request = b"GET /chat HTTP/1.1\r\n\
        Host: example.com\r\n\
        Upgrade: websocket\r\n\
        Connection: Upgrade\r\n\
        Sec-WebSocket-Key: dGhlIHNhbXBsZSBub25jZQ==\r\n\
        Sec-WebSocket-Version: 13\r\n\
        \r\n";

    assert!(is_websocket_upgrade(ws_request));

    let http_request = b"GET / HTTP/1.1\r\n\
        Host: example.com\r\n\
        \r\n";

    assert!(!is_websocket_upgrade(http_request));

    let incomplete_ws = b"GET /chat HTTP/1.1\r\n\
        Host: example.com\r\n\
        Upgrade: websocket\r\n\
        Connection: Upgrade\r\n\
        \r\n";

    assert!(!is_websocket_upgrade(incomplete_ws));
}

#[test]
fn websocket_upgrade_is_case_insensitive() {
    let request = b"GET / HTTP/1.1\r\nUPGRADE: WebSocket\r\nconnection: keep-alive, UPGRADE\r\nsec-websocket-key: x\r\n\r\n";
    assert!(is_websocket_upgrade(request));
    let no_connection = b"GET / HTTP/1.1\r\nUpgrade: websocket\r\nConnection: close\r\nSec-WebSocket-Key: x\r\n\r\n";
    assert!(!is_websocket_upgrade(no_connection));
}

#[test]
fn request_prefix_reads_the_head() {
    let request = b"POST /api?x=1&y=2 HTTP/1.1\r\nHost: abc.example.test:8080\r\nContent-Length: 5\r\n\r\nhello";
    match parse_request_prefix(request) {
        RequestPrefix::Parsed(p) => {
            assert_eq!(p.method, b"POST".to_vec());
            assert_eq!(p.path, b"/api".to_vec());
            assert_eq!(p.query, Some(b"x=1&y=2".to_vec()));
            assert_eq!(p.host.as_deref(), Some("abc.example.test"));
            assert_eq!(p.content_length, Some(5));
            assert!(!p.is_upgrade);
            assert_eq!(p.headers_end, 74);
            assert_eq!(p.headers.len(), 2);
            assert_eq!(p.headers[0].name, b"Host".to_vec());
            assert_eq!(p.headers[1].value, b"5".to_vec());
        }
        _ => panic!("the head is complete"),
    }
}

#[test]
fn request_prefix_tells_incomplete_from_malformed() {
    assert!(matches!(
        parse_request_prefix(b"GET / HTTP/1.1\r\nHost: a\r\n"),
        RequestPrefix::Incomplete
    ));
    assert!(matches!(
        parse_request_prefix(b"GET / HTTP/1.1\r\nBad Header\r\n\r\n"),
        RequestPrefix::Malformed
    ));
    match parse_request_prefix(b"GET / HTTP/1.1\r\nAccept: x\r\n\r\n") {
        RequestPrefix::Parsed(p) => {
            assert!(p.host.is_none());
            assert_eq!(p.content_length, None);
            assert_eq!(p.path, b"/".to_vec());
            assert!(p.query.is_none());
        }
        _ => panic!("the head is complete"),
    }
}

#[test]
fn head_reading_stops_at_the_empty_line_or_at_the_limit() {
    let mut buffer = Vec::new();
    assert_eq!(feed_head(&mut buffer, b"GET / HTTP/1.1\r\nHost: a"), HeadProgress::NeedMore);
    assert_eq!(
        feed_head(&mut buffer, b"\r\n\r\nbody"),
        HeadProgress::Complete { headers_end: 23 }
    );

    let mut long = Vec::new();
    assert_eq!(feed_head(&mut long, &vec![b'a'; 8191]), HeadProgress::NeedMore);
    assert_eq!(feed_head(&mut long, b"a"), HeadProgress::TooLarge);

    let mut late = vec![b'a'; 8000];
    let mut rest = vec![b'a'; 500];
    rest.extend_from_slice(b"\r\n\r\n");
    assert_eq!(feed_head(&mut late, &rest), HeadProgress::TooLarge);
    let mut edge = vec![b'a'; 8188];
    assert_eq!(
        feed_head(&mut edge, b"\r\n\r\nbody"),
        HeadProgress::Complete { headers_end: 8188 }
    );
    let mut over = vec![b'a'; 8189];
    assert_eq!(feed_head(&mut over, b"\r\n\r\n"), HeadProgress::TooLarge);
    assert_eq!(
        header_too_large_response(),
        &b"HTTP/1.1 431 Request Header Fields Too Large\r\n\r\n"[..]
    );
    assert_eq!(request_timeout_response(), &b"HTTP/1.1 408 Request Timeout\r\n\r\n"[..]);
}

#[test]
fn remaining_body_counts_what_is_missing() {
    assert_eq!(remaining_body(77, 68, Some(5)), 0);
    assert_eq!(remaining_body(74, 68, Some(5)), 3);
    assert_eq!(remaining_body(72, 68, None), 0);
    assert_eq!(remaining_body(70, 68, None), 2);
    assert_eq!(remaining_body(0, usize::MAX, Some(u64::MAX)), usize::MAX);
}

#[test]
fn get_round_trip_writes_the_response_unchanged() {
    let (mut registry, _commands) = registry_with("abc");
    let request = b"GET /hello HTTP/1.1\r\nHost: abc.example.test\r\n\r\n";
    let route = route_request(&registry, request);
    let (tunnel, subdomain) = match route {
        Route::Serve { tunnel, subdomain, request } => {
            assert!(!request.is_upgrade);
            (tunnel, subdomain)
        }
        Route::Reject { .. } => panic!("the tunnel is registered"),
    };
    assert_eq!(subdomain, "abc");
    assert_eq!(tunnel.session_id, "session-1");

    let (tx, mut rx) = mpsc::channel(1);
    let (id, message) = begin_forward(&mut registry, "abc", tx, request.to_vec());
    assert_eq!(id, 1);
    match message {
        TunnelMessage::HttpRequest { request_id, request_data } => {
            assert_eq!(request_id, 1);
            assert_eq!(request_data, request.to_vec());
        }
        _ => panic!("a request is forwarded as a request"),
    }

    let response = b"HTTP/1.1 200 OK\r\nContent-Length: 5\r\n\r\nhello".to_vec();
    let sink = registry.take_pending_request(id).expect("the request is pending");
    sink.try_send(response.clone()).unwrap();
    assert!(registry.take_pending_request(id).is_none());
    let received = rx.try_recv().unwrap();

    let result = conclude_forward(&mut registry, id, ForwardOutcome::Response(received));
    assert_eq!(result.to_browser, response);
    assert_eq!(result.status, 200);
    assert_eq!(result.response_body, Some(b"hello".to_vec()));
    assert_eq!(result.original_response_size, None);
    let headers = result.response_headers.unwrap();
    assert_eq!(headers.len(), 1);
    assert_eq!(headers[0].name, b"Content-Length".to_vec());
    assert_eq!(headers[0].value, b"5".to_vec());
}

#[test]
fn post_with_body_is_replayed_and_recorded() {
    let (mut registry, _commands) = registry_with("abc");
    let request = b"POST /api HTTP/1.1\r\nHost: abc.example.test\r\nContent-Length: 5\r\n\r\nhello";
    let parsed = match route_request(&registry, request) {
        Route::Serve { request, .. } => request,
        Route::Reject { .. } => panic!("the tunnel is registered"),
    };
    assert_eq!(remaining_body(request.len(), parsed.headers_end, parsed.content_length), 0);
    assert_eq!(remaining_body(request.len() - 2, parsed.headers_end, parsed.content_length), 2);

    let (tx, _rx) = mpsc::channel(1);
    let (id, message) = begin_forward(&mut registry, "abc", tx, request.to_vec());
    let replayed = match message {
        TunnelMessage::HttpRequest { request_data, .. } => {
            noverlink::host::rewrite_host_header(&request_data, 3000)
        }
        _ => panic!("a request is forwarded as a request"),
    };
    assert_eq!(
        replayed,
        b"POST /api HTTP/1.1\r\nHost: localhost:3000\r\nContent-Length: 5\r\n\r\nhello".to_vec()
    );

    let result = conclude_forward(
        &mut registry,
        id,
        ForwardOutcome::Response(b"HTTP/1.1 201 Created\r\nContent-Length: 0\r\n\r\n".to_vec()),
    );
    let record = noverlink::logging::build_request_log(&noverlink::logging::RequestSummary {
        method: &parsed.method,
        path: &parsed.path,
        query: parsed.query.as_deref(),
        headers: &parsed.headers,
        body: &request[parsed.headers_end + 4..],
        response_status: result.status,
        response_headers: result.response_headers.as_ref(),
        response_body: result.response_body.as_deref(),
        original_response_size: result.original_response_size,
        duration_ms: 3,
        timestamp: 1_700_000_000,
    });
    assert_eq!(record.method, "POST");
    assert_eq!(record.path, "/api");
    assert_eq!(record.original_request_size, Some(5));
    assert_eq!(record.response_status, 201);
    assert!(record.response_body.is_none());
}

#[test]
fn missing_tunnel_gets_the_404_page() {
    let (registry, _commands) = registry_with("abc");
    match route_request(&registry, b"GET / HTTP/1.1\r\nHost: zzz.example.test\r\n\r\n") {
        Route::Reject { response } => {
            let text = String::from_utf8(response).unwrap();
            assert!(text.starts_with("HTTP/1.1 404 Not Found\r\n"));
            assert!(text.contains("zzz.example.test"));
            let (head, body) = text.split_once("\r\n\r\n").unwrap();
            assert!(head.contains(&format!("Content-Length: {}", body.len())));
        }
        Route::Serve { .. } => panic!("no tunnel holds zzz"),
    }
}

#[test]
fn requests_without_host_or_head_are_refused() {
    let (registry, _commands) = registry_with("abc");
    match route_request(&registry, b"GET / HTTP/1.1\r\nAccept: x\r\n\r\n") {
        Route::Reject { response } => {
            assert_eq!(response, b"HTTP/1.1 400 Bad Request\r\n\r\nNo Host header\r\n".to_vec())
        }
        Route::Serve { .. } => panic!("no host"),
    }
    match route_request(&registry, b"GET / HTTP/1.1\r\nHost: abc.example.test\r\n") {
        Route::Reject { response } => assert_eq!(
            response,
            b"HTTP/1.1 400 Bad Request\r\n\r\nIncomplete headers\r\n".to_vec()
        ),
        Route::Serve { .. } => panic!("no head"),
    }
    match route_request(&registry, b"\x01\x02 nonsense\r\n\r\n") {
        Route::Reject { response } => assert_eq!(
            response,
            b"HTTP/1.1 400 Bad Request\r\n\r\nMalformed request\r\n".to_vec()
        ),
        Route::Serve { .. } => panic!("no request"),
    }
}

#[test]
fn page_escapes_the_host() {
    let page = String::from_utf8(render_404_page("<b>&\"'")).unwrap();
    assert!(page.contains("<code>&lt;b&gt;&amp;&quot;&#x27;</code>"));
    let page = String::from_utf8(render_404_page("caf\u{e9}<\u{4e2d}>.example")).unwrap();
    assert!(page.contains("<code>caf\u{e9}&lt;\u{4e2d}&gt;.example</code>"));
    let body = page.split("\r\n\r\n").nth(1).unwrap();
    assert!(page.contains(&format!("Content-Length: {}\r\n", body.len())));
}

#[test]
fn local_down_gets_the_503_page() {
    let (mut registry, _commands) = registry_with("abc");
    let (tx, _rx) = mpsc::channel(1);
    let (id, _) = begin_forward(&mut registry, "abc", tx, b"GET / HTTP/1.1\r\nHost: abc.example.test\r\n\r\n".to_vec());
    let from_agent = b"HTTP/1.1 502 Bad Gateway\r\nContent-Type: text/plain\r\nX-Noverlink-Error: connection-refused\r\nX-Noverlink-Port: 3000\r\nX-Noverlink-Message: Connection refused: os error 111\r\nContent-Length: 2\r\n\r\nno".to_vec();
    let result = conclude_forward(&mut registry, id, ForwardOutcome::Response(from_agent));
    assert_eq!(result.status, 503);
    assert!(result.response_body.is_none());
    let text = String::from_utf8(result.to_browser).unwrap();
    assert!(text.starts_with("HTTP/1.1 503 Service Unavailable\r\n"));
    assert!(text.contains("Content-Type: text/html"));
    assert!(text.contains("Retry-After: 5\r\n"));
    assert!(text.contains("Local Server Not Running"));
    let (_, body) = text.split_once("\r\n\r\n").unwrap();
    assert!(body.contains("3000"));
    assert!(body.contains("Connection refused: os error 111"));
}

#[test]
fn page_text_goes_by_the_kind_of_error() {
    let page = |kind: &str| {
        String::from_utf8(render_503_error_page(&NoverlinkError {
            error_type: kind.to_string(),
            port: "8080".to_string(),
            message: "m".to_string(),
        }))
        .unwrap()
    };
    assert!(page("connection-refused").contains("no server is listening on port 8080."));
    assert!(page("timeout").contains("Your server on port 8080 is taking too long to respond."));
    assert!(page("timeout").contains("<title>Local Server Timeout</title>"));
    assert!(page("other").contains("Could not connect to localhost:8080."));
    assert!(page("other").contains("<h1>Connection Error</h1>"));
}

#[test]
fn synthesized_answers_for_each_failure() {
    let (mut registry, _commands) = registry_with("abc");
    let mut conclude = |outcome: ForwardOutcome| {
        let (tx, _rx) = mpsc::channel(1);
        let (id, _) = begin_forward(&mut registry, "abc", tx, Vec::new());
        let result = conclude_forward(&mut registry, id, outcome);
        assert!(registry.take_pending_request(id).is_none());
        (result.to_browser, result.status)
    };
    assert_eq!(
        conclude(ForwardOutcome::NotSent),
        (b"HTTP/1.1 504 Gateway Timeout\r\n\r\nCLI not responding\r\n".to_vec(), 504)
    );
    assert_eq!(
        conclude(ForwardOutcome::Disconnected),
        (b"HTTP/1.1 502 Bad Gateway\r\n\r\nCLI disconnected\r\n".to_vec(), 502)
    );
    assert_eq!(
        conclude(ForwardOutcome::TimedOut),
        (b"HTTP/1.1 504 Gateway Timeout\r\n\r\nRequest timeout\r\n".to_vec(), 504)
    );
}

#[test]
fn long_response_bodies_are_cut_for_the_record() {
    let (mut registry, _commands) = registry_with("abc");
    let (tx, _rx) = mpsc::channel(1);
    let (id, _) = begin_forward(&mut registry, "abc", tx, Vec::new());
    let mut response = b"HTTP/1.1 200 OK\r\n\r\n".to_vec();
    response.extend(vec![b'z'; 70000]);
    let result = conclude_forward(&mut registry, id, ForwardOutcome::Response(response.clone()));
    assert_eq!(result.to_browser, response);
    assert_eq!(result.response_body.unwrap().len(), 65536);
    assert_eq!(result.original_response_size, Some(70000));
}

#[test]
fn response_status_and_headers_are_read() {
    assert_eq!(parse_response_status(b"HTTP/1.1 404 Not Found\r\n\r\n"), 404);
    assert_eq!(parse_response_status(b"HTTP/1.1 200\nrest"), 200);
    assert_eq!(parse_response_status(b"HTTP/1.1"), 0);
    assert_eq!(parse_response_status(b"HTTP/1.1 99999 X\r\n"), 0);
    assert_eq!(parse_response_status(b""), 0);

    let headers = parse_response_headers(
        b"HTTP/1.1 200 OK\r\nContent-Type:  text/html \r\nno colon here\r\nX-A: b:c\r\n\r\nbody: x",
    )
    .unwrap();
    assert_eq!(headers.len(), 2);
    assert_eq!(headers[0].name, b"Content-Type".to_vec());
    assert_eq!(headers[0].value, b"text/html".to_vec());
    assert_eq!(headers[1].name, b"X-A".to_vec());
    assert_eq!(headers[1].value, b"b:c".to_vec());
    assert!(parse_response_headers(b"HTTP/1.1 200 OK\r\nA: b\r\n").is_none());
}

#[test]
fn noverlink_error_needs_its_first_header() {
    assert!(extract_noverlink_error(b"HTTP/1.1 200 OK\r\nX-Noverlink-Port: 1\r\n\r\n").is_none());
    let error =
        extract_noverlink_error(b"HTTP/1.1 502 Bad Gateway\r\nx-noverlink-error: timeout\r\n\r\n")
            .unwrap();
    assert_eq!(error.error_type, "timeout");
    assert_eq!(error.port, "unknown");
    assert_eq!(error.message, "Unknown error");
    let error = extract_noverlink_error(
        b"HTTP/1.1 502 X\r\nX-Noverlink-Error: a\r\nX-Noverlink-Error: b\r\nX-Noverlink-Message: c: d\r\n\r\n",
    )
    .unwrap();
    assert_eq!(error.error_type, "b");
    assert_eq!(error.message, "c: d");
    assert!(extract_noverlink_error(b"HTTP/1.1 200 OK\r\n\r\nX-Noverlink-Error: a\r\n\r\n").is_none());
}

#[test]
fn websocket_subflow_enters_and_leaves_the_registry() {
    let (mut registry, _commands) = registry_with("abc");
    let head = b"GET /ws HTTP/1.1\r\nHost: abc.example.test\r\nUpgrade: websocket\r\nConnection: Upgrade\r\nSec-WebSocket-Key: k\r\n\r\n";
    match route_request(&registry, head) {
        Route::Serve { request, .. } => assert!(request.is_upgrade),
        Route::Reject { .. } => panic!("the tunnel is registered"),
    }
    let mut pending = begin_upgrade(&mut registry, "abc", head.to_vec());
    assert_eq!(pending.connection_id, "ws-1");
    match &pending.message {
        TunnelMessage::WebSocketUpgrade { connection_id, request_data } => {
            assert_eq!(connection_id, "ws-1");
            assert_eq!(request_data, &head.to_vec());
        }
        _ => panic!("an upgrade is forwarded as an upgrade"),
    }
    let sinks = registry.websocket_sinks("ws-1").unwrap();
    assert_eq!(sinks.upgrade.max_capacity(), 1);
    assert_eq!(sinks.frames.max_capacity(), 100);

    let reply = b"HTTP/1.1 101 Switching Protocols\r\n\r\n".to_vec();
    sinks.upgrade.try_send(reply.clone()).unwrap();
    let got = pending.upgrade_rx.try_recv().unwrap();
    let result = conclude_upgrade(&mut registry, "ws-1", UpgradeOutcome::Reply(got));
    assert!(result.bridge);
    assert_eq!(result.to_browser, reply);
    assert!(registry.websocket_sinks("ws-1").is_some());

    sinks.frames.try_send(b"ping".to_vec()).unwrap();
    sinks.frames.try_send(b"pong".to_vec()).unwrap();
    assert_eq!(pending.frame_rx.try_recv().unwrap(), b"ping".to_vec());
    assert_eq!(pending.frame_rx.try_recv().unwrap(), b"pong".to_vec());

    match browser_frame("ws-1", b"ping") {
        TunnelMessage::WebSocketFrame { connection_id, frame_data } => {
            assert_eq!(connection_id, "ws-1");
            assert_eq!(frame_data, b"ping".to_vec());
        }
        _ => panic!("a frame"),
    }
    assert!(matches!(
        browser_closed("ws-1"),
        TunnelMessage::WebSocketClose { connection_id } if connection_id == "ws-1"
    ));
    end_bridge(&mut registry, "ws-1");
    assert!(registry.websocket_sinks("ws-1").is_none());
}

#[test]
fn failed_upgrades_are_answered_and_forgotten() {
    let (mut registry, _commands) = registry_with("abc");
    let mut conclude = |outcome: UpgradeOutcome| {
        let pending = begin_upgrade(&mut registry, "abc", Vec::new());
        let result = conclude_upgrade(&mut registry, &pending.connection_id, outcome);
        assert!(!result.bridge);
        assert!(registry.websocket_sinks(&pending.connection_id).is_none());
        result.to_browser
    };
    assert_eq!(
        conclude(UpgradeOutcome::NotSent),
        b"HTTP/1.1 502 Bad Gateway\r\n\r\nCLI not responding\r\n".to_vec()
    );
    assert_eq!(
        conclude(UpgradeOutcome::Disconnected),
        b"HTTP/1.1 502 Bad Gateway\r\n\r\nCLI disconnected\r\n".to_vec()
    );
    assert_eq!(
        conclude(UpgradeOutcome::TimedOut),
        b"HTTP/1.1 504 Gateway Timeout\r\n\r\nUpgrade timeout\r\n".to_vec()
    );
}
