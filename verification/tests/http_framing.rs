use noverlink::forwarder::{
    create_502_response, feed_response, ForwardError, ForwardFailure, ReadProgress,
    MAX_RESPONSE_BYTES,
};

fn failure(kind: ForwardError, message: &str) -> ForwardFailure {
    ForwardFailure { kind, message: message.to_string() }
}
use noverlink::host::{parse_host, rewrite_host, rewrite_host_header};
use noverlink::http::{find_headers_end, is_complete_http_response};
use noverlink::response::extract_noverlink_error;

#[test]
fn forwarder_test_find_headers_end() {
    let req = b"HTTP/1.1 200 OK\r\nContent-Length: 5\r\n\r\nHello";
    assert_eq!(find_headers_end(req), Some(34));

    let incomplete = b"HTTP/1.1 200 OK\r\nContent-Length: 5\r\n";
    assert_eq!(find_headers_end(incomplete), None);
}

#[test]
fn test_is_complete_http_response() {
    let complete = b"HTTP/1.1 200 OK\r\nContent-Length: 5\r\n\r\nHello";
    assert!(is_complete_http_response(complete));

    let incomplete = b"HTTP/1.1 200 OK\r\nContent-Length: 10\r\n\r\nHello";
    assert!(!is_complete_http_response(incomplete));

    let chunked = b"HTTP/1.1 200 OK\r\nTransfer-Encoding: chunked\r\n\r\n5\r\nHello\r\n0\r\n\r\n";
    assert!(is_complete_http_response(chunked));

    let chunked_lower =
        b"HTTP/1.1 200 OK\r\ntransfer-encoding: chunked\r\n\r\n5\r\nHello\r\n0\r\n\r\n";
    assert!(is_complete_http_response(chunked_lower));

    let chunked_trailers = b"HTTP/1.1 200 OK\r\nTransfer-Encoding: chunked\r\n\r\n5\r\nHello\r\n0\r\nX-Checksum: abc\r\n\r\n";
    assert!(is_complete_http_response(chunked_trailers));

    let chunked_incomplete =
        b"HTTP/1.1 200 OK\r\nTransfer-Encoding: chunked\r\n\r\n5\r\nHello\r\n0\r\n";
    assert!(!is_complete_http_response(chunked_incomplete));

    let content_length_lower = b"HTTP/1.1 200 OK\r\ncontent-length: 5\r\n\r\nHello";
    assert!(is_complete_http_response(content_length_lower));
}

#[test]
fn test_create_502_response() {
    let error = failure(ForwardError::ConnectionRefused, "Connection refused");
    let response = create_502_response(&error, 3000);

    let response_str =
        String::from_utf8(response).unwrap_or_else(|_| String::from("Invalid UTF-8"));

    assert!(response_str.starts_with("HTTP/1.1 502 Bad Gateway"));
    assert!(response_str.contains("Content-Type: text/plain"));
    assert!(response_str.contains("Connection: close"));
    assert!(response_str.contains("Connection refused"));
}

#[test]
fn test_no_headers_end() {
    let partial = b"HTTP/1.1 200 OK\r\nContent-Length: 5";
    assert!(!is_complete_http_response(partial));
}

#[test]
fn test_empty_body_with_content_length_zero() {
    let empty_body = b"HTTP/1.1 204 No Content\r\nContent-Length: 0\r\n\r\n";
    assert!(is_complete_http_response(empty_body));
}

#[test]
fn test_multiple_chunks() {
    let multi_chunk = b"HTTP/1.1 200 OK\r\nTransfer-Encoding: chunked\r\n\r\n5\r\nHello\r\n5\r\nWorld\r\n0\r\n\r\n";
    assert!(is_complete_http_response(multi_chunk));
}

#[test]
fn test_rewrite_host_header() {
    let request = b"GET / HTTP/1.1\r\nHost: abc123.example.com\r\nConnection: keep-alive\r\n\r\n";
    let rewritten = rewrite_host_header(request, 3000);
    let rewritten_str = String::from_utf8(rewritten).unwrap();

    assert!(rewritten_str.contains("Host: localhost:3000"));
    assert!(!rewritten_str.contains("abc123.example.com"));
    assert!(rewritten_str.contains("Connection: keep-alive"));
}

#[test]
fn test_rewrite_host_header_with_body() {
    let request = b"POST /api HTTP/1.1\r\nHost: tunnel.app\r\nContent-Length: 5\r\n\r\nHello";
    let rewritten = rewrite_host_header(request, 8080);
    let rewritten_str = String::from_utf8(rewritten).unwrap();

    assert!(rewritten_str.contains("Host: localhost:8080"));
    assert!(rewritten_str.contains("Content-Length: 5"));
    assert!(rewritten_str.ends_with("\r\n\r\nHello"));
}

#[test]
fn test_rewrite_host_header_case_insensitive() {
    let request = b"GET / HTTP/1.1\r\nHOST: TUNNEL.APP\r\n\r\n";
    let rewritten = rewrite_host_header(request, 3000);
    let rewritten_str = String::from_utf8(rewritten).unwrap();

    assert!(rewritten_str.contains("Host: localhost:3000"));
    assert!(!rewritten_str.contains("TUNNEL.APP"));
}

#[test]
fn rewrite_gives_exact_bytes() {
    let request = b"POST /api HTTP/1.1\r\nHost: abc.example.test\r\nContent-Length: 5\r\n\r\nhello";
    let rewritten = rewrite_host_header(request, 3000);
    assert_eq!(
        rewritten,
        b"POST /api HTTP/1.1\r\nHost: localhost:3000\r\nContent-Length: 5\r\n\r\nhello".to_vec()
    );
}

#[test]
fn rewrite_without_complete_head_is_identity() {
    let request = b"GET / HTTP/1.1\r\nHost: abc.example.test\r\n";
    assert_eq!(rewrite_host_header(request, 3000), request.to_vec());
}

#[test]
fn rewrite_keeps_body_that_looks_like_a_head() {
    let request = b"POST / HTTP/1.1\r\nHost: a.b\r\n\r\nHost: inner\r\n\r\nrest";
    let rewritten = rewrite_host_header(request, 80);
    assert_eq!(
        rewritten,
        b"POST / HTTP/1.1\r\nHost: localhost:80\r\n\r\nHost: inner\r\n\r\nrest".to_vec()
    );
}

#[test]
fn host_round_trip_on_concrete_requests() {
    for port in [1u16, 80, 3000, 65535] {
        for request in [
            &b"GET / HTTP/1.1\r\nHost: abc.example.test\r\n\r\n"[..],
            &b"GET / HTTP/1.1\r\nAccept: */*\r\nhOsT:x.y:99\r\nX-A: b\r\n\r\nbody"[..],
        ] {
            let rewritten = rewrite_host_header(request, port);
            assert_eq!(
                parse_host(&rewritten),
                Some(format!("localhost:{}", port).into_bytes())
            );
        }
    }
    let rewritten =
        rewrite_host_header(b"GET / HTTP/1.1\r\nAccept: */*\r\nhOsT:x.y:99\r\nX-A: b\r\n\r\nbody", 8);
    assert_eq!(
        rewritten,
        b"GET / HTTP/1.1\r\nAccept: */*\r\nHost: localhost:8\r\nX-A: b\r\n\r\nbody".to_vec()
    );
}

#[test]
fn rewrite_to_any_target() {
    let rewritten = rewrite_host(b"GET / HTTP/1.1\r\nhost: a.b\r\nHost: c.d\r\n\r\n", b"127.0.0.1:9");
    assert_eq!(
        rewritten,
        b"GET / HTTP/1.1\r\nHost: 127.0.0.1:9\r\nHost: 127.0.0.1:9\r\n\r\n".to_vec()
    );
    assert_eq!(parse_host(&rewritten), Some(b"127.0.0.1:9".to_vec()));
}

#[test]
fn parse_host_reads_first_host_header() {
    assert_eq!(
        parse_host(b"GET / HTTP/1.1\r\nHost: abc.example.test\r\n\r\n"),
        Some(b"abc.example.test".to_vec())
    );
    assert_eq!(parse_host(b"GET / HTTP/1.1\r\nAccept: x\r\n\r\n"), None);
    assert_eq!(parse_host(b"GET / HTTP/1.1\r\nHost: a\r\n"), None);
}

#[test]
fn no_strict_prefix_of_a_message_is_complete() {
    let messages: [&[u8]; 4] = [
        b"HTTP/1.1 200 OK\r\nContent-Length: 5\r\n\r\nhello",
        b"HTTP/1.1 200 OK\r\nTransfer-Encoding: chunked\r\n\r\n5\r\nHello\r\n0\r\n\r\n",
        b"HTTP/1.1 200 OK\r\nTransfer-Encoding: chunked\r\n\r\n5\r\nHello\r\n0\r\nX-Checksum: abc\r\n\r\n",
        b"HTTP/1.1 200 OK\r\nTransfer-Encoding: chunked\r\n\r\nA;x=y\r\n0\r\n\r\n0\r\n\r\n\r\n0\r\n\r\n",
    ];
    for message in messages {
        assert!(is_complete_http_response(message));
        for cut in 0..message.len() {
            assert!(!is_complete_http_response(&message[..cut]), "prefix of length {}", cut);
        }
    }
}

#[test]
fn chunk_data_that_looks_like_the_end_does_not_end_the_message() {
    let message = b"HTTP/1.1 200 OK\r\nTransfer-Encoding: chunked\r\n\r\n9\r\n\r\n0\r\n\r\nab\r\n0\r\n\r\n";
    assert!(is_complete_http_response(message));
    let cut = b"HTTP/1.1 200 OK\r\nTransfer-Encoding: chunked\r\n\r\n9\r\n\r\n0\r\n\r\nab\r\n";
    assert!(!is_complete_http_response(cut));
}

#[test]
fn content_length_goes_before_chunked() {
    let both = b"HTTP/1.1 200 OK\r\nTransfer-Encoding: chunked\r\nContent-Length: 3\r\n\r\nabc";
    assert!(is_complete_http_response(both));
}

#[test]
fn response_without_length_is_never_complete() {
    assert!(!is_complete_http_response(b"HTTP/1.1 200 OK\r\nServer: x\r\n\r\nsome body"));
    assert!(!is_complete_http_response(b""));
}

#[test]
fn chunk_sizes_are_hexadecimal() {
    let message =
        b"HTTP/1.1 200 OK\r\nTransfer-Encoding: chunked\r\n\r\n1a\r\nabcdefghijklmnopqrstuvwxyz\r\n0\r\n\r\n";
    assert!(is_complete_http_response(message));
    let bad = b"HTTP/1.1 200 OK\r\nTransfer-Encoding: chunked\r\n\r\nzz\r\nab\r\n0\r\n\r\n";
    assert!(!is_complete_http_response(bad));
}

#[test]
fn feed_response_stops_at_completion_and_at_the_limit() {
    let mut buffer = Vec::new();
    assert_eq!(
        feed_response(&mut buffer, b"HTTP/1.1 200 OK\r\nContent-Length: 5\r\n\r\nhe"),
        ReadProgress::NeedMore
    );
    assert_eq!(feed_response(&mut buffer, b"llo"), ReadProgress::Done);
    assert_eq!(buffer, b"HTTP/1.1 200 OK\r\nContent-Length: 5\r\n\r\nhello".to_vec());

    let mut big = b"HTTP/1.1 200 OK\r\n\r\n".to_vec();
    let filler = vec![b'x'; MAX_RESPONSE_BYTES];
    assert_eq!(feed_response(&mut big, &filler), ReadProgress::Done);
    assert_eq!(big.len(), MAX_RESPONSE_BYTES);
}

#[test]
fn unreachable_report_is_read_by_the_edge() {
    let response =
        create_502_response(&failure(ForwardError::ConnectionRefused, "Connection refused\r\nX: y"), 3000);
    let text = String::from_utf8(response.clone()).unwrap();
    assert!(text.starts_with("HTTP/1.1 502 Bad Gateway\r\n"));
    assert!(text.contains("X-Noverlink-Error: connection-refused\r\n"));
    assert!(text.contains("X-Noverlink-Port: 3000\r\n"));
    assert!(text.contains("X-Noverlink-Message: Connection refused  X: y\r\n"));
    let error = extract_noverlink_error(&response).unwrap();
    assert_eq!(error.error_type, "connection-refused");
    assert_eq!(error.port, "3000");
    assert_eq!(error.message, "Connection refused  X: y");

    let timeout = create_502_response(&failure(ForwardError::Timeout, "slow"), 8080);
    assert_eq!(extract_noverlink_error(&timeout).unwrap().error_type, "timeout");
    let other = create_502_response(&failure(ForwardError::Other, "odd"), 1);
    assert_eq!(extract_noverlink_error(&other).unwrap().error_type, "other");
}

#[test]
fn unreachable_report_is_a_whole_response() {
    for (kind, port, message) in [
        (ForwardError::ConnectionRefused, 3000u16, "Connection refused (os error 111)"),
        (ForwardError::Timeout, 1, ""),
        (ForwardError::Other, 65535, "caf\u{e9}: 1\r\n\r\n2"),
    ] {
        let report = create_502_response(&failure(kind, message), port);
        assert!(is_complete_http_response(&report));
        for cut in 0..report.len() {
            assert!(!is_complete_http_response(&report[..cut]));
        }
    }
}

#[test]
fn bad_gateway_has_exact_length() {
    let response = create_502_response(&failure(ForwardError::Timeout, "x"), 8080);
    assert_eq!(
        response,
        b"HTTP/1.1 502 Bad Gateway\r\nContent-Type: text/plain\r\nX-Noverlink-Error: timeout\r\nX-Noverlink-Port: 8080\r\nX-Noverlink-Message: x\r\nContent-Length: 33\r\nConnection: close\r\n\r\nFailed to connect to localhost: x".to_vec()
    );
}
