use noverlink::registry::{RegistryError, TunnelMessage, TunnelRegistry};
use tokio::sync::mpsc;

#[test]
fn test_registry_new() {
    let registry = TunnelRegistry::new("noverlink.io".to_string());
    assert!(registry.is_domain_available("test"));
}

#[test]
fn test_get_full_url() {
    let registry = TunnelRegistry::new("noverlink.io".to_string());
    let url = registry.get_full_url("myapp", "noverlink.app");
    assert_eq!(url, "https://myapp.noverlink.app");
}

#[test]
fn test_get_full_url_sandbox() {
    let registry = TunnelRegistry::new("noverlink.io".to_string());
    let url = registry.get_full_url("myapp", "noverlink-free.app");
    assert_eq!(url, "https://myapp.noverlink-free.app");
}

#[test]
fn test_register_and_get_tunnel() {
    let mut registry = TunnelRegistry::new("noverlink.io".to_string());
    let (tx, _rx) = mpsc::channel(10);

    assert!(registry.is_domain_available("test-domain"));

    let tunnel = registry
        .register(
            "test-domain".to_string(),
            "noverlink.app".to_string(),
            "user-123".to_string(),
            "session-456".to_string(),
            tx,
            3000,
        )
        .unwrap();

    assert!(!registry.is_domain_available("test-domain"));
    assert_eq!(tunnel.session_id, "session-456");
    assert_eq!(tunnel.base_domain, "noverlink.app");

    let retrieved = registry.get("test-domain");
    assert!(retrieved.is_some());
    assert_eq!(retrieved.unwrap().session_id, "session-456");
}

#[test]
fn test_get_nonexistent_tunnel() {
    let registry = TunnelRegistry::new("noverlink.io".to_string());
    let result = registry.get("nonexistent");
    assert!(result.is_none());
}

#[test]
fn test_remove_tunnel() {
    let mut registry = TunnelRegistry::new("noverlink.io".to_string());
    let (tx, _rx) = mpsc::channel(10);

    registry
        .register(
            "to-remove".to_string(),
            "noverlink.app".to_string(),
            "user".to_string(),
            "session".to_string(),
            tx,
            3000,
        )
        .unwrap();

    assert!(!registry.is_domain_available("to-remove"));

    registry.remove("to-remove");

    assert!(registry.is_domain_available("to-remove"));
    assert!(registry.get("to-remove").is_none());
}

#[test]
fn test_request_id_generation() {
    let mut registry = TunnelRegistry::new("noverlink.io".to_string());

    let id1 = registry.next_request_id();
    let id2 = registry.next_request_id();
    let id3 = registry.next_request_id();

    assert_eq!(id1, 1);
    assert_eq!(id2, 2);
    assert_eq!(id3, 3);
}

#[test]
fn test_ws_connection_id_generation() {
    let mut registry = TunnelRegistry::new("noverlink.io".to_string());

    let id1 = registry.next_ws_connection_id();
    let id2 = registry.next_ws_connection_id();

    assert_eq!(id1, "ws-1");
    assert_eq!(id2, "ws-2");
}

#[test]
fn test_remove_websocket() {
    let mut registry = TunnelRegistry::new("noverlink.io".to_string());

    let conn_id = registry.next_ws_connection_id();
    let (_response_rx, _frame_rx) = registry.register_pending_websocket(conn_id.clone(), "abc".to_string());

    registry.remove_websocket(&conn_id);

    assert!(registry.websocket_sinks(&conn_id).is_none());
}

#[test]
fn test_multiple_tunnels() {
    let mut registry = TunnelRegistry::new("noverlink.io".to_string());

    for i in 0..5 {
        let (tx, _rx) = mpsc::channel(10);
        let base = if i % 2 == 0 {
            "noverlink.app"
        } else {
            "noverlink-free.app"
        };
        registry
            .register(
                format!("tunnel-{}", i),
                base.to_string(),
                format!("user-{}", i),
                format!("session-{}", i),
                tx,
                3000 + u16::try_from(i).unwrap(),
            )
            .unwrap();
    }

    for i in 0..5 {
        let domain = format!("tunnel-{}", i);
        assert!(!registry.is_domain_available(&domain));
        let tunnel = registry.get(&domain).unwrap();
        assert_eq!(tunnel.session_id, format!("session-{}", i));
    }
}

#[test]
fn test_tunnel_message_variants() {
    let http_msg = TunnelMessage::HttpRequest {
        request_id: 1,
        request_data: vec![1, 2, 3],
    };

    let ws_upgrade = TunnelMessage::WebSocketUpgrade {
        connection_id: "ws-1".to_string(),
        request_data: vec![4, 5, 6],
    };

    let ws_frame = TunnelMessage::WebSocketFrame {
        connection_id: "ws-1".to_string(),
        frame_data: vec![7, 8, 9],
    };

    let ws_close = TunnelMessage::WebSocketClose {
        connection_id: "ws-1".to_string(),
    };

    assert!(format!("{:?}", http_msg).contains("HttpRequest"));
    assert!(format!("{:?}", ws_upgrade).contains("WebSocketUpgrade"));
    assert!(format!("{:?}", ws_frame).contains("WebSocketFrame"));
    assert!(format!("{:?}", ws_close).contains("WebSocketClose"));
}

#[test]
fn registering_a_live_subdomain_is_refused() {
    let mut registry = TunnelRegistry::new("noverlink.io".to_string());
    let (tx, _rx) = mpsc::channel(10);
    registry
        .register("abc".to_string(), "b".to_string(), "u1".to_string(), "s1".to_string(), tx, 1)
        .unwrap();
    let (tx2, _rx2) = mpsc::channel(10);
    let second = registry.register(
        "abc".to_string(),
        "b".to_string(),
        "u2".to_string(),
        "s2".to_string(),
        tx2,
        2,
    );
    assert_eq!(second.err(), Some(RegistryError::AlreadyRegistered));
    let kept = registry.get("abc").unwrap();
    assert_eq!(kept.session_id, "s1");
    assert_eq!(kept.user_id, "u1");
    assert_eq!(kept.local_port, 1);
    assert_eq!(kept.domain, "abc");

    registry.remove("abc");
    let (tx3, _rx3) = mpsc::channel(10);
    assert!(registry
        .register("abc".to_string(), "b".to_string(), "u3".to_string(), "s3".to_string(), tx3, 3)
        .is_ok());
    assert_eq!(registry.default_base_domain(), "noverlink.io");
}

#[test]
fn pending_request_is_delivered_once() {
    let mut registry = TunnelRegistry::new("noverlink.io".to_string());
    let (tx, mut rx) = mpsc::channel(1);

    let request_id = registry.next_request_id();
    registry.register_pending_request(request_id, "abc".to_string(), tx);

    let response_data = b"HTTP/1.1 200 OK\r\n\r\n".to_vec();
    let sink = registry.take_pending_request(request_id).unwrap();
    assert!(sink.try_send(response_data.clone()).is_ok());
    assert_eq!(rx.try_recv().unwrap(), response_data);

    assert!(registry.take_pending_request(request_id).is_none());
    assert!(registry.take_pending_request(999).is_none());
}

#[test]
fn pending_websocket_queues_have_their_bounds() {
    let mut registry = TunnelRegistry::new("noverlink.io".to_string());

    let conn_id = registry.next_ws_connection_id();
    let (mut response_rx, mut frame_rx) = registry.register_pending_websocket(conn_id.clone(), "abc".to_string());
    assert_eq!(response_rx.max_capacity(), 1);
    assert_eq!(frame_rx.max_capacity(), 100);

    let sinks = registry.websocket_sinks(&conn_id).unwrap();
    let upgrade_response = b"HTTP/1.1 101 Switching Protocols\r\n\r\n".to_vec();
    sinks.upgrade.try_send(upgrade_response.clone()).unwrap();
    assert!(sinks.upgrade.try_send(Vec::new()).is_err());
    assert_eq!(response_rx.try_recv().unwrap(), upgrade_response);

    for i in 0..100u8 {
        sinks.frames.try_send(vec![i]).unwrap();
    }
    assert!(sinks.frames.try_send(vec![100]).is_err());
    for i in 0..100u8 {
        assert_eq!(frame_rx.try_recv().unwrap(), vec![i]);
    }

    registry.remove_websocket(&conn_id);
    assert!(registry.websocket_sinks(&conn_id).is_none());
    assert!(registry.websocket_sinks("ws-999").is_none());
}

#[test]
fn identifiers_grow_and_differ() {
    let mut registry = TunnelRegistry::new("noverlink.io".to_string());
    let mut last = 0;
    let mut names = Vec::new();
    for _ in 0..25 {
        let id = registry.next_request_id();
        assert!(id > last);
        last = id;
        let name = registry.next_ws_connection_id();
        assert!(!names.contains(&name));
        names.push(name);
    }
    assert_eq!(names[9], "ws-10");
    assert_eq!(names[24], "ws-25");
}

#[test]
fn release_drops_what_waits_on_one_tunnel_only() {
    let mut registry = TunnelRegistry::new("noverlink.io".to_string());
    let (first, mut first_rx) = mpsc::channel::<Vec<u8>>(1);
    let (second, mut second_rx) = mpsc::channel::<Vec<u8>>(1);
    let (third, mut third_rx) = mpsc::channel::<Vec<u8>>(1);
    registry.register_pending_request(1, "abc".to_string(), first);
    registry.register_pending_request(2, "xyz".to_string(), second);
    registry.register_pending_request(3, "abc".to_string(), third);
    let (mut abc_upgrade, _abc_frames) =
        registry.register_pending_websocket("ws-1".to_string(), "abc".to_string());
    let (mut xyz_upgrade, _xyz_frames) =
        registry.register_pending_websocket("ws-2".to_string(), "xyz".to_string());

    registry.release_pending("abc");

    assert!(matches!(first_rx.try_recv(), Err(mpsc::error::TryRecvError::Disconnected)));
    assert!(matches!(third_rx.try_recv(), Err(mpsc::error::TryRecvError::Disconnected)));
    assert!(matches!(second_rx.try_recv(), Err(mpsc::error::TryRecvError::Empty)));
    assert!(registry.take_pending_request(1).is_none());
    assert!(registry.take_pending_request(3).is_none());
    assert!(registry.take_pending_request(2).is_some());
    assert!(registry.websocket_sinks("ws-1").is_none());
    assert!(matches!(abc_upgrade.try_recv(), Err(mpsc::error::TryRecvError::Disconnected)));
    let kept = registry.websocket_sinks("ws-2").unwrap();
    assert_eq!(kept.domain, "xyz");
    kept.upgrade.try_send(b"reply".to_vec()).unwrap();
    assert_eq!(xyz_upgrade.try_recv().unwrap(), b"reply".to_vec());

    registry.release_pending("nobody");
    assert!(registry.websocket_sinks("ws-2").is_some());
}

#[test]
fn entries_know_their_tunnel() {
    let (sink, _rx) = mpsc::channel::<Vec<u8>>(1);
    let request = noverlink::registry::PendingRequest { domain: "abc".to_string(), response_sink: sink };
    assert!(!request.of_other("abc"));
    assert!(request.of_other("abd"));
    assert!(request.of_other(""));
}
