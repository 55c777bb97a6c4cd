use base64::Engine;
use hmac::{Hmac, Mac};
use noverlink::ticket::{
    canonical_text, judge, parse_ticket, TicketError, TicketPayload, TicketVerifier,
};
use sha2::Sha256;
use std::time::{SystemTime, UNIX_EPOCH};

const TEST_SECRET: &str = "test-secret-key-for-hmac-signing";

fn quoted(text: &str) -> String {
    serde_json::to_string(text).unwrap()
}

fn payload_json(payload: &TicketPayload) -> String {
    let mut json = format!(
        "{{\"user_id\":{},\"plan\":{},\"max_tunnels\":{}",
        quoted(&payload.user_id),
        quoted(&payload.plan),
        payload.max_tunnels
    );
    if let Some(subdomain) = &payload.subdomain {
        json.push_str(&format!(",\"subdomain\":{}", quoted(subdomain)));
    }
    if let Some(base_domain) = &payload.base_domain {
        json.push_str(&format!(",\"base_domain\":{}", quoted(base_domain)));
    }
    json.push_str(&format!(
        ",\"ticket_id\":{},\"exp\":{}",
        quoted(&payload.ticket_id),
        payload.exp
    ));
    if let Some(sig) = &payload.sig {
        json.push_str(&format!(",\"sig\":{}", quoted(sig)));
    }
    json.push('}');
    json
}

fn sign(text: &str, secret: &str) -> String {
    let mut mac = Hmac::<Sha256>::new_from_slice(secret.as_bytes()).unwrap();
    mac.update(text.as_bytes());
    hex::encode(mac.finalize().into_bytes())
}

fn create_test_ticket(payload: &TicketPayload, secret: &str) -> String {
    let sig = sign(&payload_json(payload), secret);
    let mut signed_payload = payload.clone();
    signed_payload.sig = Some(sig);
    let json = payload_json(&signed_payload);
    base64::engine::general_purpose::URL_SAFE_NO_PAD.encode(json.as_bytes())
}

fn now() -> i64 {
    SystemTime::now().duration_since(UNIX_EPOCH).unwrap().as_secs() as i64
}

fn sample(ticket_id: &str, exp: i64) -> TicketPayload {
    TicketPayload {
        user_id: "user-123".to_string(),
        plan: "free".to_string(),
        max_tunnels: 1,
        subdomain: None,
        base_domain: None,
        ticket_id: ticket_id.to_string(),
        exp,
        sig: None,
    }
}

#[test]
fn test_valid_ticket() {
    let verifier = TicketVerifier::new(TEST_SECRET);

    let payload = sample("ticket-001", now() + 60);

    let ticket = create_test_ticket(&payload, TEST_SECRET);
    let result = verifier.verify(&ticket);

    assert!(result.is_ok());
    let verified = result.unwrap();
    assert_eq!(verified.user_id, "user-123");
    assert_eq!(verified.plan, "free");
}

#[test]
fn test_expired_ticket() {
    let verifier = TicketVerifier::new(TEST_SECRET);

    let payload = sample("ticket-002", now() - 10);

    let ticket = create_test_ticket(&payload, TEST_SECRET);
    let result = verifier.verify(&ticket);

    assert!(result.is_err());
    assert!(result.unwrap_err().message().contains("expired"));
}

#[test]
fn test_invalid_signature() {
    let verifier = TicketVerifier::new(TEST_SECRET);

    let payload = sample("ticket-003", now() + 60);

    let ticket = create_test_ticket(&payload, "wrong-secret");
    let result = verifier.verify(&ticket);

    assert!(result.is_err());
    assert!(result.unwrap_err().message().contains("signature"));
}

#[test]
fn verified_ticket_is_the_issued_payload_without_its_tag() {
    let verifier = TicketVerifier::new(TEST_SECRET);
    let mut payload = sample("ticket-\"quoted\"\n", 2_000_000_000);
    payload.subdomain = Some("abc".to_string());
    payload.base_domain = Some("example.test".to_string());
    payload.max_tunnels = 255;
    let ticket = create_test_ticket(&payload, TEST_SECRET);
    let verified = verifier.verify_at(&ticket, 2_000_000_000).unwrap();
    assert_eq!(verified.user_id, payload.user_id);
    assert_eq!(verified.plan, payload.plan);
    assert_eq!(verified.max_tunnels, 255);
    assert_eq!(verified.subdomain.as_deref(), Some("abc"));
    assert_eq!(verified.base_domain.as_deref(), Some("example.test"));
    assert_eq!(verified.ticket_id, payload.ticket_id);
    assert_eq!(verified.exp, 2_000_000_000);
    assert!(verified.sig.is_none());
    assert_eq!(
        verifier.verify_at(&ticket, 2_000_000_001).unwrap_err(),
        TicketError::Expired
    );
}

#[test]
fn tampered_payload_fails_on_its_signature() {
    let verifier = TicketVerifier::new(TEST_SECRET);
    let payload = sample("ticket-004", 1_000);
    let mut signed = payload.clone();
    signed.sig = Some(sign(&payload_json(&payload), TEST_SECRET));
    let json = payload_json(&signed);
    for (from, to) in [("user-123", "user-124"), ("free", "fref"), ("1000", "9000"), ("ticket-004", "ticket-005")] {
        let tampered = json.replacen(from, to, 1);
        assert_ne!(tampered, json);
        let ticket = base64::engine::general_purpose::URL_SAFE_NO_PAD.encode(tampered.as_bytes());
        assert_eq!(verifier.verify_at(&ticket, 0).unwrap_err(), TicketError::Signature);
        assert_eq!(verifier.verify_at(&ticket, 10_000).unwrap_err(), TicketError::Signature);
    }
    let untouched = base64::engine::general_purpose::URL_SAFE_NO_PAD.encode(json.as_bytes());
    assert!(verifier.verify_at(&untouched, 0).is_ok());
}

#[test]
fn malformed_tickets_are_told_apart() {
    let verifier = TicketVerifier::new(TEST_SECRET);
    let encode = |text: &str| base64::engine::general_purpose::URL_SAFE_NO_PAD.encode(text.as_bytes());
    for ticket in [
        "not base64!".to_string(),
        encode("not json"),
        encode("[1,2,3]"),
        encode("{\"user_id\":\"u\"}"),
        encode("{\"user_id\":\"u\",\"plan\":\"p\",\"max_tunnels\":256,\"ticket_id\":\"t\",\"exp\":1,\"sig\":\"s\"}"),
        encode("{\"user_id\":\"u\",\"plan\":\"p\",\"max_tunnels\":1,\"ticket_id\":\"t\",\"exp\":1.5,\"sig\":\"s\"}"),
        encode("{\"user_id\":\"u\",\"plan\":\"p\",\"max_tunnels\":1,\"subdomain\":7,\"ticket_id\":\"t\",\"exp\":1,\"sig\":\"s\"}"),
        encode("{\"user_id\":\"u\",\"plan\":\"p\",\"max_tunnels\":1,\"ticket_id\":\"t\",\"exp\":1}"),
        create_test_ticket(&sample("t", 5), TEST_SECRET) + "=",
    ] {
        assert_eq!(verifier.verify_at(&ticket, 0).unwrap_err(), TicketError::Malformed, "{}", ticket);
    }
    assert_eq!(TicketError::Malformed.message(), "Ticket malformed");
    assert_eq!(TicketError::Signature.message(), "Invalid ticket signature");
    assert_eq!(TicketError::Expired.message(), "Ticket expired");
}

#[test]
fn canonical_text_has_the_members_in_order() {
    let mut payload = sample("t-1", -42);
    assert_eq!(
        String::from_utf8(canonical_text(&payload)).unwrap(),
        "{\"user_id\":\"user-123\",\"plan\":\"free\",\"max_tunnels\":1,\"ticket_id\":\"t-1\",\"exp\":-42}"
    );
    payload.subdomain = Some("a\"b".to_string());
    payload.base_domain = Some("example.test".to_string());
    payload.sig = Some("ignored".to_string());
    payload.exp = i64::MIN;
    assert_eq!(
        String::from_utf8(canonical_text(&payload)).unwrap(),
        "{\"user_id\":\"user-123\",\"plan\":\"free\",\"max_tunnels\":1,\"subdomain\":\"a\\\"b\",\"base_domain\":\"example.test\",\"ticket_id\":\"t-1\",\"exp\":-9223372036854775808}"
    );
}

#[test]
fn parse_ticket_reads_optional_members() {
    let parsed = parse_ticket(
        b"{\"exp\":7,\"extra\":[1],\"sig\":null,\"ticket_id\":\"t\",\"plan\":\"p\",\"user_id\":\"u\",\"max_tunnels\":0,\"subdomain\":\"s\"}",
    )
    .unwrap();
    assert_eq!(parsed.exp, 7);
    assert_eq!(parsed.subdomain.as_deref(), Some("s"));
    assert!(parsed.sig.is_none());
    assert!(parsed.base_domain.is_none());
    assert!(parse_ticket(b"{}").is_none());
}

#[test]
fn judge_checks_the_tag_before_the_expiry() {
    let mut payload = sample("t", 100);
    payload.sig = Some("abcd".to_string());
    assert_eq!(judge(payload.clone(), b"abce", 200).unwrap_err(), TicketError::Signature);
    assert_eq!(judge(payload.clone(), b"abcde", 0).unwrap_err(), TicketError::Signature);
    assert_eq!(judge(payload.clone(), b"abcd", 101).unwrap_err(), TicketError::Expired);
    let accepted = judge(payload.clone(), b"abcd", 100).unwrap();
    assert!(accepted.sig.is_none());
    assert_eq!(accepted.exp, 100);
    payload.sig = None;
    assert_eq!(judge(payload, b"abcd", 0).unwrap_err(), TicketError::Malformed);
}

#[test]
fn hexadecimal_is_lower_case_with_the_high_half_first() {
    assert_eq!(noverlink::encoding::hex_encode(&[]), b"".to_vec());
    assert_eq!(noverlink::encoding::hex_encode(&[0x00, 0x09, 0x0a, 0xf0, 0xff]), b"00090af0ff".to_vec());
    let all: Vec<u8> = (0..=255u8).collect();
    assert_eq!(noverlink::encoding::hex_encode(&all), hex::encode(&all).into_bytes());
}
