use base64::{engine::general_purpose, Engine as _};
use borsh::BorshSerialize;
use order_events::broadcast::Broadcaster;
use order_events::decode::{decode_event, read_u64_le, DomainEvent};
use order_events::extract::{envelope_from_bytes, extract_payload, strip_marker};
use order_events::normalize::WebEvent;
use order_events::pipeline::{handle_line, process_line, process_lines};
use order_events::registry::{event_discriminator, tag_matches, Registry};
use order_events::session::{Session, SessionAction, SessionState};
use sha2::{Digest, Sha256};

const ZERO_ID: &str = "11111111111111111111111111111111";

fn created_body(order: [u8; 32], order_id: u64, customer: [u8; 32], amount: u64) -> Vec<u8> {
    let mut body = Vec::new();
    order.serialize(&mut body).unwrap();
    order_id.serialize(&mut body).unwrap();
    customer.serialize(&mut body).unwrap();
    amount.serialize(&mut body).unwrap();
    body
}

fn line_for(name: &str, body: &[u8]) -> String {
    let mut bytes = event_discriminator(name).to_vec();
    bytes.extend_from_slice(body);
    format!("Program data: {}", general_purpose::STANDARD.encode(bytes))
}

fn created_line() -> String {
    line_for("OrderCreated", &created_body([0u8; 32], 42, [0u8; 32], 1000))
}

fn expect_created(ev: Option<WebEvent>, order_id: u64, amount: u64) {
    match ev {
        Some(WebEvent::OrderCreated { order, order_id: id, customer, amount: a }) => {
            assert_eq!(order, ZERO_ID);
            assert_eq!(customer, ZERO_ID);
            assert_eq!(id, order_id);
            assert_eq!(a, amount);
        }
        other => panic!("unexpected {:?}", other),
    }
}

#[test]
fn tag_is_deterministic() {
    let a = event_discriminator("OrderCreated");
    let b = event_discriminator("OrderCreated");
    assert_eq!(a, b);
    assert_ne!(a, event_discriminator("OrderAccepted"));
    let digest = Sha256::digest(b"event:OrderCreated");
    assert_eq!(&a[..], &digest[..8]);
}

#[test]
fn tag_matching_is_byte_equality() {
    let t = event_discriminator("OrderCompleted");
    assert!(tag_matches(&t, &t));
    assert!(!tag_matches(&t[..7], &t));
    let mut other = t;
    other[7] ^= 1;
    assert!(!tag_matches(&other, &t));
}

#[test]
fn registry_holds_each_tag() {
    let reg = Registry::new();
    assert_eq!(reg.order_created, event_discriminator("OrderCreated"));
    assert_eq!(reg.order_accepted, event_discriminator("OrderAccepted"));
    assert_eq!(reg.order_completed, event_discriminator("OrderCompleted"));
}

#[test]
fn little_endian_read() {
    let b = [0u8, 0x01, 0x02, 0, 0, 0, 0, 0, 0x80];
    assert_eq!(read_u64_le(&b, 1), 0x8000_0000_0000_0201);
    assert_eq!(read_u64_le(&b, 0), 0x0002_0100);
    assert_eq!(read_u64_le(&[0xff; 8], 0), u64::MAX);
    assert_eq!(read_u64_le(&1000u64.to_le_bytes(), 0), 1000);
}

#[test]
fn created_round_trip() {
    let reg = Registry::new();
    let mut order = [0u8; 32];
    let mut customer = [0u8; 32];
    for i in 0..32 {
        order[i] = i as u8;
        customer[i] = 200 - i as u8;
    }
    let body = created_body(order, 0x0102_0304_0506_0708, customer, u64::MAX);
    match decode_event(&reg, &reg.order_created, &body) {
        Some(DomainEvent::OrderCreated(e)) => {
            assert_eq!(e.order.bytes, order);
            assert_eq!(e.order_id, 0x0102_0304_0506_0708);
            assert_eq!(e.customer.bytes, customer);
            assert_eq!(e.amount, u64::MAX);
        }
        _ => panic!("not decoded"),
    }
}

#[test]
fn accepted_and_completed_decode() {
    let reg = Registry::new();
    let body: Vec<u8> = [[1u8; 32], [2u8; 32]].concat();
    match decode_event(&reg, &reg.order_accepted, &body) {
        Some(DomainEvent::OrderAccepted(e)) => {
            assert_eq!(e.order.bytes, [1u8; 32]);
            assert_eq!(e.courier.bytes, [2u8; 32]);
        }
        _ => panic!("not decoded"),
    }
    let body = created_body([3u8; 32], 9, [4u8; 32], 77);
    match decode_event(&reg, &reg.order_completed, &body) {
        Some(DomainEvent::OrderCompleted(e)) => {
            assert_eq!(e.order.bytes, [3u8; 32]);
            assert_eq!(e.order_id, 9);
            assert_eq!(e.courier.bytes, [4u8; 32]);
            assert_eq!(e.amount, 77);
        }
        _ => panic!("not decoded"),
    }
}

#[test]
fn wrong_width_is_dropped() {
    let reg = Registry::new();
    let mut body = created_body([0u8; 32], 1, [0u8; 32], 2);
    body.push(0);
    assert!(decode_event(&reg, &reg.order_created, &body).is_none());
    assert!(decode_event(&reg, &reg.order_accepted, &body[..63]).is_none());
}

#[test]
fn unknown_tag_decodes_to_nothing() {
    let reg = Registry::new();
    let body = created_body([0u8; 32], 1, [0u8; 32], 2);
    assert!(decode_event(&reg, &[9u8; 8], &body).is_none());
}

#[test]
fn marker_is_stripped() {
    assert_eq!(strip_marker("Program data: abc"), Some("abc"));
    assert_eq!(strip_marker("Program data: "), Some(""));
    assert_eq!(strip_marker("Program log: abc"), None);
    assert_eq!(strip_marker("Program data:"), None);
}

#[test]
fn envelope_splits_tag_and_body() {
    assert!(envelope_from_bytes(&[1, 2, 3, 4, 5, 6, 7]).is_none());
    let e = envelope_from_bytes(&[1, 2, 3, 4, 5, 6, 7, 8, 9, 10]).unwrap();
    assert_eq!(e.tag, [1, 2, 3, 4, 5, 6, 7, 8]);
    assert_eq!(e.body, vec![9, 10]);
    let e = envelope_from_bytes(&[0u8; 8]).unwrap();
    assert!(e.body.is_empty());
}

#[test]
fn extract_decodes_base64() {
    let e = extract_payload("Program data: AQIDBAUGBwgJ").unwrap();
    assert_eq!(e.tag, [1, 2, 3, 4, 5, 6, 7, 8]);
    assert_eq!(e.body, vec![9]);
    assert!(extract_payload("Program data: AQID").is_none());
    assert!(extract_payload("Program log: AQIDBAUGBwgJ").is_none());
}

#[test]
fn malformed_base64_then_next_line() {
    let reg = Registry::new();
    assert!(extract_payload("Program data: !!not base64!!").is_none());
    assert!(process_line(&reg, "Program data: !!not base64!!").is_none());
    let lines = vec!["Program data: !!not base64!!".to_string(), created_line()];
    let out = process_lines(&reg, &lines);
    assert_eq!(out.len(), 1);
    expect_created(out.into_iter().next(), 42, 1000);
}

#[test]
fn created_line_reaches_two_subscribers() {
    let reg = Registry::new();
    let mut b = Broadcaster::new(100);
    let s1 = b.subscribe().unwrap();
    let s2 = b.subscribe().unwrap();
    assert_eq!(handle_line(&reg, &created_line(), &mut b), 2);
    expect_created(b.try_recv(s1), 42, 1000);
    expect_created(b.try_recv(s2), 42, 1000);
    assert!(b.try_recv(s1).is_none());
    assert!(b.try_recv(s2).is_none());
}

#[test]
fn unknown_tag_line_reaches_nobody() {
    let reg = Registry::new();
    let mut b = Broadcaster::new(100);
    let s1 = b.subscribe().unwrap();
    let s2 = b.subscribe().unwrap();
    let mut bytes = vec![0xAAu8; 8];
    bytes.extend_from_slice(&created_body([0u8; 32], 42, [0u8; 32], 1000));
    let unknown = format!("Program data: {}", general_purpose::STANDARD.encode(bytes));
    assert_eq!(handle_line(&reg, &unknown, &mut b), 0);
    assert!(b.try_recv(s1).is_none());
    assert!(b.try_recv(s2).is_none());
    assert_eq!(handle_line(&reg, &created_line(), &mut b), 2);
    expect_created(b.try_recv(s1), 42, 1000);
    expect_created(b.try_recv(s2), 42, 1000);
}

#[test]
fn disconnect_keeps_others_served() {
    let reg = Registry::new();
    let mut b = Broadcaster::new(100);
    let s1 = b.subscribe().unwrap();
    let s2 = b.subscribe().unwrap();
    let s3 = b.subscribe().unwrap();
    handle_line(&reg, &created_line(), &mut b);
    assert!(b.unsubscribe(s2));
    assert!(!b.unsubscribe(s2));
    assert!(!b.is_subscribed(s2));
    assert_eq!(handle_line(&reg, &line_for("OrderCreated", &created_body([0u8; 32], 43, [0u8; 32], 5)), &mut b), 2);
    for s in [s1, s3] {
        expect_created(b.try_recv(s), 42, 1000);
        expect_created(b.try_recv(s), 43, 5);
        assert!(b.try_recv(s).is_none());
    }
    assert!(b.try_recv(s2).is_none());
}

#[test]
fn publish_order_and_overflow() {
    let mut b = Broadcaster::new(2);
    let s1 = b.subscribe().unwrap();
    let ev = |n: u64| WebEvent::OrderCreated {
        order: ZERO_ID.to_string(),
        order_id: n,
        customer: ZERO_ID.to_string(),
        amount: n,
    };
    assert_eq!(b.publish(ev(1)), 1);
    let s2 = b.subscribe().unwrap();
    b.publish(ev(2));
    b.publish(ev(3));
    expect_created(b.try_recv(s1), 2, 2);
    expect_created(b.try_recv(s1), 3, 3);
    expect_created(b.try_recv(s2), 2, 2);
    expect_created(b.try_recv(s2), 3, 3);
    assert!(b.try_recv(s1).is_none());
    assert_eq!(b.subscriber_count(), 2);
}

#[test]
fn session_lifecycle() {
    let mut b = Broadcaster::new(4);
    let mut s = Session::open(&mut b).unwrap();
    assert_eq!(s.state, SessionState::Connected);
    assert!(matches!(s.next_action(&mut b), SessionAction::Wait));
    b.publish(WebEvent::OrderAccepted { order: "a".to_string(), courier: "b".to_string() });
    match s.next_action(&mut b) {
        SessionAction::Send(ev) => assert_eq!(ev.kind_name(), "OrderAccepted"),
        _ => panic!("expected an event to send"),
    }
    s.on_send_result(&mut b, true);
    assert_eq!(s.state, SessionState::Connected);
    s.on_send_result(&mut b, false);
    assert_eq!(s.state, SessionState::Closed);
    assert!(!b.is_subscribed(s.id));
    assert!(matches!(s.next_action(&mut b), SessionAction::Stop));
}

#[test]
fn accepted_line_is_normalized() {
    let reg = Registry::new();
    let mut courier = [0u8; 32];
    courier[31] = 1;
    let body: Vec<u8> = [[0u8; 32], courier].concat();
    match process_line(&reg, &line_for("OrderAccepted", &body)) {
        Some(WebEvent::OrderAccepted { order, courier: c }) => {
            assert_eq!(order, ZERO_ID);
            assert_eq!(c, "11111111111111111111111111111112");
        }
        other => panic!("unexpected {:?}", other),
    }
}

#[test]
fn non_payload_line_is_ignored() {
    let reg = Registry::new();
    assert!(process_line(&reg, "Program log: Instruction: CreateOrder").is_none());
    let short = format!("Program data: {}", general_purpose::STANDARD.encode([1u8, 2, 3]));
    assert!(process_line(&reg, &short).is_none());
}
