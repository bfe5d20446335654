use sharder::bridge::{bridge_step, decimal_digits, from_key, to_key, BrokerValue};
use sharder::frame::Frame;

#[test]
fn keys_are_the_broker_protocol_names() {
    assert_eq!(to_key(3), b"sharder:to:3".to_vec());
    assert_eq!(to_key(0), b"sharder:to:0".to_vec());
    assert_eq!(to_key(65535), b"sharder:to:65535".to_vec());
    assert_eq!(from_key(), b"sharder:from".to_vec());
}

#[test]
fn decimal_digits_have_no_sign_and_no_leading_zero() {
    assert_eq!(decimal_digits(0), b"0".to_vec());
    assert_eq!(decimal_digits(10), b"10".to_vec());
    assert_eq!(decimal_digits(1024), b"1024".to_vec());
}

#[test]
fn formatted_id_parses_back() {
    for id in [0u16, 9, 10, 99, 1234, 65535] {
        let digits = decimal_digits(id);
        assert_eq!(sharder::config::parse_u16(&digits), Some(id));
    }
}

#[test]
fn popped_bytes_become_a_binary_frame() {
    let reply = vec![BrokerValue::Other, BrokerValue::Bytes(b"HELLO".to_vec())];
    match bridge_step(reply) {
        Some(Frame::Binary(bytes)) => assert_eq!(bytes, b"HELLO".to_vec()),
        _ => panic!("expected a binary frame"),
    }
}

#[test]
fn empty_payload_becomes_an_empty_binary_frame() {
    let reply = vec![BrokerValue::Other, BrokerValue::Bytes(Vec::new())];
    match bridge_step(reply) {
        Some(Frame::Binary(bytes)) => assert!(bytes.is_empty()),
        _ => panic!("expected an empty binary frame"),
    }
}

#[test]
fn malformed_replies_are_dropped() {
    assert!(bridge_step(Vec::new()).is_none());
    assert!(bridge_step(vec![BrokerValue::Bytes(b"x".to_vec())]).is_none());
    assert!(bridge_step(vec![
        BrokerValue::Other,
        BrokerValue::Bytes(b"x".to_vec()),
        BrokerValue::Other,
    ])
    .is_none());
    assert!(bridge_step(vec![BrokerValue::Other, BrokerValue::Other]).is_none());
}
