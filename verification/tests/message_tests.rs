use target_range::message::{Message, MessageValue};

#[test]
fn message_round_trip_hit_and_score() {
    let mut m = Message::new();
    m.insert("hit", MessageValue::I32(5));
    m.insert("score", MessageValue::I32(300));
    assert!(matches!(m.get("hit"), Some(MessageValue::I32(5))));
    assert!(matches!(m.get("score"), Some(MessageValue::I32(300))));
}

#[test]
fn message_insert_replaces_earlier_value() {
    let mut m = Message::new();
    m.insert("score", MessageValue::I32(1));
    m.insert("score", MessageValue::I32(2));
    assert!(matches!(m.get("score"), Some(MessageValue::I32(2))));
}

#[test]
fn message_missing_key_is_none() {
    let mut m = Message::new();
    m.insert("hit", MessageValue::I32(5));
    assert!(m.get("miss").is_none());
    assert!(!m.contains_key("miss"));
    assert!(m.contains_key("hit"));
}

#[test]
fn message_keeps_other_keys_distinct() {
    let mut m = Message::new();
    m.insert("a", MessageValue::I64(1));
    m.insert("b", MessageValue::F64(2.5f64.to_bits()));
    m.insert("c", MessageValue::Timestamp(77));
    assert!(matches!(m.get("a"), Some(MessageValue::I64(1))));
    match m.get("b") {
        Some(MessageValue::F64(bits)) => assert_eq!(f64::from_bits(*bits), 2.5),
        _ => panic!("wrong tag under b"),
    }
    assert!(matches!(m.get("c"), Some(MessageValue::Timestamp(77))));
}
