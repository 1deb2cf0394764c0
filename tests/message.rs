use grapevine::Message;

#[test]
fn test_message_new_sets_fields() {
    let msg = Message::new("hello".to_string());
    assert_eq!(msg.content(), "hello");
    assert!(msg.is_ours());
    // the timestamp is close to now
    let now = chrono::Utc::now().timestamp_micros();
    assert!((now - msg.timestamp()).abs() < 5_000_000);
}

#[test]
fn test_message_serialize_deserialize() {
    let msg = Message::new("test content".to_string());
    let serialized = msg.serialize().unwrap();
    let deserialized = Message::deserialize(&serialized).unwrap();

    assert_eq!(deserialized.content(), "test content");
    assert!(
        !deserialized.is_ours(),
        "Deserialized message should not be ours"
    );
    assert_eq!(deserialized.timestamp(), msg.timestamp());
}

#[test]
fn test_message_deserialize_sets_ours_false() {
    let msg = Message::new("abc".to_string());
    let serialized = msg.serialize().unwrap();
    let deserialized = Message::deserialize(&serialized).unwrap();
    assert!(!deserialized.is_ours());
    assert!(deserialized.is_theirs());
    // a message built locally from the same content is ours again
    let rebuilt = Message::with_timestamp(deserialized.content().clone(), deserialized.timestamp());
    assert!(rebuilt.is_ours());
}

#[test]
fn message_with_timestamp_keeps_it() {
    let msg = Message::with_timestamp("x".to_string(), 1_700_000_000_000_000);
    assert_eq!(msg.timestamp(), 1_700_000_000_000_000);
    assert_eq!(msg.content(), "x");
}

#[test]
fn garbage_does_not_decode_as_message() {
    assert!(Message::deserialize(&[0xFF]).is_err());
}

#[test]
fn message_encoding_differs_from_content() {
    let msg = Message::with_timestamp("payload".to_string(), 42);
    let bytes = msg.serialize().unwrap();
    assert_ne!(bytes, b"payload".to_vec());
}
