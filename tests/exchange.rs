use grapevine::{
    classify, write_buffer, AesKey, Channel, ChannelDesc, Cursor, Handshake, Message, Packet,
    PrivateKey, ProtocolError, ProtocolPath, Received, RsaHandshake, Setup, Step,
};

fn now() -> i64 {
    chrono::Utc::now().timestamp_micros()
}

fn parse(bytes: Vec<u8>) -> Packet {
    Packet::from_reader(&mut Cursor::new(bytes)).unwrap()
}

fn expect_send(step: Result<Step, ProtocolError>) -> (Setup, Vec<u8>) {
    match step.unwrap() {
        Step::Send(setup, wire) => (setup, wire),
        Step::Established(_) => panic!("established too early"),
        Step::Rejected => panic!("rejected"),
    }
}

fn expect_channel(step: Result<Step, ProtocolError>) -> Channel {
    match step.unwrap() {
        Step::Established(channel) => channel,
        Step::Send(_, _) => panic!("still negotiating"),
        Step::Rejected => panic!("rejected"),
    }
}

fn is_rejected(step: Result<Step, ProtocolError>) -> bool {
    matches!(step, Ok(Step::Rejected))
}

/// Runs both exchanges between two fresh peers: A named its channel "Bob",
/// B named its channel "Alice".
fn connect_pair() -> (Channel, Channel) {
    let (a, a_offer) = Setup::start_rsa(Some("Bob".to_string()), "10.0.0.2:7000".to_string()).unwrap();
    let (b, b_offer) =
        Setup::start_rsa(Some("Alice".to_string()), "10.0.0.1:5000".to_string()).unwrap();
    let (a, a_session) = expect_send(a.on_packet(parse(b_offer)));
    let (b, b_session) = expect_send(b.on_packet(parse(a_offer)));
    let channel_a = expect_channel(a.on_packet(parse(b_session)));
    let channel_b = expect_channel(b.on_packet(parse(a_session)));
    (channel_a, channel_b)
}

/// A channel pair whose keys are known to the test, built without a handshake.
fn keyed_pair() -> (Channel, Channel) {
    let key_a = PrivateKey::generate().unwrap();
    let key_b = PrivateKey::generate().unwrap();
    let desc_a = ChannelDesc::new(
        "b".to_string(),
        "b:1".to_string(),
        key_a.clone(),
        key_b.public_key().unwrap(),
    );
    let desc_b = ChannelDesc::new(
        "a".to_string(),
        "a:1".to_string(),
        key_b,
        key_a.public_key().unwrap(),
    );
    let a_receive = AesKey::from_bytes(vec![1u8; 32]).unwrap();
    let b_receive = AesKey::from_bytes(vec![2u8; 32]).unwrap();
    let a = Channel::new(desc_a, a_receive.clone(), b_receive.clone());
    let b = Channel::new(desc_b, b_receive, a_receive);
    (a, b)
}

#[test]
fn end_to_end_scenario() {
    // A greets B, asking for the public-key exchange
    let mut greeting = Vec::new();
    Handshake::new(ProtocolPath::RsaExchange)
        .to_writer(&mut greeting)
        .unwrap();
    assert_eq!(
        classify(&mut Cursor::new(greeting)).unwrap(),
        Some(ProtocolPath::RsaExchange)
    );

    let (mut a, mut b) = connect_pair();
    assert_eq!(a.name(), "Bob");
    assert_eq!(b.name(), "Alice");
    assert_eq!(a.desc().last_addr(), "10.0.0.2:7000");

    let wire = a.send_message(Message::new("hi".to_string())).unwrap();
    assert_eq!(a.messages().len(), 1);
    assert!(a.messages()[0].is_ours());

    let outcome = b.receive(parse(wire), now()).unwrap();
    assert_eq!(outcome, Received::Accepted);
    assert_eq!(b.messages().len(), 1);
    assert_eq!(b.messages()[0].content(), "hi");
    assert!(b.messages()[0].is_theirs());

    let reply = b.send_message(Message::new("hello back".to_string())).unwrap();
    assert_eq!(a.receive(parse(reply), now()).unwrap(), Received::Accepted);
    assert_eq!(a.messages()[1].content(), "hello back");
}

#[test]
fn reconnection_scenario() {
    let (a, b) = connect_pair();
    let desc_a: ChannelDesc = a.desc().clone();
    let desc_b: ChannelDesc = b.desc().clone();
    let own_a = desc_a.own_key().pem().to_vec();

    let (a2, a_offer) = Setup::start_aes(desc_a).unwrap();
    let (b2, b_offer) = Setup::start_aes(desc_b).unwrap();
    let mut a2 = expect_channel(a2.on_packet(parse(b_offer)));
    let mut b2 = expect_channel(b2.on_packet(parse(a_offer)));
    assert_eq!(a2.desc().own_key().pem(), &own_a[..]);
    assert_eq!(a2.name(), "Bob");

    let wire = a2.send_message(Message::new("again".to_string())).unwrap();
    assert_eq!(b2.receive(parse(wire), now()).unwrap(), Received::Accepted);
    assert_eq!(b2.messages()[0].content(), "again");
    let wire = b2.send_message(Message::new("welcome".to_string())).unwrap();
    assert_eq!(a2.receive(parse(wire), now()).unwrap(), Received::Accepted);
}

#[test]
fn handshake_rejects_key_signed_by_another() {
    let offered = PrivateKey::generate().unwrap();
    let signer = PrivateKey::generate().unwrap();
    let packet = RsaHandshake::new(&offered)
        .unwrap()
        .into_packet(&signer)
        .unwrap();
    let (b, _) = Setup::start_rsa(None, "10.0.0.1:5000".to_string()).unwrap();
    assert!(is_rejected(b.on_packet(packet)));
}

#[test]
fn session_key_from_a_stranger_is_rejected() {
    let (_, b) = connect_pair();
    let mut desc_b = b.desc().clone();
    // B expects A's key, but a stranger answers in A's place
    let stranger = PrivateKey::generate().unwrap();
    let desc_stranger = ChannelDesc::new(
        "x".to_string(),
        "x:1".to_string(),
        stranger,
        desc_b.own_key().public_key().unwrap(),
    );
    desc_b.rename("renamed".to_string());
    assert_eq!(desc_b.name(), "renamed");
    let (b2, _) = Setup::start_aes(desc_b).unwrap();
    let (_, forged) = Setup::start_aes(desc_stranger).unwrap();
    assert!(is_rejected(b2.on_packet(parse(forged))));
}

#[test]
fn unnamed_channel_takes_the_address() {
    let (a, _) = Setup::start_rsa(None, "192.168.1.9:4000".to_string()).unwrap();
    let (_, b_offer) = Setup::start_rsa(None, "192.168.1.8:4000".to_string()).unwrap();
    let (a, _) = expect_send(a.on_packet(parse(b_offer)));
    match a {
        Setup::AwaitingSessionKey { desc, .. } => assert_eq!(desc.name(), "192.168.1.9:4000"),
        Setup::AwaitingPublicKey { .. } => panic!("wrong state"),
    }
}

#[test]
fn messages_from_the_future_are_dropped() {
    let (mut a, mut b) = keyed_pair();
    let wire = a
        .send_message(Message::with_timestamp("later".to_string(), 2_000))
        .unwrap();
    assert_eq!(b.receive(parse(wire), 1_000).unwrap(), Received::Future);
    assert_eq!(b.messages().len(), 0);
}

#[test]
fn messages_older_than_the_last_are_dropped() {
    let (mut a, mut b) = keyed_pair();
    let first = a
        .send_message(Message::with_timestamp("first".to_string(), 500))
        .unwrap();
    let older = a
        .send_message(Message::with_timestamp("older".to_string(), 400))
        .unwrap();
    let same = a
        .send_message(Message::with_timestamp("same".to_string(), 500))
        .unwrap();
    assert_eq!(b.receive(parse(first), 1_000).unwrap(), Received::Accepted);
    assert_eq!(b.receive(parse(older), 1_000).unwrap(), Received::Stale);
    assert_eq!(b.receive(parse(same), 1_000).unwrap(), Received::Accepted);
    let contents: Vec<&str> = b.messages().iter().map(|m| m.content().as_str()).collect();
    assert_eq!(contents, vec!["first", "same"]);
}

#[test]
fn forged_packet_is_a_verification_error() {
    let (mut a, mut b) = keyed_pair();
    // a packet encrypted under B's receive key but signed by a stranger
    let stranger = PrivateKey::generate().unwrap();
    let plain = Message::with_timestamp("forged".to_string(), 1).serialize().unwrap();
    let mut packet = Packet::from_data(plain, &stranger).unwrap();
    packet.encrypt(&AesKey::from_bytes(vec![2u8; 32]).unwrap()).unwrap();
    let result = b.receive(packet, 1_000);
    assert!(matches!(result, Err(ProtocolError::VerificationError)));
    assert_eq!(b.messages().len(), 0);
    // the genuine sender still gets through
    let wire = a
        .send_message(Message::with_timestamp("real".to_string(), 1))
        .unwrap();
    assert_eq!(b.receive(parse(wire), 1_000).unwrap(), Received::Accepted);
}

#[test]
fn unencrypted_packet_on_a_channel_is_refused() {
    let (_, mut b) = keyed_pair();
    let key = PrivateKey::generate().unwrap();
    let packet = Packet::from_data(b"plain".to_vec(), &key).unwrap();
    assert!(matches!(
        b.receive(packet, 1_000),
        Err(ProtocolError::Unencrypted)
    ));
}

#[test]
fn aes_greeting_is_classified() {
    let mut greeting = Vec::new();
    Handshake::new(ProtocolPath::AesExchange)
        .to_writer(&mut greeting)
        .unwrap();
    assert_eq!(
        classify(&mut Cursor::new(greeting)).unwrap(),
        Some(ProtocolPath::AesExchange)
    );
}

#[test]
fn greeting_of_another_version_is_ignored() {
    let body = bitcode::serialize(&(0u8, 2u16)).unwrap();
    let mut greeting = Vec::new();
    write_buffer(&mut greeting, &body).unwrap();
    assert_eq!(classify(&mut Cursor::new(greeting)).unwrap(), None);
}

#[test]
fn greeting_round_trip() {
    let mut greeting = Vec::new();
    Handshake::default().to_writer(&mut greeting).unwrap();
    let read = Handshake::from_reader(&mut Cursor::new(greeting)).unwrap();
    assert!(read.version_ok());
    assert_eq!(read.version(), grapevine::handshake::PROTOCOL_V);
    assert_eq!(read.next(), ProtocolPath::RsaExchange);
}

#[test]
fn greeting_with_unknown_path_is_malformed() {
    let body = bitcode::serialize(&(7u8, 1u16)).unwrap();
    let mut greeting = Vec::new();
    write_buffer(&mut greeting, &body).unwrap();
    assert!(matches!(
        classify(&mut Cursor::new(greeting)),
        Err(ProtocolError::IoError(_))
    ));
}

#[test]
fn truncated_greeting_is_end_of_input() {
    assert!(matches!(
        classify(&mut Cursor::new(vec![5, 1])),
        Err(ProtocolError::IoError(_))
    ));
}

#[test]
fn channels_are_equal_by_name() {
    let (a, b) = keyed_pair();
    assert!(a != b);
    let (c, _) = keyed_pair();
    assert!(a == c);
}

#[test]
fn admission_on_given_timestamps() {
    let (mut a, mut b) = keyed_pair();
    assert_eq!(b.admission_of(10, 5), Received::Future);
    assert_eq!(b.admission_of(5, 5), Received::Accepted);
    let wire = a
        .send_message(Message::with_timestamp("m".to_string(), 100))
        .unwrap();
    assert_eq!(b.receive(parse(wire), 1_000).unwrap(), Received::Accepted);
    assert_eq!(b.admission_of(99, 1_000), Received::Stale);
    assert_eq!(b.admission_of(100, 1_000), Received::Accepted);
    assert_eq!(b.admission_of(101, 1_000), Received::Accepted);
}

#[test]
fn descriptor_for_peer_names_after_address() {
    let key = PrivateKey::generate().unwrap();
    let public = key.public_key().unwrap();
    let named = ChannelDesc::for_peer(
        Some("Carol".to_string()),
        "1.2.3.4:5".to_string(),
        key.clone(),
        public.clone(),
    );
    assert_eq!(named.name(), "Carol");
    let unnamed = ChannelDesc::for_peer(None, "1.2.3.4:5".to_string(), key, public);
    assert_eq!(unnamed.name(), "1.2.3.4:5");
    assert_eq!(unnamed.last_addr(), "1.2.3.4:5");
}

#[test]
fn order_is_kept_against_the_last_accepted_inbound_message() {
    let (mut a, mut b) = keyed_pair();
    let first = a
        .send_message(Message::with_timestamp("in10".to_string(), 10))
        .unwrap();
    assert_eq!(b.receive(parse(first), 1_000).unwrap(), Received::Accepted);
    // our own reply, stamped earlier, does not lower the bar
    b.send_message(Message::with_timestamp("ours5".to_string(), 5))
        .unwrap();
    let older = a
        .send_message(Message::with_timestamp("in7".to_string(), 7))
        .unwrap();
    assert_eq!(b.receive(parse(older), 1_000).unwrap(), Received::Stale);
    // nor does a later one of ours raise it
    b.send_message(Message::with_timestamp("ours20".to_string(), 20))
        .unwrap();
    let newer = a
        .send_message(Message::with_timestamp("in12".to_string(), 12))
        .unwrap();
    assert_eq!(b.receive(parse(newer), 1_000).unwrap(), Received::Accepted);
    assert_eq!(b.last_inbound_timestamp(), Some(12));
    let contents: Vec<&str> = b.messages().iter().map(|m| m.content().as_str()).collect();
    assert_eq!(contents, vec!["in10", "ours5", "ours20", "in12"]);
}

#[test]
fn malformed_message_is_dropped_and_listening_goes_on() {
    let (mut a, mut b) = keyed_pair();
    // signed by the genuine peer and encrypted under B's receive key, but no message
    let mut packet = Packet::from_data(vec![0xFF], a.desc().own_key()).unwrap();
    packet.encrypt(&AesKey::from_bytes(vec![2u8; 32]).unwrap()).unwrap();
    assert_eq!(b.receive(packet, 1_000).unwrap(), Received::Malformed);
    assert_eq!(b.messages().len(), 0);
    let wire = a
        .send_message(Message::with_timestamp("fine".to_string(), 1))
        .unwrap();
    assert_eq!(b.receive(parse(wire), 1_000).unwrap(), Received::Accepted);
}

#[test]
fn open_then_accept_inbound() {
    let (mut a, mut b) = keyed_pair();
    let wire = a
        .send_message(Message::with_timestamp("two step".to_string(), 3))
        .unwrap();
    let message = b.open(parse(wire)).unwrap().unwrap();
    assert!(message.is_theirs());
    assert_eq!(b.messages().len(), 0);
    assert_eq!(b.admission_of(message.timestamp(), 1_000), Received::Accepted);
    assert_eq!(b.accept_inbound(message, 1_000), Received::Accepted);
    assert_eq!(b.messages()[0].content(), "two step");
}

#[test]
fn encrypted_pem_fails_without_asking() {
    let key = openssl::pkey::PKey::from_rsa(openssl::rsa::Rsa::generate(2048).unwrap()).unwrap();
    let pem = key
        .private_key_to_pem_pkcs8_passphrase(openssl::symm::Cipher::aes_256_cbc(), b"secret")
        .unwrap();
    let private = PrivateKey::from_pem(pem).unwrap();
    assert!(private.public_key().is_err());
    assert!(Packet::from_data(b"x".to_vec(), &private).is_err());
}
