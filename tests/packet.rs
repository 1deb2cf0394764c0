use grapevine::{
    AesHandshake, AesKey, Cursor, FromPacket, IntoPacket, Message, Packet, PrivateKey,
    RsaHandshake,
};
use openssl::pkey::PKey;
use openssl::rsa::Rsa;

fn rsa_key(bits: u32) -> PrivateKey {
    let key = PKey::from_rsa(Rsa::generate(bits).unwrap()).unwrap();
    PrivateKey::from_pem(key.private_key_to_pem_pkcs8().unwrap()).unwrap()
}

#[test]
fn test_packet_write_and_read_roundtrip() {
    let private = rsa_key(2048);
    let data = b"test data".to_vec();
    let packet = Packet::from_data(data.clone(), &private).unwrap();

    let mut buf = Vec::new();
    packet.to_writer(&mut buf).unwrap();

    let mut cursor = Cursor::new(buf);
    let read_packet = Packet::from_reader(&mut cursor).unwrap();

    assert_eq!(read_packet.data(), &data[..]);
    assert_eq!(read_packet.signature(), packet.signature());
    assert_eq!(read_packet.iv(), packet.iv());
}

#[test]
fn test_packet_signature_verification() {
    let private = rsa_key(2048);
    let public = private.public_key().unwrap();

    let data = b"verify me".to_vec();
    let packet = Packet::from_data(data, &private).unwrap();

    assert!(packet.verify(&public));
}

#[test]
fn test_packet_signature_verification_fails_on_tamper() {
    let private = rsa_key(2048);
    let public = private.public_key().unwrap();

    let data = b"verify me".to_vec();
    let packet = Packet::from_data(data, &private).unwrap();

    // tamper with the data
    let mut tampered = packet.data().to_vec();
    tampered[0] ^= 0xFF;
    let packet = Packet::from_parts(tampered, packet.signature().to_vec(), None).unwrap();
    assert!(!packet.verify(&public));
}

#[test]
fn test_packet_encrypt_decrypt_roundtrip() {
    let private = rsa_key(2048);
    let data = b"secret data".to_vec();
    let mut packet = Packet::from_data(data.clone(), &private).unwrap();
    let signature = packet.signature().to_vec();

    // a fixed AES-256 key
    let aes_key = AesKey::from_bytes(vec![42u8; 32]).unwrap();

    packet.encrypt(&aes_key).unwrap();
    assert!(packet.iv().is_some());
    // data and signature are encrypted
    assert_ne!(packet.data(), &data[..]);

    packet.decrypt(&aes_key).unwrap();
    assert_eq!(packet.data(), &data[..]);
    assert_eq!(packet.signature(), &signature[..]);
}

#[test]
fn test_into_packet_and_from_packet_traits() {
    let private = rsa_key(2048);

    let message = Message::with_timestamp("hello".to_string(), 42);
    let packet = message.into_packet(&private).unwrap();
    let recovered = <Message as FromPacket>::from_packet(&packet).unwrap();
    assert_eq!(recovered.content(), message.content());
    assert_eq!(recovered.timestamp(), message.timestamp());
}

#[test]
fn test_handshake_new() {
    let key = PKey::generate_ed25519().unwrap();
    let private_key = PrivateKey::from_pem(key.private_key_to_pem_pkcs8().unwrap()).unwrap();
    let handshake = RsaHandshake::new(&private_key).unwrap();
    let public_key = handshake.public_key().unwrap();
    let expected = PKey::public_key_from_pem(public_key.pem()).unwrap();
    assert!(expected.public_eq(&key));
}

#[test]
fn test_packet_conversion() {
    let private_key = rsa_key(2048);
    let handshake = RsaHandshake::new(&private_key).unwrap();
    let public_key = handshake.public_key().unwrap();
    let packet = handshake.into_packet(&private_key).unwrap();
    let mut data = Vec::new();
    packet.to_writer(&mut data).unwrap();
    let decoded_packet = Packet::from_reader(&mut Cursor::new(data)).unwrap();
    assert!(decoded_packet.verify(&public_key));
    let decoded = RsaHandshake::from_packet(&decoded_packet);
    let key = PKey::public_key_from_pem(decoded.public_key().unwrap().pem()).unwrap();
    let original = PKey::private_key_from_pem(private_key.pem()).unwrap();
    assert!(key.public_eq(&original));
}

#[test]
fn test_decrypt_key() {
    let aes_key = AesKey::generate().unwrap();

    let private_key = rsa_key(1024);
    let public_key = private_key.public_key().unwrap();

    let handshake = AesHandshake::new(&aes_key, &public_key).unwrap();
    let decrypted_key = handshake.decrypt_key(&private_key).unwrap();
    assert_eq!(decrypted_key.as_bytes(), aes_key.as_bytes());
}

#[test]
fn signature_from_another_key_fails() {
    let signer = rsa_key(2048);
    let other = rsa_key(2048).public_key().unwrap();
    let packet = Packet::from_data(b"payload".to_vec(), &signer).unwrap();
    assert!(!packet.verify(&other));
}

#[test]
fn encrypted_packet_survives_the_wire() {
    let private = rsa_key(2048);
    let public = private.public_key().unwrap();
    let key = AesKey::generate().unwrap();
    let mut packet = Packet::from_data(b"over the wire".to_vec(), &private).unwrap();
    packet.encrypt(&key).unwrap();
    let bytes = packet.to_bytes().unwrap();
    let mut read = Packet::from_reader(&mut Cursor::new(bytes)).unwrap();
    assert_eq!(read.iv().unwrap().len(), 16);
    read.decrypt(&key).unwrap();
    assert_eq!(read.data(), b"over the wire");
    assert!(read.verify(&public));
}

#[test]
fn decrypting_a_plain_packet_is_refused() {
    let private = rsa_key(2048);
    let mut packet = Packet::from_data(b"plain".to_vec(), &private).unwrap();
    let key = AesKey::from_bytes(vec![1u8; 32]).unwrap();
    assert!(matches!(
        packet.decrypt(&key),
        Err(grapevine::ProtocolError::Unencrypted)
    ));
    assert_eq!(packet.data(), b"plain");
}

#[test]
fn decrypting_under_another_key_fails_or_garbles() {
    let private = rsa_key(2048);
    let mut packet = Packet::from_data(b"secret".to_vec(), &private).unwrap();
    packet.encrypt(&AesKey::from_bytes(vec![1u8; 32]).unwrap()).unwrap();
    let result = packet.decrypt(&AesKey::from_bytes(vec![2u8; 32]).unwrap());
    assert!(result.is_err() || packet.data() != b"secret");
}

#[test]
fn iv_of_wrong_length_is_malformed() {
    let mut buf = Vec::new();
    grapevine::write_buffer(&mut buf, b"d").unwrap();
    grapevine::write_buffer(&mut buf, b"s").unwrap();
    grapevine::write_buffer(&mut buf, &[0u8; 5]).unwrap();
    let result = Packet::from_reader(&mut Cursor::new(buf));
    assert_eq!(
        result.err().unwrap().kind(),
        grapevine::ErrorKind::InvalidData
    );
    assert!(Packet::from_parts(vec![], vec![], Some(vec![0u8; 5])).is_none());
}

#[test]
fn aes_key_needs_32_bytes() {
    assert!(AesKey::from_bytes(vec![0u8; 31]).is_none());
    assert!(AesKey::from_bytes(vec![0u8; 32]).is_some());
}

#[test]
fn encrypt_with_a_given_iv_is_repeatable() {
    let private = rsa_key(2048);
    let key = AesKey::from_bytes(vec![9u8; 32]).unwrap();
    let mut first = Packet::from_data(b"same".to_vec(), &private).unwrap();
    let mut second = Packet::from_parts(first.data().to_vec(), first.signature().to_vec(), None).unwrap();
    first.encrypt_with_iv(&key, vec![5u8; 16]).unwrap();
    second.encrypt_with_iv(&key, vec![5u8; 16]).unwrap();
    assert_eq!(first.data(), second.data());
    assert_eq!(first.iv(), Some(&[5u8; 16][..]));
    assert_ne!(first.data(), b"same");
    first.decrypt(&key).unwrap();
    assert_eq!(first.data(), b"same");
}

#[test]
fn generated_key_is_consistent_and_a_corrupted_one_is_not() {
    let private = PrivateKey::generate().unwrap();
    assert!(private.is_consistent());
    let mut text = private.pem().to_vec();
    let middle = text.len() / 2;
    text[middle] = if text[middle] == b'A' { b'B' } else { b'A' };
    assert!(!PrivateKey::from_pem(text).unwrap().is_consistent());
}
