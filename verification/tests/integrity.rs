use stun::message::Setter;
use turn::address::TransactionId;
use turn::attribute::Attribute;
use turn::error::Error;
use turn::integrity::{check_fingerprint, check_integrity, constant_time_eq, derive_key, find_attribute};
use turn::message::{Message, CLASS_REQUEST, METHOD_ALLOCATE};

fn request() -> Message {
    Message {
        method: METHOD_ALLOCATE,
        class: CLASS_REQUEST,
        transaction_id: TransactionId([9, 8, 7, 6, 5, 4, 3, 2, 1, 0, 1, 2]),
        attributes: vec![
            Attribute::RequestedTransport(17),
            Attribute::Username(b"user".to_vec()),
            Attribute::Realm(b"test-realm".to_vec()),
            Attribute::Nonce(b"f00f".to_vec()),
        ],
    }
}

fn hex(text: &str) -> Vec<u8> {
    (0..text.len() / 2).map(|i| u8::from_str_radix(&text[2 * i..2 * i + 2], 16).unwrap()).collect()
}

#[test]
fn long_term_key_is_md5_of_user_realm_password() {
    assert_eq!(derive_key(b"", b"", b""), hex("4501c091b0366d76ea3218b6cfdd8097"));
    let key = derive_key(b"user", b"realm", b"pass");
    assert_eq!(key, hex("8493fbc53ba582fb4c044c456bdc40eb"));
    let theirs = stun::integrity::MessageIntegrity::new_long_term_integrity(
        "user".to_owned(),
        "realm".to_owned(),
        "pass".to_owned(),
    );
    assert_eq!(key, theirs.0);
    assert_ne!(derive_key(b"user", b"realm", b"pass2"), key);
}

#[test]
fn signed_message_verifies_with_its_key() {
    let key = derive_key(b"user", b"test-realm", b"password");
    let mut m = request();
    assert_eq!(m.add_integrity(&key), Ok(()));
    assert_eq!(m.attributes.len(), 5);
    let bytes = m.encode_to_packet();
    assert!(check_integrity(&bytes, &key));
    assert!(!check_integrity(&bytes, &derive_key(b"user", b"test-realm", b"wrong")));
    assert!(!check_integrity(&request().encode_to_packet(), &key));
    assert_eq!(Message::decode_from_packet(&bytes), Ok(m));
}

#[test]
fn flipping_a_signed_byte_breaks_verification() {
    let key = derive_key(b"user", b"test-realm", b"password");
    let mut m = request();
    m.add_integrity(&key).unwrap();
    let bytes = m.encode_to_packet();
    let at = find_attribute(&bytes, 0x0008).unwrap();
    assert_eq!(at, bytes.len() - 24);
    for i in 0..at {
        if i == 2 || i == 3 {
            continue;
        }
        for bit in [0x01u8, 0x80] {
            let mut tampered = bytes.clone();
            tampered[i] ^= bit;
            assert!(!check_integrity(&tampered, &key), "byte {} bit {}", i, bit);
        }
    }
    for i in at + 4..bytes.len() {
        let mut tampered = bytes.clone();
        tampered[i] ^= 0x01;
        assert!(!check_integrity(&tampered, &key));
    }
}

#[test]
fn the_length_field_is_set_anew_before_the_digest() {
    let key = derive_key(b"user", b"test-realm", b"password");
    let mut m = request();
    m.add_integrity(&key).unwrap();
    let mut bytes = m.encode_to_packet();
    bytes[3] ^= 0x04;
    assert!(check_integrity(&bytes, &key));
    assert_eq!(Message::decode_from_packet(&bytes), Err(Error::Malformed));
}

#[test]
fn integrity_agrees_with_the_stun_crate() {
    let key = derive_key(b"user", b"test-realm", b"password");
    let mut m = request();
    m.add_integrity(&key).unwrap();
    m.add_fingerprint().unwrap();
    let bytes = m.encode_to_packet();
    let mut theirs = stun::message::Message::new();
    theirs.unmarshal_binary(&bytes).unwrap();
    let integrity = stun::integrity::MessageIntegrity(key.clone());
    assert!(integrity.check(&mut theirs).is_ok());
    assert!(stun::fingerprint::FINGERPRINT.check(&theirs).is_ok());

    let mut built = stun::message::Message::new();
    built
        .build(&[
            Box::new(stun::message::MessageType::new(
                stun::message::METHOD_ALLOCATE,
                stun::message::CLASS_REQUEST,
            )),
            Box::new(stun::agent::TransactionId([3; 12])),
            Box::new(stun::textattrs::TextAttribute::new(
                stun::attributes::ATTR_USERNAME,
                "user".to_owned(),
            )),
            Box::new(integrity),
            Box::new(stun::fingerprint::FINGERPRINT),
        ])
        .unwrap();
    assert!(check_integrity(&built.raw, &key));
    assert!(check_fingerprint(&built.raw));
    let decoded = Message::decode_from_packet(&built.raw).unwrap();
    assert_eq!(decoded.attributes.len(), 3);
    assert_eq!(decoded.attributes[0], Attribute::Username(b"user".to_vec()));
    let mut again = Message {
        method: decoded.method,
        class: decoded.class,
        transaction_id: decoded.transaction_id,
        attributes: vec![Attribute::Username(b"user".to_vec())],
    };
    again.add_integrity(&key).unwrap();
    again.add_fingerprint().unwrap();
    assert_eq!(again.encode_to_packet(), built.raw);
    let _ = stun::fingerprint::FINGERPRINT.add_to(&mut built);
}

#[test]
fn fingerprint_is_crc32_xored() {
    let mut m = request();
    assert_eq!(m.add_fingerprint(), Ok(()));
    let bytes = m.encode_to_packet();
    assert!(check_fingerprint(&bytes));
    let at = bytes.len() - 8;
    let expected = stun::fingerprint::fingerprint_value(&bytes[..at]);
    assert_eq!(&bytes[at + 4..], &expected.to_be_bytes());
    assert_eq!(stun::fingerprint::fingerprint_value(b"123456789"), 0xCBF43926 ^ 0x5354554e);
    for i in 0..bytes.len() {
        let mut tampered = bytes.clone();
        tampered[i] ^= 0x10;
        if i == 2 || i == 3 {
            assert!(check_fingerprint(&tampered));
        } else {
            assert!(!check_fingerprint(&tampered), "byte {}", i);
        }
    }
    assert!(!check_fingerprint(&request().encode_to_packet()));
}

#[test]
fn integrity_and_fingerprint_come_last() {
    let key = derive_key(b"u", b"r", b"p");
    let mut m = request();
    m.add_integrity(&key).unwrap();
    assert_eq!(m.add_integrity(&key), Err(Error::Malformed));
    m.add_fingerprint().unwrap();
    assert_eq!(m.add_fingerprint(), Err(Error::Malformed));
    assert_eq!(m.add_integrity(&key), Err(Error::Malformed));
    assert_eq!(m.attributes.len(), 6);
    assert!(check_integrity(&m.encode_to_packet(), &key));

    let mut early = request();
    early.add_integrity(&key).unwrap();
    early.attributes.push(Attribute::Lifetime(5));
    assert!(!check_integrity(&early.encode_to_packet(), &key));

    let mut full = request();
    full.attributes = vec![Attribute::Data(vec![0; 65508])];
    assert_eq!(full.add_integrity(&key), Err(Error::MessageTooLong));
    assert_eq!(full.add_fingerprint(), Ok(()));
    let mut bad = request();
    bad.method = 0x1000;
    assert_eq!(bad.add_integrity(&key), Err(Error::Malformed));
    assert_eq!(bad.add_fingerprint(), Err(Error::Malformed));
}

#[test]
fn constant_time_comparison_compares() {
    assert!(constant_time_eq(b"", b""));
    assert!(constant_time_eq(b"abc", b"abc"));
    assert!(!constant_time_eq(b"abc", b"abd"));
    assert!(!constant_time_eq(b"abc", b"bbc"));
    assert!(!constant_time_eq(b"abc", b"abcd"));
    assert!(!constant_time_eq(&[0x80], &[0x00]));
}
