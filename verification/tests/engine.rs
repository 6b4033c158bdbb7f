use turn::address::{IpAddress, TransactionId, TransportAddress};
use turn::allocation::LifetimePolicy;
use turn::attribute::Attribute;
use turn::engine::{error_code_for, reason_phrase, Action, Credential, ServerState};
use turn::error::Error;
use turn::integrity::{derive_key, verify};
use turn::message::{
    Message, CLASS_REQUEST, CLASS_SUCCESS, METHOD_ALLOCATE, METHOD_BINDING, METHOD_REFRESH,
};
use turn::request::{Authentication, Request};

fn addr(last: u8, port: u16) -> TransportAddress {
    TransportAddress { ip: IpAddress::V4([192, 0, 2, last]), port }
}

fn state() -> ServerState {
    ServerState::new(
        b"test-realm".to_vec(),
        addr(1, 3478),
        60,
        vec![
            Credential { username: b"user".to_vec(), password: b"password".to_vec() },
            Credential { username: b"user".to_vec(), password: b"shadowed".to_vec() },
        ],
        LifetimePolicy::standard(),
    )
}

fn credentialed(method: u16, nonce: &[u8], password: &[u8]) -> (Message, Vec<u8>) {
    let mut m = Message {
        method,
        class: CLASS_REQUEST,
        transaction_id: TransactionId([5; 12]),
        attributes: vec![
            Attribute::RequestedTransport(17),
            Attribute::Username(b"user".to_vec()),
            Attribute::Realm(b"test-realm".to_vec()),
            Attribute::Nonce(nonce.to_vec()),
        ],
    };
    m.add_integrity(&derive_key(b"user", b"test-realm", password)).unwrap();
    let packet = m.encode_to_packet();
    (m, packet)
}

#[test]
fn verify_accepts_what_is_authentic_and_nothing_else() {
    let mut s = state();
    s.nonces.insert(b"nonce".to_vec(), 100).unwrap();
    let (m, packet) = credentialed(METHOD_ALLOCATE, b"nonce", b"password");
    assert_eq!(s.verify(&m, &packet, 160), Ok(()));
    assert!(verify(&packet, b"user", b"test-realm", b"password"));
    assert!(!verify(&packet, b"user", b"test-realm", b"shadowed"));
    assert!(!verify(&packet, b"user", b"realm", b"password"));

    let (m2, packet2) = credentialed(METHOD_ALLOCATE, b"nonce", b"shadowed");
    assert_eq!(s.verify(&m2, &packet2, 160), Err(Error::Unauthorized));
    let (m3, packet3) = credentialed(METHOD_ALLOCATE, b"other", b"password");
    assert_eq!(s.verify(&m3, &packet3, 160), Err(Error::Unauthorized));
    let bare = Message::new(METHOD_ALLOCATE, CLASS_REQUEST);
    assert_eq!(s.verify(&bare, &bare.encode_to_packet(), 160), Err(Error::Unauthorized));
    assert_eq!(s.verify(&m, &packet2, 160), Err(Error::Unauthorized));
    assert_eq!(s.nonces.issued_at(b"nonce"), Some(100));
    assert_eq!(s.verify(&m, &packet, 161), Err(Error::Unauthorized));
    assert_eq!(s.nonces.issued_at(b"nonce"), None);
    assert_eq!(s.verify(&m, &packet, 100), Err(Error::Unauthorized));
}

#[test]
fn a_nonce_that_is_out_is_not_issued_again() {
    let mut s = state();
    let m = Message::new(METHOD_ALLOCATE, CLASS_REQUEST);
    let first = s.respond_with_nonce(&m, b"abc".to_vec(), 7).unwrap();
    let decoded = Message::decode_from_packet(&first).unwrap();
    assert_eq!(
        decoded.attributes,
        vec![
            Attribute::ErrorCode { code: 401, reason: b"Unauthorized".to_vec() },
            Attribute::Nonce(b"abc".to_vec()),
            Attribute::Realm(b"test-realm".to_vec()),
        ]
    );
    assert_eq!(s.nonces.issued_at(b"abc"), Some(7));
    assert_eq!(s.respond_with_nonce(&m, b"abc".to_vec(), 8), Err(Error::ErrDuplicatedNonce));
    assert_eq!(s.nonces.issued_at(b"abc"), Some(7));
    assert_eq!(s.nonces.len(), 1);
    let long = s.respond_with_nonce(&m, vec![b'x'; 70000], 9);
    assert_eq!(long, Err(Error::MessageTooLong));
}

#[test]
fn authentication_accepts_or_challenges() {
    let mut s = state();
    s.nonces.insert(b"nonce".to_vec(), 0).unwrap();
    let (m, packet) = credentialed(METHOD_REFRESH, b"nonce", b"password");
    let mut request = Request::new(packet, addr(9, 9)).unwrap();
    assert_eq!(request.authenticate_request(&mut s, &m, 1), Ok(Authentication::Accepted));
    assert_eq!(s.nonces.len(), 1);
    let (m, packet) = credentialed(METHOD_REFRESH, b"nonce", b"wrong");
    let mut request = Request::new(packet, addr(9, 9)).unwrap();
    match request.authenticate_request(&mut s, &m, 1) {
        Ok(Authentication::Challenged { response }) => {
            let decoded = Message::decode_from_packet(&response).unwrap();
            assert_eq!(decoded.method, METHOD_REFRESH);
            assert_eq!(decoded.transaction_id, TransactionId([5; 12]));
            assert_eq!(decoded.error_code(), Some(401));
            assert_eq!(s.nonces.issued_at(decoded.bytes_of(0x0015).unwrap()), Some(1));
        }
        other => panic!("{:?}", other),
    }
    assert_eq!(s.nonces.len(), 2);
}

#[test]
fn users_are_looked_up_in_order() {
    let s = state();
    assert_eq!(s.password_of(b"user"), Some(&b"password".to_vec()));
    assert_eq!(s.password_of(b"nobody"), None);
    assert_eq!(s.owner_of(addr(9, 9)).server, addr(1, 3478));
    assert_eq!(s.owner_of(addr(9, 9)).protocol, 17);
}

#[test]
fn errors_are_answered_with_their_code_and_phrase() {
    assert_eq!(error_code_for(&Error::UnsupportedTransport), 442);
    assert_eq!(error_code_for(&Error::AllocationExists), 437);
    assert_eq!(error_code_for(&Error::NoSuchAllocation), 437);
    assert_eq!(error_code_for(&Error::ChannelAlreadyBound), 400);
    assert_eq!(error_code_for(&Error::Timeout), 500);
    assert_eq!(reason_phrase(400), b"Bad Request".to_vec());
    assert_eq!(reason_phrase(401), b"Unauthorized".to_vec());
    assert_eq!(reason_phrase(437), b"Allocation Mismatch".to_vec());
    assert_eq!(reason_phrase(442), b"Unsupported Transport Protocol".to_vec());
    assert_eq!(reason_phrase(500), b"Server Error".to_vec());
    assert_eq!(reason_phrase(999), b"Server Error".to_vec());
}

#[test]
fn request_handlers_serve_what_they_are_given() {
    let mut s = state();
    s.nonces.insert(b"nonce".to_vec(), 0).unwrap();
    let from = addr(9, 9);
    let relay = addr(1, 50000);

    let (m, packet) = credentialed(METHOD_ALLOCATE, b"nonce", b"password");
    let mut request = Request::new(packet, from).unwrap();
    match &request.handle_allocate_request(&mut s, &m, relay, 1).unwrap()[..] {
        [Action::Send { to, packet }] => {
            assert_eq!(*to, from);
            let response = Message::decode_from_packet(packet).unwrap();
            assert_eq!(response.class, CLASS_SUCCESS);
            assert_eq!(response.address_of(0x0016), Some(relay));
        }
        other => panic!("{:?}", other),
    }
    assert!(s.allocations.owned_by(&s.owner_of(from), b"user", 1));

    let binding = Message::new(METHOD_BINDING, CLASS_REQUEST);
    let mut request = Request::new(binding.encode_to_packet(), from).unwrap();
    match &request.handle_allocate_request(&mut s, &binding, relay, 1).unwrap()[..] {
        [Action::Send { packet, .. }] => {
            let response = Message::decode_from_packet(packet).unwrap();
            assert_eq!((response.method, response.class), (METHOD_BINDING, CLASS_SUCCESS));
            assert_eq!(response.attributes, vec![Attribute::XorMappedAddress(from)]);
        }
        other => panic!("{:?}", other),
    }
    match &request.handle_turn_packet(&mut s, relay, 1).unwrap()[..] {
        [Action::Send { to, .. }] => assert_eq!(*to, from),
        other => panic!("{:?}", other),
    }
    assert_eq!(request.handle_channel_data(&mut s, 1), Err(Error::Malformed));
    let mut frame = Request::new(vec![0x40, 0x00, 0x00, 0x01, 7, 0, 0, 0], from).unwrap();
    assert_eq!(frame.handle_channel_data(&mut s, 1), Ok(vec![]));
    assert_eq!(frame.handle_request(&mut s, relay, 1), Ok(vec![]));
    assert_eq!(frame.handle_turn_packet(&mut s, relay, 1), Err(Error::Malformed));
}
