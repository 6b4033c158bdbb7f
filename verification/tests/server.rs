use turn::address::{IpAddress, TransactionId, TransportAddress};
use turn::allocation::LifetimePolicy;
use turn::attribute::Attribute;
use turn::channel::ChannelData;
use turn::client::{Client, ClientConfig, ClientStep, Phase};
use turn::engine::{Action, Credential};
use turn::error::Error;
use turn::integrity::derive_key;
use turn::message::{
    Class, Message, CLASS_ERROR, CLASS_INDICATION, CLASS_REQUEST, CLASS_SUCCESS, METHOD_ALLOCATE,
    METHOD_BINDING, METHOD_CHANNEL_BIND, METHOD_CREATE_PERMISSION, METHOD_DATA, METHOD_REFRESH,
    METHOD_SEND,
};
use turn::server::{Server, ServerConfig};

fn addr(last: u8, port: u16) -> TransportAddress {
    TransportAddress { ip: IpAddress::V4([192, 0, 2, last]), port }
}

fn client_addr() -> TransportAddress {
    addr(10, 40000)
}

fn relay_addr() -> TransportAddress {
    addr(1, 50000)
}

fn config() -> ServerConfig {
    ServerConfig {
        realm: "test-realm".to_owned(),
        server_address: addr(1, 3478),
        nonce_lifetime: 3600,
        lifetimes: LifetimePolicy::standard(),
        credentials: vec![
            Credential { username: b"user".to_vec(), password: b"password".to_vec() },
            Credential { username: b"other".to_vec(), password: b"secret".to_vec() },
        ],
    }
}

fn server() -> Server {
    Server::new(config()).unwrap()
}

fn client() -> Client {
    Client::new(ClientConfig {
        turn_server_address: "192.0.2.1:3478".to_owned(),
        username: "user".to_owned(),
        password: "password".to_owned(),
        rto_in_ms: 200,
        max_retries: 5,
    })
    .unwrap()
}

fn request(method: u16, class: Class, tid: u8, attributes: Vec<Attribute>) -> Message {
    Message { method, class, transaction_id: TransactionId([tid; 12]), attributes }
}

/// The one response that the server sends for `packet`, decoded.
fn answer(server: &mut Server, packet: Vec<u8>, from: TransportAddress, now: u64) -> Message {
    let actions = server.handle_datagram(packet, from, relay_addr(), now).unwrap();
    assert_eq!(actions.len(), 1);
    match &actions[0] {
        Action::Send { to, packet } => {
            assert_eq!(*to, from);
            Message::decode_from_packet(packet).unwrap()
        }
        other => panic!("not sent: {:?}", other),
    }
}

/// The nonce of a fresh challenge.
fn challenge(server: &mut Server, from: TransportAddress, now: u64) -> Vec<u8> {
    let probe = request(METHOD_ALLOCATE, CLASS_REQUEST, 1, vec![Attribute::RequestedTransport(17)]);
    let response = answer(server, probe.encode_to_packet(), from, now);
    assert_eq!(response.error_code(), Some(401));
    response.bytes_of(0x0015).unwrap().clone()
}

/// `m` with the credentials of `user` and the integrity that `password` gives.
fn signed(mut m: Message, user: &[u8], password: &[u8], nonce: &[u8]) -> Vec<u8> {
    m.attributes.push(Attribute::Username(user.to_vec()));
    m.attributes.push(Attribute::Realm(b"test-realm".to_vec()));
    m.attributes.push(Attribute::Nonce(nonce.to_vec()));
    m.add_integrity(&derive_key(user, b"test-realm", password)).unwrap();
    m.encode_to_packet()
}

/// A server on which the client at `client_addr()` holds an allocation.
fn allocated(now: u64) -> (Server, Vec<u8>) {
    let mut s = server();
    let nonce = challenge(&mut s, client_addr(), now);
    let m = request(METHOD_ALLOCATE, CLASS_REQUEST, 2, vec![Attribute::RequestedTransport(17)]);
    let response = answer(&mut s, signed(m, b"user", b"password", &nonce), client_addr(), now);
    assert_eq!(response.class, CLASS_SUCCESS);
    (s, nonce)
}

#[test]
fn allocate_without_credentials_is_challenged_then_granted() {
    let mut s = server();
    let mut c = client();
    let tid = TransactionId([7; 12]);
    let first = match c.allocate_with(tid, 0) {
        ClientStep::Send { packet } => packet,
        other => panic!("{:?}", other),
    };
    assert_eq!(c.phase(), Phase::Probing);
    let challenge = match &s.handle_datagram(first, client_addr(), relay_addr(), 1000).unwrap()[..] {
        [Action::Send { to, packet }] => {
            assert_eq!(*to, client_addr());
            packet.clone()
        }
        other => panic!("{:?}", other),
    };
    let m = Message::decode_from_packet(&challenge).unwrap();
    assert_eq!((m.method, m.class, m.transaction_id), (METHOD_ALLOCATE, CLASS_ERROR, tid));
    assert_eq!(m.error_code(), Some(401));
    assert_eq!(m.attributes[0], Attribute::ErrorCode { code: 401, reason: b"Unauthorized".to_vec() });
    assert_eq!(m.bytes_of(0x0014), Some(&b"test-realm".to_vec()));
    let nonce = m.bytes_of(0x0015).unwrap().clone();
    assert_eq!(nonce.len(), 32);
    assert_eq!(s.nonce_issued_at(&nonce), Some(1000));
    assert!(!s.has_allocation(client_addr(), 1000));

    let tid2 = TransactionId([8; 12]);
    let second = match c.listen_with(&challenge, addr(1, 3478), tid2, 10) {
        ClientStep::Send { packet } => packet,
        other => panic!("{:?}", other),
    };
    assert_eq!(c.phase(), Phase::Authenticating);
    let sent = Message::decode_from_packet(&second).unwrap();
    assert_eq!(sent.transaction_id, tid2);
    assert_eq!(sent.requested_transport(), Some(17));
    assert_eq!(sent.bytes_of(0x0006), Some(&b"user".to_vec()));
    assert_eq!(sent.bytes_of(0x0014), Some(&b"test-realm".to_vec()));
    assert_eq!(sent.bytes_of(0x0015), Some(&nonce));
    assert!(sent.contains(0x0008));

    let granted = match &s.handle_datagram(second, client_addr(), relay_addr(), 1001).unwrap()[..] {
        [Action::Send { to, packet }] => {
            assert_eq!(*to, client_addr());
            packet.clone()
        }
        other => panic!("{:?}", other),
    };
    let m = Message::decode_from_packet(&granted).unwrap();
    assert_eq!((m.method, m.class, m.transaction_id), (METHOD_ALLOCATE, CLASS_SUCCESS, tid2));
    assert_eq!(
        m.attributes,
        vec![
            Attribute::XorRelayedAddress(relay_addr()),
            Attribute::Lifetime(600),
            Attribute::XorMappedAddress(client_addr()),
        ]
    );
    assert!(s.has_allocation(client_addr(), 1600));
    assert!(!s.has_allocation(client_addr(), 1601));
    assert_eq!(s.relay_of(client_addr(), 1001), Some(relay_addr()));

    match c.listen_with(&granted, addr(1, 3478), TransactionId([9; 12]), 20) {
        ClientStep::Done { result } => {
            assert_eq!(result.err, None);
            assert_eq!(result.msg, m);
            assert_eq!(result.from, addr(1, 3478));
            assert_eq!(result.retries, 0);
        }
        other => panic!("{:?}", other),
    }
    assert_eq!(c.phase(), Phase::Allocated);
    assert_eq!(c.deadline(), None);
}

#[test]
fn allocate_over_tcp_is_refused() {
    let mut s = server();
    let nonce = challenge(&mut s, client_addr(), 0);
    let m = request(METHOD_ALLOCATE, CLASS_REQUEST, 2, vec![Attribute::RequestedTransport(6)]);
    let response = answer(&mut s, signed(m, b"user", b"password", &nonce), client_addr(), 1);
    assert_eq!(response.class, CLASS_ERROR);
    assert_eq!(response.transaction_id, TransactionId([2; 12]));
    assert_eq!(
        response.attributes,
        vec![Attribute::ErrorCode { code: 442, reason: b"Unsupported Transport Protocol".to_vec() }]
    );
    assert!(!s.has_allocation(client_addr(), 1));
    let none = request(METHOD_ALLOCATE, CLASS_REQUEST, 3, vec![]);
    let response = answer(&mut s, signed(none, b"user", b"password", &nonce), client_addr(), 1);
    assert_eq!(response.error_code(), Some(400));
}

#[test]
fn wrong_or_stale_credentials_are_challenged_again() {
    let mut s = server();
    let nonce = challenge(&mut s, client_addr(), 0);
    let allocate =
        || request(METHOD_ALLOCATE, CLASS_REQUEST, 2, vec![Attribute::RequestedTransport(17)]);
    for packet in [
        signed(allocate(), b"user", b"wrong", &nonce),
        signed(allocate(), b"nobody", b"password", &nonce),
        signed(allocate(), b"user", b"password", b"0123456789abcdef0123456789abcdef"),
        {
            let mut tampered = signed(allocate(), b"user", b"password", &nonce);
            tampered[24] ^= 1;
            tampered
        },
        {
            let mut m = allocate();
            m.attributes.push(Attribute::Username(b"user".to_vec()));
            m.attributes.push(Attribute::Realm(b"other-realm".to_vec()));
            m.attributes.push(Attribute::Nonce(nonce.clone()));
            m.add_integrity(&derive_key(b"user", b"other-realm", b"password")).unwrap();
            m.encode_to_packet()
        },
        {
            let mut m = allocate();
            m.attributes.push(Attribute::Username(b"user".to_vec()));
            m.attributes.push(Attribute::Nonce(nonce.clone()));
            m.add_integrity(&derive_key(b"user", b"test-realm", b"password")).unwrap();
            m.encode_to_packet()
        },
    ] {
        let response = answer(&mut s, packet, client_addr(), 10);
        assert_eq!(response.error_code(), Some(401));
        let fresh = response.bytes_of(0x0015).unwrap();
        assert_ne!(fresh, &nonce);
        assert_eq!(s.nonce_issued_at(fresh), Some(10));
        assert!(!s.has_allocation(client_addr(), 10));
    }
    assert_eq!(s.nonce_issued_at(&nonce), Some(0));
    let late = answer(&mut s, signed(allocate(), b"user", b"password", &nonce), client_addr(), 3601);
    assert_eq!(late.error_code(), Some(401));
    assert_eq!(s.nonce_issued_at(&nonce), None);
    let nonce = late.bytes_of(0x0015).unwrap().clone();
    let good = answer(&mut s, signed(allocate(), b"user", b"password", &nonce), client_addr(), 3602);
    assert_eq!(good.class, CLASS_SUCCESS);
}

#[test]
fn allocation_past_its_expiry_gives_way_to_a_new_one() {
    let (mut s, nonce) = allocated(0);
    let other = addr(1, 50007);
    let m = request(METHOD_ALLOCATE, CLASS_REQUEST, 3, vec![Attribute::RequestedTransport(17)]);
    let actions =
        s.handle_datagram(signed(m, b"user", b"password", &nonce), client_addr(), other, 600).unwrap();
    match &actions[..] {
        [Action::Send { to, packet }, Action::Release { relay }] => {
            assert_eq!((*to, *relay), (client_addr(), relay_addr()));
            let response = Message::decode_from_packet(packet).unwrap();
            assert_eq!(response.class, CLASS_SUCCESS);
            assert_eq!(response.address_of(0x0016), Some(other));
        }
        other => panic!("{:?}", other),
    }
    assert_eq!(s.relay_of(client_addr(), 600), Some(other));
    assert_eq!(s.sweep(600), vec![]);
}

#[test]
fn second_allocate_is_a_mismatch() {
    let (mut s, nonce) = allocated(0);
    let m = request(METHOD_ALLOCATE, CLASS_REQUEST, 3, vec![Attribute::RequestedTransport(17)]);
    let response = answer(&mut s, signed(m, b"user", b"password", &nonce), client_addr(), 1);
    assert_eq!(
        response.attributes,
        vec![Attribute::ErrorCode { code: 437, reason: b"Allocation Mismatch".to_vec() }]
    );
}

#[test]
fn refresh_renews_and_ends_the_allocation() {
    let (mut s, nonce) = allocated(0);
    let m = request(METHOD_REFRESH, CLASS_REQUEST, 3, vec![Attribute::Lifetime(1200)]);
    let response = answer(&mut s, signed(m, b"user", b"password", &nonce), client_addr(), 100);
    assert_eq!((response.method, response.class), (METHOD_REFRESH, CLASS_SUCCESS));
    assert_eq!(response.attributes, vec![Attribute::Lifetime(1200)]);
    assert!(s.has_allocation(client_addr(), 1299));
    let m = request(METHOD_REFRESH, CLASS_REQUEST, 4, vec![Attribute::Lifetime(0)]);
    let actions = s
        .handle_datagram(signed(m, b"user", b"password", &nonce), client_addr(), relay_addr(), 200)
        .unwrap();
    match &actions[..] {
        [Action::Send { to, packet }, Action::Release { relay }] => {
            assert_eq!((*to, *relay), (client_addr(), relay_addr()));
            let response = Message::decode_from_packet(packet).unwrap();
            assert_eq!((response.method, response.class), (METHOD_REFRESH, CLASS_SUCCESS));
            assert_eq!(response.attributes, vec![Attribute::Lifetime(0)]);
        }
        other => panic!("{:?}", other),
    }
    assert!(!s.has_allocation(client_addr(), 200));
    let m = request(METHOD_REFRESH, CLASS_REQUEST, 5, vec![]);
    let response = answer(&mut s, signed(m, b"user", b"password", &nonce), client_addr(), 201);
    assert_eq!(response.error_code(), Some(437));
    let m = request(METHOD_REFRESH, CLASS_REQUEST, 6, vec![]);
    let response = answer(&mut s, m.encode_to_packet(), client_addr(), 202);
    assert_eq!(response.error_code(), Some(401));
}

#[test]
fn permission_and_channel_requests_are_served() {
    let (mut s, nonce) = allocated(0);
    let peer = addr(77, 6000);
    let m = request(METHOD_CREATE_PERMISSION, CLASS_REQUEST, 3, vec![]);
    assert_eq!(
        answer(&mut s, signed(m, b"user", b"password", &nonce), client_addr(), 1).error_code(),
        Some(400)
    );
    let m = request(METHOD_CREATE_PERMISSION, CLASS_REQUEST, 4, vec![Attribute::XorPeerAddress(peer)]);
    let response = answer(&mut s, signed(m, b"user", b"password", &nonce), client_addr(), 1);
    assert_eq!((response.method, response.class), (METHOD_CREATE_PERMISSION, CLASS_SUCCESS));
    assert_eq!(response.attributes, vec![]);

    let bind = |number: u16, peer: TransportAddress, tid: u8| {
        request(
            METHOD_CHANNEL_BIND,
            CLASS_REQUEST,
            tid,
            vec![Attribute::ChannelNumber(number), Attribute::XorPeerAddress(peer)],
        )
    };
    let response =
        answer(&mut s, signed(bind(0x4000, peer, 5), b"user", b"password", &nonce), client_addr(), 2);
    assert_eq!((response.method, response.class), (METHOD_CHANNEL_BIND, CLASS_SUCCESS));
    let response = answer(
        &mut s,
        signed(bind(0x4000, addr(78, 1), 6), b"user", b"password", &nonce),
        client_addr(),
        2,
    );
    assert_eq!(response.error_code(), Some(400));
    let response =
        answer(&mut s, signed(bind(0x100, addr(78, 1), 7), b"user", b"password", &nonce), client_addr(), 2);
    assert_eq!(response.error_code(), Some(400));
    let only = request(METHOD_CHANNEL_BIND, CLASS_REQUEST, 8, vec![Attribute::ChannelNumber(0x4001)]);
    assert_eq!(
        answer(&mut s, signed(only, b"user", b"password", &nonce), client_addr(), 2).error_code(),
        Some(400)
    );
    let elsewhere = addr(11, 40000);
    let m = request(METHOD_CREATE_PERMISSION, CLASS_REQUEST, 9, vec![Attribute::XorPeerAddress(peer)]);
    assert_eq!(
        answer(&mut s, signed(m, b"user", b"password", &nonce), elsewhere, 2).error_code(),
        Some(437)
    );
    assert_eq!(
        answer(&mut s, signed(bind(0x4002, peer, 10), b"user", b"password", &nonce), elsewhere, 2)
            .error_code(),
        Some(437)
    );
}

#[test]
fn another_user_cannot_change_the_allocation() {
    let (mut s, nonce) = allocated(0);
    let peer = addr(77, 6000);
    let refresh = request(METHOD_REFRESH, CLASS_REQUEST, 3, vec![Attribute::Lifetime(0)]);
    let response = answer(&mut s, signed(refresh, b"other", b"secret", &nonce), client_addr(), 1);
    assert_eq!(
        response.attributes,
        vec![Attribute::ErrorCode { code: 437, reason: b"Allocation Mismatch".to_vec() }]
    );
    assert!(s.has_allocation(client_addr(), 1));
    let permit =
        request(METHOD_CREATE_PERMISSION, CLASS_REQUEST, 4, vec![Attribute::XorPeerAddress(peer)]);
    let response = answer(&mut s, signed(permit, b"other", b"secret", &nonce), client_addr(), 1);
    assert_eq!(response.error_code(), Some(437));
    assert_eq!(s.handle_relay_datagram(relay_addr(), peer, b"x".to_vec(), 2), Ok(vec![]));
    let bind = request(
        METHOD_CHANNEL_BIND,
        CLASS_REQUEST,
        5,
        vec![Attribute::ChannelNumber(0x4000), Attribute::XorPeerAddress(peer)],
    );
    let response = answer(&mut s, signed(bind, b"other", b"secret", &nonce), client_addr(), 1);
    assert_eq!(response.error_code(), Some(437));
    let allocate =
        request(METHOD_ALLOCATE, CLASS_REQUEST, 6, vec![Attribute::RequestedTransport(17)]);
    let response = answer(&mut s, signed(allocate, b"other", b"secret", &nonce), client_addr(), 1);
    assert_eq!(response.error_code(), Some(437));
    let refresh = request(METHOD_REFRESH, CLASS_REQUEST, 7, vec![Attribute::Lifetime(60)]);
    let response = answer(&mut s, signed(refresh, b"user", b"password", &nonce), client_addr(), 1);
    assert_eq!(response.attributes, vec![Attribute::Lifetime(60)]);
}

#[test]
fn binding_is_answered_without_credentials() {
    let mut s = server();
    let m = request(METHOD_BINDING, CLASS_REQUEST, 3, vec![]);
    let response = answer(&mut s, m.encode_to_packet(), client_addr(), 0);
    assert_eq!((response.method, response.class), (METHOD_BINDING, CLASS_SUCCESS));
    assert_eq!(response.transaction_id, TransactionId([3; 12]));
    assert_eq!(response.attributes, vec![Attribute::XorMappedAddress(client_addr())]);
}

#[test]
fn unknown_method_is_a_bad_request() {
    let mut s = server();
    for method in [0x000u16, 0x002, METHOD_SEND, METHOD_DATA, 0x0FFF] {
        let m = request(method, CLASS_REQUEST, 3, vec![]);
        let response = answer(&mut s, m.encode_to_packet(), client_addr(), 0);
        assert_eq!((response.method, response.class), (method, CLASS_ERROR));
        assert_eq!(
            response.attributes,
            vec![Attribute::ErrorCode { code: 400, reason: b"Bad Request".to_vec() }]
        );
    }
}

#[test]
fn malformed_and_unknown_datagrams_get_no_response() {
    let mut s = server();
    let m = request(METHOD_BINDING, CLASS_REQUEST, 3, vec![Attribute::Lifetime(1)]);
    let mut bytes = m.encode_to_packet();
    bytes.pop();
    assert_eq!(s.handle_datagram(bytes, client_addr(), relay_addr(), 0), Err(Error::Malformed));
    assert_eq!(
        s.handle_datagram(vec![0x80, 0, 0, 0], client_addr(), relay_addr(), 0),
        Err(Error::ErrRequestTypeUnknown)
    );
    assert_eq!(
        s.handle_datagram(vec![], client_addr(), relay_addr(), 0),
        Err(Error::ErrRequestTypeUnknown)
    );
    assert_eq!(
        s.handle_datagram(vec![0x40, 0x00, 0x00, 0x09, 1], client_addr(), relay_addr(), 0),
        Err(Error::Malformed)
    );
    let response = request(METHOD_ALLOCATE, CLASS_SUCCESS, 3, vec![]);
    assert_eq!(
        s.handle_datagram(response.encode_to_packet(), client_addr(), relay_addr(), 0),
        Ok(vec![])
    );
    let error = request(METHOD_ALLOCATE, CLASS_ERROR, 3, vec![]);
    assert_eq!(
        s.handle_datagram(error.encode_to_packet(), client_addr(), relay_addr(), 0),
        Ok(vec![])
    );
    let indication = request(METHOD_BINDING, CLASS_INDICATION, 3, vec![]);
    assert_eq!(
        s.handle_datagram(indication.encode_to_packet(), client_addr(), relay_addr(), 0),
        Ok(vec![])
    );
}

#[test]
fn relay_datagram_without_permission_is_dropped() {
    let (mut s, nonce) = allocated(0);
    let peer = addr(77, 6000);
    assert_eq!(s.handle_relay_datagram(relay_addr(), peer, b"hello".to_vec(), 1), Ok(vec![]));
    let m = request(METHOD_CREATE_PERMISSION, CLASS_REQUEST, 4, vec![Attribute::XorPeerAddress(peer)]);
    answer(&mut s, signed(m, b"user", b"password", &nonce), client_addr(), 1);
    let actions = s.handle_relay_datagram(relay_addr(), peer, b"hello".to_vec(), 2).unwrap();
    match &actions[..] {
        [Action::Send { to, packet }] => {
            assert_eq!(*to, client_addr());
            let m = Message::decode_from_packet(packet).unwrap();
            assert_eq!((m.method, m.class), (METHOD_DATA, CLASS_INDICATION));
            assert_eq!(
                m.attributes,
                vec![Attribute::XorPeerAddress(peer), Attribute::Data(b"hello".to_vec())]
            );
        }
        other => panic!("{:?}", other),
    }
    assert_eq!(s.handle_relay_datagram(relay_addr(), addr(78, 6000), b"x".to_vec(), 2), Ok(vec![]));
    assert_eq!(s.handle_relay_datagram(addr(1, 50001), peer, b"x".to_vec(), 2), Ok(vec![]));
    assert_eq!(s.handle_relay_datagram(relay_addr(), peer, b"x".to_vec(), 301), Ok(vec![]));
}

#[test]
fn data_flows_both_ways_over_a_channel() {
    let (mut s, nonce) = allocated(0);
    let peer = addr(77, 6000);
    let m = request(
        METHOD_CHANNEL_BIND,
        CLASS_REQUEST,
        5,
        vec![Attribute::ChannelNumber(0x4005), Attribute::XorPeerAddress(peer)],
    );
    answer(&mut s, signed(m, b"user", b"password", &nonce), client_addr(), 1);
    assert_eq!(
        s.handle_relay_datagram(relay_addr(), peer, b"ping".to_vec(), 2),
        Ok(vec![Action::Send {
            to: client_addr(),
            packet: vec![0x40, 0x05, 0x00, 0x04, b'p', b'i', b'n', b'g'],
        }])
    );
    let frame = ChannelData { number: 0x4005, data: b"pong!".to_vec() };
    assert_eq!(
        s.handle_datagram(frame.encode(), client_addr(), relay_addr(), 3),
        Ok(vec![Action::Relay { from: relay_addr(), to: peer, payload: b"pong!".to_vec() }])
    );
    let unbound = ChannelData { number: 0x4006, data: b"pong!".to_vec() };
    assert_eq!(s.handle_datagram(unbound.encode(), client_addr(), relay_addr(), 3), Ok(vec![]));
    assert_eq!(s.handle_datagram(frame.encode(), addr(11, 1), relay_addr(), 3), Ok(vec![]));
    assert_eq!(s.handle_datagram(frame.encode(), client_addr(), relay_addr(), 601), Ok(vec![]));
}

#[test]
fn send_indication_needs_a_permission() {
    let (mut s, nonce) = allocated(0);
    let peer = addr(77, 6000);
    let send = request(
        METHOD_SEND,
        CLASS_INDICATION,
        6,
        vec![Attribute::XorPeerAddress(peer), Attribute::Data(b"data".to_vec())],
    );
    assert_eq!(s.handle_datagram(send.encode_to_packet(), client_addr(), relay_addr(), 1), Ok(vec![]));
    let m = request(METHOD_CREATE_PERMISSION, CLASS_REQUEST, 4, vec![Attribute::XorPeerAddress(peer)]);
    answer(&mut s, signed(m, b"user", b"password", &nonce), client_addr(), 1);
    assert_eq!(
        s.handle_datagram(send.encode_to_packet(), client_addr(), relay_addr(), 2),
        Ok(vec![Action::Relay { from: relay_addr(), to: peer, payload: b"data".to_vec() }])
    );
    assert_eq!(s.handle_datagram(send.encode_to_packet(), addr(11, 1), relay_addr(), 2), Ok(vec![]));
    let bare = request(METHOD_SEND, CLASS_INDICATION, 6, vec![Attribute::XorPeerAddress(peer)]);
    assert_eq!(s.handle_datagram(bare.encode_to_packet(), client_addr(), relay_addr(), 2), Ok(vec![]));
}

#[test]
fn sweep_and_close_release_the_relay_addresses() {
    let (mut s, nonce) = allocated(0);
    assert_eq!(s.sweep(599), vec![]);
    assert!(s.has_allocation(client_addr(), 599));
    assert_eq!(s.sweep(600), vec![Action::Release { relay: relay_addr() }]);
    assert!(!s.has_allocation(client_addr(), 0));
    assert_eq!(s.nonce_issued_at(&nonce), Some(0));
    assert_eq!(s.sweep(3601), vec![]);
    assert_eq!(s.nonce_issued_at(&nonce), None);

    let (mut s, _) = allocated(0);
    s.transport_closed();
    assert!(s.closed());
    assert_eq!(
        s.handle_datagram(vec![0, 1, 0, 0], client_addr(), relay_addr(), 1),
        Err(Error::TransportClosed)
    );
    assert_eq!(
        s.handle_relay_datagram(relay_addr(), addr(77, 1), vec![], 1),
        Err(Error::TransportClosed)
    );
    assert!(s.has_allocation(client_addr(), 1));
    assert_eq!(s.sweep(600), vec![Action::Release { relay: relay_addr() }]);

    let (mut s, _) = allocated(0);
    assert!(!s.closed());
    assert_eq!(s.close(), vec![Action::Release { relay: relay_addr() }]);
    assert!(s.closed());
    assert!(!s.has_allocation(client_addr(), 1));
    assert_eq!(s.close(), vec![]);
}

#[test]
fn configuration_is_validated() {
    assert_eq!(config().validate(), Ok(()));
    let mut c = config();
    c.realm = String::new();
    assert!(matches!(c.validate(), Err(Error::Other(_))));
    assert!(matches!(Server::new(c), Err(Error::Other(_))));
    let mut c = config();
    c.nonce_lifetime = 0;
    assert!(matches!(c.validate(), Err(Error::Other(_))));
    for (min, default, max) in [(0, 600, 3600), (700, 600, 3600), (30, 4000, 3600)] {
        let mut c = config();
        c.lifetimes.min = min;
        c.lifetimes.default = default;
        c.lifetimes.max = max;
        assert!(matches!(c.validate(), Err(Error::Other(_))));
    }
}
