use turn::address::{IpAddress, TransactionId, TransportAddress};
use turn::attribute::Attribute;
use turn::client::{
    double, due_at, error_of_code, Client, ClientConfig, ClientStep, MpscResult, Phase,
    DEFAULT_MAX_RETRIES, DEFAULT_RTO_IN_MS,
};
use turn::error::Error;
use turn::integrity::{check_integrity, derive_key};
use turn::message::{
    Class, Message, CLASS_ERROR, CLASS_INDICATION, CLASS_REQUEST, CLASS_SUCCESS, METHOD_ALLOCATE,
};

fn server_addr() -> TransportAddress {
    TransportAddress { ip: IpAddress::V4([192, 0, 2, 1]), port: 3478 }
}

fn client(max_retries: u16) -> Client {
    Client::new(ClientConfig {
        turn_server_address: "192.0.2.1:3478".to_owned(),
        username: "user".to_owned(),
        password: "password".to_owned(),
        rto_in_ms: DEFAULT_RTO_IN_MS,
        max_retries,
    })
    .unwrap()
}

fn response(class: Class, tid: TransactionId, attributes: Vec<Attribute>) -> Vec<u8> {
    Message { method: METHOD_ALLOCATE, class, transaction_id: tid, attributes }.encode_to_packet()
}

fn challenge(tid: TransactionId) -> Vec<u8> {
    response(
        CLASS_ERROR,
        tid,
        vec![
            Attribute::ErrorCode { code: 401, reason: b"Unauthorized".to_vec() },
            Attribute::Nonce(b"abcdef".to_vec()),
            Attribute::Realm(b"test-realm".to_vec()),
        ],
    )
}

fn sent(step: ClientStep) -> Vec<u8> {
    match step {
        ClientStep::Send { packet } => packet,
        other => panic!("{:?}", other),
    }
}

fn done(step: ClientStep) -> MpscResult {
    match step {
        ClientStep::Done { result } => result,
        other => panic!("{:?}", other),
    }
}

const T1: TransactionId = TransactionId([1; 12]);
const T2: TransactionId = TransactionId([2; 12]);

#[test]
fn first_request_asks_for_udp_without_credentials() {
    let mut c = client(5);
    assert_eq!(c.phase(), Phase::Idle);
    assert_eq!(c.deadline(), None);
    let packet = sent(c.allocate_with(T1, 1000));
    assert_eq!(
        packet,
        vec![
            0x00, 0x03, 0x00, 0x08, 0x21, 0x12, 0xA4, 0x42, 1, 1, 1, 1, 1, 1, 1, 1, 1, 1, 1, 1,
            0x00, 0x19, 0x00, 0x04, 17, 0, 0, 0
        ]
    );
    assert_eq!(c.phase(), Phase::Probing);
    assert_eq!(c.deadline(), Some(1200));
    let mut d = client(5);
    let a = Message::decode_from_packet(&sent(d.allocate(0))).unwrap();
    let b = Message::decode_from_packet(&sent(d.allocate(0))).unwrap();
    assert_eq!(a.attributes, vec![Attribute::RequestedTransport(17)]);
    assert_ne!(a.transaction_id, b.transaction_id);
}

#[test]
fn unanswered_request_times_out_after_the_retry_budget() {
    let mut c = client(5);
    let packet = sent(c.allocate_with(T1, 0));
    assert_eq!(c.handle_timeout(199), ClientStep::Idle);
    let mut now = 200;
    let mut wait = 400;
    for retries in 1..=5u64 {
        assert_eq!(c.deadline(), Some(now));
        assert_eq!(c.handle_timeout(now - 1), ClientStep::Idle);
        assert_eq!(sent(c.handle_timeout(now)), packet);
        assert_eq!(c.phase(), Phase::Probing);
        now += wait;
        wait *= 2;
        assert_eq!(c.deadline(), Some(now), "after retransmission {}", retries);
    }
    assert_eq!(now, 12600);
    let result = done(c.handle_timeout(now));
    assert_eq!(result.err, Some(Error::Timeout));
    assert_eq!(result.retries, 5);
    assert_eq!(result.msg, Message::new(0, CLASS_REQUEST));
    assert_eq!(c.phase(), Phase::Failed);
    assert_eq!(c.deadline(), None);
    assert_eq!(c.handle_timeout(u64::MAX), ClientStep::Idle);
    assert_eq!(c.listen_with(&challenge(T1), server_addr(), T2, now), ClientStep::Idle);
}

#[test]
fn default_budget_is_seven_retransmissions() {
    assert_eq!((DEFAULT_RTO_IN_MS, DEFAULT_MAX_RETRIES), (200, 7));
    let mut c = client(DEFAULT_MAX_RETRIES);
    c.allocate_with(T1, 0);
    let mut n = 0;
    while let ClientStep::Send { .. } = c.handle_timeout(u64::MAX) {
        n += 1;
    }
    assert_eq!(n, 7);
    assert_eq!(c.phase(), Phase::Failed);
    let mut none = client(0);
    none.allocate_with(T1, 0);
    assert_eq!(done(none.handle_timeout(200)).err, Some(Error::Timeout));
}

#[test]
fn waits_double_without_overflow() {
    assert_eq!(due_at(5, 7), 12);
    assert_eq!(due_at(u64::MAX, 1), u64::MAX);
    assert_eq!(due_at(u64::MAX - 1, 1), u64::MAX);
    assert_eq!(double(0), 0);
    assert_eq!(double(200), 400);
    assert_eq!(double(u64::MAX / 2), u64::MAX - 1);
    assert_eq!(double(u64::MAX / 2 + 1), u64::MAX);
}

#[test]
fn challenge_is_answered_with_credentials() {
    let mut c = client(5);
    c.allocate_with(T1, 0);
    let packet = sent(c.listen_with(&challenge(T1), server_addr(), T2, 50));
    assert_eq!(c.phase(), Phase::Authenticating);
    assert_eq!(c.deadline(), Some(250));
    let m = Message::decode_from_packet(&packet).unwrap();
    assert_eq!((m.method, m.class, m.transaction_id), (METHOD_ALLOCATE, CLASS_REQUEST, T2));
    assert_eq!(m.attributes.len(), 5);
    assert_eq!(
        &m.attributes[..4],
        &[
            Attribute::RequestedTransport(17),
            Attribute::Username(b"user".to_vec()),
            Attribute::Realm(b"test-realm".to_vec()),
            Attribute::Nonce(b"abcdef".to_vec()),
        ]
    );
    assert!(check_integrity(&packet, &derive_key(b"user", b"test-realm", b"password")));
    assert_eq!(sent(c.handle_timeout(250)), packet);
}

#[test]
fn second_challenge_is_a_failure_of_authentication() {
    let mut c = client(5);
    c.allocate_with(T1, 0);
    sent(c.listen_with(&challenge(T1), server_addr(), T2, 50));
    let result = done(c.listen_with(&challenge(T2), server_addr(), TransactionId([3; 12]), 60));
    assert_eq!(result.err, Some(Error::AuthenticationFailed));
    assert_eq!(result.msg.error_code(), Some(401));
    assert_eq!(c.phase(), Phase::Failed);
    assert_eq!(c.deadline(), None);
}

#[test]
fn challenge_without_nonce_or_realm_is_a_failure() {
    for attributes in [
        vec![Attribute::ErrorCode { code: 401, reason: vec![] }],
        vec![Attribute::ErrorCode { code: 401, reason: vec![] }, Attribute::Nonce(b"n".to_vec())],
        vec![Attribute::ErrorCode { code: 401, reason: vec![] }, Attribute::Realm(b"r".to_vec())],
    ] {
        let mut c = client(5);
        c.allocate_with(T1, 0);
        let result = done(c.listen_with(&response(CLASS_ERROR, T1, attributes), server_addr(), T2, 1));
        assert_eq!(result.err, Some(Error::AuthenticationFailed));
        assert_eq!(c.phase(), Phase::Failed);
    }
}

#[test]
fn other_errors_end_the_handshake() {
    assert_eq!(error_of_code(401), Error::AuthenticationFailed);
    assert_eq!(error_of_code(437), Error::AllocationExists);
    assert_eq!(error_of_code(442), Error::UnsupportedTransport);
    assert_eq!(error_of_code(400), Error::BadRequest);
    assert_eq!(error_of_code(500), Error::BadRequest);
    for (code, err) in [(442u16, Error::UnsupportedTransport), (437, Error::AllocationExists)] {
        let mut c = client(5);
        c.allocate_with(T1, 0);
        c.handle_timeout(200);
        let packet = response(CLASS_ERROR, T1, vec![Attribute::ErrorCode { code, reason: vec![] }]);
        let result = done(c.listen_with(&packet, server_addr(), T2, 300));
        assert_eq!(result.err, Some(err));
        assert_eq!(result.retries, 1);
        assert_eq!(result.from, server_addr());
        assert_eq!(result.msg.error_code(), Some(code));
        assert_eq!(c.phase(), Phase::Failed);
    }
    let mut c = client(5);
    c.allocate_with(T1, 0);
    let result = done(c.listen_with(&response(CLASS_ERROR, T1, vec![]), server_addr(), T2, 1));
    assert_eq!(result.err, Some(Error::ErrAllocateResponseIncludeNoErrorCodeAttribute));
}

#[test]
fn success_without_challenge_ends_the_handshake() {
    let mut c = client(5);
    c.allocate_with(T1, 0);
    let packet = response(CLASS_SUCCESS, T1, vec![Attribute::Lifetime(600)]);
    let result = done(c.listen_with(&packet, server_addr(), T2, 1));
    assert_eq!(result.err, None);
    assert_eq!(result.msg.lifetime(), Some(600));
    assert_eq!(c.phase(), Phase::Allocated);
}

#[test]
fn what_does_not_answer_the_request_is_passed_over() {
    let mut c = client(5);
    assert_eq!(c.listen_with(&challenge(T1), server_addr(), T2, 0), ClientStep::Idle);
    c.allocate_with(T1, 0);
    assert_eq!(c.listen_with(&challenge(T2), server_addr(), T2, 0), ClientStep::Idle);
    assert_eq!(c.listen_with(&[0x40, 0, 0, 0], server_addr(), T2, 0), ClientStep::Idle);
    assert_eq!(c.listen_with(&[], server_addr(), T2, 0), ClientStep::Idle);
    assert_eq!(c.listen_with(&response(CLASS_REQUEST, T1, vec![]), server_addr(), T2, 0), ClientStep::Idle);
    assert_eq!(
        c.listen_with(&response(CLASS_INDICATION, T1, vec![]), server_addr(), T2, 0),
        ClientStep::Idle
    );
    assert_eq!(c.phase(), Phase::Probing);
    assert_eq!(c.deadline(), Some(200));
    assert!(matches!(c.listen(&challenge(T1), server_addr(), 0), ClientStep::Send { .. }));
}

#[test]
fn closing_ends_the_request_that_is_out() {
    let mut c = client(5);
    assert_eq!(c.close(), ClientStep::Idle);
    assert_eq!(c.phase(), Phase::Closed);
    assert_eq!(c.allocate_with(T1, 0), ClientStep::Idle);
    let mut c = client(5);
    c.allocate_with(T1, 0);
    c.handle_timeout(200);
    let result = done(c.close());
    assert_eq!(result.err, Some(Error::ErrReceiverClosed));
    assert_eq!(result.retries, 1);
    assert_eq!(c.phase(), Phase::Closed);
    assert_eq!(c.deadline(), None);
}

#[test]
fn default_result_is_empty() {
    let r = MpscResult::default();
    assert_eq!(r.msg, Message::new(0, CLASS_REQUEST));
    assert_eq!(r.msg.transaction_id, TransactionId([0; 12]));
    assert_eq!(r.from, TransportAddress { ip: IpAddress::V4([0, 0, 0, 0]), port: 0 });
    assert_eq!(r.retries, 0);
    assert_eq!(r.err, None);
}

#[test]
fn transaction_ids_are_made_of_two_numbers() {
    assert_eq!(
        TransactionId::from_numbers(0x0102030405060708, 0x090a0b0c0d0e0f10),
        TransactionId([1, 2, 3, 4, 5, 6, 7, 8, 9, 10, 11, 12])
    );
    assert_eq!(TransactionId::from_numbers(0, u64::MAX).0[8..], [0xff; 4]);
    assert_ne!(TransactionId::fresh(), TransactionId::fresh());
}
