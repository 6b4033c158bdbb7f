//! The client's side of an allocation: the request that is out, its
//! retransmission, and the two steps of the handshake, first without
//! credentials and then, once challenged, with them.

use vstd::prelude::*;
use crate::address::{IpAddress, TransactionId, TransportAddress};
use crate::attribute::{ATTR_NONCE, ATTR_REALM, Attribute, AttributeView};
use crate::engine::emit;
use crate::error::{
    CODE_ALLOCATION_MISMATCH, CODE_UNAUTHORIZED, CODE_UNSUPPORTED_TRANSPORT, Error,
};
use crate::integrity::{derive_key, long_term_key};
use crate::message::{Class, METHOD_ALLOCATE, Message, MessageView, parse_message};
use crate::requested_transport::PROTO_UDP;
use crate::wire::zeros;

verus! {

/// Milliseconds after which a request is sent again for the first time.
pub const DEFAULT_RTO_IN_MS: u16 = 200;

/// How often a request is sent again before the transaction fails.
pub const DEFAULT_MAX_RETRIES: u16 = 7;

/// The largest datagram that the client reads.
pub const MAX_DATA_BUFFER_SIZE: usize = 65535;

/// How many results the client queues.
pub const MAX_READ_QUEUE_SIZE: usize = 1024;

/// What a client is configured with.
#[derive(Debug, Clone, PartialEq, Eq)]
pub struct ClientConfig {
    /// Where the server listens, as host and port.
    pub turn_server_address: String,
    pub username: String,
    pub password: String,
    /// Milliseconds after which a request is sent again for the first
    /// time; the wait doubles with each retransmission.
    pub rto_in_ms: u16,
    /// How often a request is sent again before the transaction fails.
    pub max_retries: u16,
}

/// How a transaction ended.
#[derive(Debug, Clone, PartialEq, Eq)]
pub struct MpscResult {
    /// The response, or an empty message where there was none.
    pub msg: Message,
    /// Where the response came from.
    pub from: TransportAddress,
    /// How often the request had been sent again.
    pub retries: u16,
    /// Why the transaction failed, if it did.
    pub err: Option<Error>,
}

/// How a transaction ended, as mathematical values.
pub struct MpscResultView {
    pub msg: MessageView,
    pub from: TransportAddress,
    pub retries: u16,
    pub err: Option<Error>,
}

impl View for MpscResult {
    type V = MpscResultView;

    open spec fn view(&self) -> MpscResultView {
        MpscResultView { msg: self.msg@, from: self.from, retries: self.retries, err: self.err }
    }
}

/// The address of all zeros with port zero.
pub open spec fn unspecified() -> TransportAddress {
    TransportAddress { ip: IpAddress::V4(crate::address::four(zeros(4))), port: 0 }
}

/// The message of method zero with an all-zero transaction id and no
/// attributes.
pub open spec fn empty_message() -> MessageView {
    MessageView {
        method: 0,
        class: Class::Request,
        transaction_id: TransactionId(crate::address::twelve(zeros(12))),
        attributes: Seq::<AttributeView>::empty(),
    }
}

impl Default for MpscResult {
    /// A result with an empty message from nowhere, no retransmission and no
    /// error.
    fn default() -> (r: MpscResult)
        ensures
            r@ == (MpscResultView {
                msg: empty_message(),
                from: unspecified(),
                retries: 0,
                err: None,
            }),
    {
        let msg = Message::new(0, Class::Request);
        let ip: [u8; 4] = [0u8; 4];
        assert(ip =~= crate::address::four(zeros(4)));
        assert(msg.transaction_id.0 =~= crate::address::twelve(zeros(12)));
        MpscResult {
            msg,
            from: TransportAddress { ip: IpAddress::V4(ip), port: 0 },
            retries: 0,
            err: None,
        }
    }
}

/// Where the handshake stands.
#[derive(Debug, Clone, Copy, PartialEq, Eq, Structural)]
pub enum Phase {
    /// Nothing was asked for yet.
    Idle,
    /// The request without credentials is out.
    Probing,
    /// The request with credentials is out.
    Authenticating,
    /// The server granted an allocation.
    Allocated,
    /// The handshake failed.
    Failed,
    /// The client was closed.
    Closed,
}

/// A request that is out.
#[derive(Debug, Clone, PartialEq, Eq)]
pub struct Transaction {
    pub id: TransactionId,
    /// The bytes of the request, kept to be sent again.
    pub request: Vec<u8>,
    /// How often the request was sent again.
    pub retries: u16,
    /// Milliseconds to wait after the last sending.
    pub interval: u64,
    /// When the request is due to be sent again.
    pub deadline: u64,
}

/// A request that is out, as mathematical values.
pub struct TransactionView {
    pub id: TransactionId,
    pub request: Seq<u8>,
    pub retries: u16,
    pub interval: u64,
    pub deadline: u64,
}

impl View for Transaction {
    type V = TransactionView;

    open spec fn view(&self) -> TransactionView {
        TransactionView {
            id: self.id,
            request: self.request@,
            retries: self.retries,
            interval: self.interval,
            deadline: self.deadline,
        }
    }
}

/// What the surroundings are to do for the client.
#[derive(Debug, Clone, PartialEq, Eq)]
pub enum ClientStep {
    /// Nothing.
    Idle,
    /// Send `packet` to the server.
    Send { packet: Vec<u8> },
    /// Hand `result` to whoever waits for the allocation.
    Done { result: MpscResult },
}

/// A step of the client, as mathematical values.
pub enum ClientStepView {
    Idle,
    Send { packet: Seq<u8> },
    Done { result: MpscResultView },
}

impl View for ClientStep {
    type V = ClientStepView;

    open spec fn view(&self) -> ClientStepView {
        match *self {
            ClientStep::Idle => ClientStepView::Idle,
            ClientStep::Send { packet } => ClientStepView::Send { packet: packet@ },
            ClientStep::Done { result } => ClientStepView::Done { result: result@ },
        }
    }
}

/// A client that negotiates an allocation.
pub struct Client {
    username: Vec<u8>,
    password: Vec<u8>,
    rto: u64,
    max_retries: u16,
    phase: Phase,
    pending: Option<Transaction>,
}

/// A client, as mathematical values.
pub struct ClientView {
    pub username: Seq<u8>,
    pub password: Seq<u8>,
    pub rto: u64,
    pub max_retries: u16,
    pub phase: Phase,
    pub pending: Option<TransactionView>,
}

impl View for Client {
    type V = ClientView;

    closed spec fn view(&self) -> ClientView {
        ClientView {
            username: self.username@,
            password: self.password@,
            rto: self.rto,
            max_retries: self.max_retries,
            phase: self.phase,
            pending: match self.pending {
                Some(t) => Some(t@),
                None => None,
            },
        }
    }
}

/// The instant `interval` milliseconds after `now`, or the last instant
/// there is where that is beyond it.
pub open spec fn due(now: u64, interval: u64) -> u64 {
    if now + interval > u64::MAX {
        u64::MAX
    } else {
        (now + interval) as u64
    }
}

/// Twice `interval`, or the longest interval there is where that is beyond
/// it.
pub open spec fn doubled(interval: u64) -> u64 {
    if 2 * interval > u64::MAX {
        u64::MAX
    } else {
        (2 * interval) as u64
    }
}

/// The Allocate request without credentials: it asks for UDP.
pub open spec fn probe(tid: TransactionId) -> MessageView {
    MessageView {
        method: METHOD_ALLOCATE,
        class: Class::Request,
        transaction_id: tid,
        attributes: seq![AttributeView::RequestedTransport(PROTO_UDP)],
    }
}

/// The Allocate request with credentials, before it is signed: it asks for
/// UDP and names the user, the realm and the nonce of the challenge.
pub open spec fn unsigned_request(
    tid: TransactionId,
    username: Seq<u8>,
    realm: Seq<u8>,
    nonce: Seq<u8>,
) -> MessageView {
    MessageView {
        method: METHOD_ALLOCATE,
        class: Class::Request,
        transaction_id: tid,
        attributes: seq![
            AttributeView::RequestedTransport(PROTO_UDP),
            AttributeView::Username(username),
            AttributeView::Realm(realm),
            AttributeView::Nonce(nonce),
        ],
    }
}

/// The bytes of the Allocate request with credentials, signed with the
/// user's long-term key, or why it cannot be written.
pub open spec fn signed_request(
    tid: TransactionId,
    username: Seq<u8>,
    password: Seq<u8>,
    realm: Seq<u8>,
    nonce: Seq<u8>,
) -> Result<Seq<u8>, Error> {
    let m = unsigned_request(tid, username, realm, nonce);
    if m.can_sign() {
        emit(m.signed(long_term_key(username, realm, password)))
    } else {
        Err(m.sign_error())
    }
}

/// The error that a client reports for an error code of the server.
pub open spec fn error_for(code: u16) -> Error {
    if code == CODE_UNAUTHORIZED {
        Error::AuthenticationFailed
    } else if code == CODE_ALLOCATION_MISMATCH {
        Error::AllocationExists
    } else if code == CODE_UNSUPPORTED_TRANSPORT {
        Error::UnsupportedTransport
    } else {
        Error::BadRequest
    }
}

impl ClientView {
    /// The client with the request `request` out under `id`, sent at `now`
    /// for the first time.
    pub open spec fn sent(self, phase: Phase, id: TransactionId, request: Seq<u8>, now: u64) -> ClientView {
        ClientView {
            phase,
            pending: Some(
                TransactionView {
                    id,
                    request,
                    retries: 0,
                    interval: self.rto,
                    deadline: due(now, self.rto),
                },
            ),
            ..self
        }
    }

    /// The client with nothing out, in `phase`.
    pub open spec fn finished(self, phase: Phase) -> ClientView {
        ClientView { phase, pending: None, ..self }
    }

    /// How the transaction that is out ends with the response `m`.
    pub open spec fn result(
        self,
        m: MessageView,
        from: TransportAddress,
        err: Option<Error>,
    ) -> MpscResultView {
        MpscResultView { msg: m, from, retries: self.pending->0.retries, err }
    }

    /// Whether `m` answers the request that is out: it is a response and has
    /// the transaction id of the request.
    pub open spec fn answers(self, m: MessageView) -> bool {
        self.pending is Some && m.transaction_id == self.pending->0.id && (m.class
            == Class::SuccessResponse || m.class == Class::ErrorResponse)
    }

    /// What beginning to allocate makes of the client, and what is to be
    /// done: the request without credentials goes out under `tid`. A closed
    /// client does nothing.
    pub open spec fn allocate_step(self, tid: TransactionId, now: u64) -> (ClientView, ClientStepView) {
        if self.phase == Phase::Closed {
            (self, ClientStepView::Idle)
        } else {
            (
                self.sent(Phase::Probing, tid, probe(tid).encode(), now),
                ClientStepView::Send { packet: probe(tid).encode() },
            )
        }
    }

    /// What a datagram makes of the client, and what is to be done. A
    /// datagram that is no message, or does not answer the request that is
    /// out, is passed over. A success response ends the handshake. The
    /// first challenge, which carries a nonce and a realm, has the request
    /// sent with credentials under `tid`; a second one is a failure of
    /// authentication. Any other error response ends the handshake with the
    /// error that its code stands for, and one without an error code with
    /// an error of its own.
    pub open spec fn listen_step(
        self,
        packet: Seq<u8>,
        from: TransportAddress,
        tid: TransactionId,
        now: u64,
    ) -> (ClientView, ClientStepView) {
        match parse_message(packet) {
            None => (self, ClientStepView::Idle),
            Some(m) => if !self.answers(m) {
                (self, ClientStepView::Idle)
            } else if m.class == Class::SuccessResponse {
                (
                    self.finished(Phase::Allocated),
                    ClientStepView::Done { result: self.result(m, from, None) },
                )
            } else {
                match m.error_code() {
                    None => (
                        self.finished(Phase::Failed),
                        ClientStepView::Done {
                            result: self.result(
                                m,
                                from,
                                Some(Error::ErrAllocateResponseIncludeNoErrorCodeAttribute),
                            ),
                        },
                    ),
                    Some(code) => if code == CODE_UNAUTHORIZED && self.phase == Phase::Probing
                        && m.nonce() is Some && m.realm() is Some {
                        match signed_request(
                            tid,
                            self.username,
                            self.password,
                            m.realm()->0,
                            m.nonce()->0,
                        ) {
                            Ok(bytes) => (
                                self.sent(Phase::Authenticating, tid, bytes, now),
                                ClientStepView::Send { packet: bytes },
                            ),
                            Err(e) => (
                                self.finished(Phase::Failed),
                                ClientStepView::Done { result: self.result(m, from, Some(e)) },
                            ),
                        }
                    } else {
                        (
                            self.finished(Phase::Failed),
                            ClientStepView::Done {
                                result: self.result(m, from, Some(error_for(code))),
                            },
                        )
                    },
                }
            },
        }
    }

    /// What the passing of time makes of the client, and what is to be
    /// done. Nothing, where no request is out or the one that is out is not
    /// due. A request that is due is sent again, and the wait doubled, where
    /// it was sent again less often than the budget allows; else the
    /// transaction fails with `Timeout`.
    pub open spec fn timeout_step(self, now: u64) -> (ClientView, ClientStepView) {
        if self.pending is None || now < self.pending->0.deadline {
            (self, ClientStepView::Idle)
        } else if self.pending->0.retries < self.max_retries {
            (
                ClientView {
                    pending: Some(
                        TransactionView {
                            retries: (self.pending->0.retries + 1) as u16,
                            interval: doubled(self.pending->0.interval),
                            deadline: due(now, doubled(self.pending->0.interval)),
                            ..self.pending->0
                        },
                    ),
                    ..self
                },
                ClientStepView::Send { packet: self.pending->0.request },
            )
        } else {
            (
                self.finished(Phase::Failed),
                ClientStepView::Done {
                    result: MpscResultView {
                        msg: empty_message(),
                        from: unspecified(),
                        retries: self.pending->0.retries,
                        err: Some(Error::Timeout),
                    },
                },
            )
        }
    }

    /// What closing makes of the client, and what is to be done: a request
    /// that is out ends with `ErrReceiverClosed`.
    pub open spec fn close_step(self) -> (ClientView, ClientStepView) {
        if self.pending is Some {
            (
                self.finished(Phase::Closed),
                ClientStepView::Done {
                    result: MpscResultView {
                        msg: empty_message(),
                        from: unspecified(),
                        retries: self.pending->0.retries,
                        err: Some(Error::ErrReceiverClosed),
                    },
                },
            )
        } else {
            (self.finished(Phase::Closed), ClientStepView::Idle)
        }
    }
}

/// The request without credentials can always be written.
pub proof fn lemma_probe_valid(tid: TransactionId)
    ensures
        probe(tid).valid(),
        probe(tid).body().len() == 8,
{
    let a = AttributeView::RequestedTransport(PROTO_UDP);
    crate::message::lemma_encode_attrs_push(Seq::<AttributeView>::empty(), a, tid);
    assert(Seq::<AttributeView>::empty().push(a) =~= seq![a]);
    assert(a.encode(tid).len() == 8);
}

/// The instant `interval` milliseconds after `now`.
pub fn due_at(now: u64, interval: u64) -> (at: u64)
    ensures
        at == due(now, interval),
{
    if now > u64::MAX - interval {
        u64::MAX
    } else {
        now + interval
    }
}

/// Twice `interval`.
pub fn double(interval: u64) -> (r: u64)
    ensures
        r == doubled(interval),
{
    if interval > u64::MAX / 2 {
        u64::MAX
    } else {
        2 * interval
    }
}

/// The error that a client reports for an error code of the server.
pub fn error_of_code(code: u16) -> (e: Error)
    ensures
        e == error_for(code),
{
    if code == CODE_UNAUTHORIZED {
        Error::AuthenticationFailed
    } else if code == CODE_ALLOCATION_MISMATCH {
        Error::AllocationExists
    } else if code == CODE_UNSUPPORTED_TRANSPORT {
        Error::UnsupportedTransport
    } else {
        Error::BadRequest
    }
}

/// The bytes of the Allocate request with credentials.
pub fn build_signed_request(
    tid: TransactionId,
    username: &[u8],
    password: &[u8],
    realm: &[u8],
    nonce: &[u8],
) -> (r: Result<Vec<u8>, Error>)
    ensures
        crate::engine::same_outcome(r, signed_request(tid, username@, password@, realm@, nonce@)),
{
    let mut attributes: Vec<Attribute> = Vec::new();
    attributes.push(Attribute::RequestedTransport(PROTO_UDP));
    attributes.push(Attribute::Username(vstd::slice::slice_to_vec(username)));
    attributes.push(Attribute::Realm(vstd::slice::slice_to_vec(realm)));
    attributes.push(Attribute::Nonce(vstd::slice::slice_to_vec(nonce)));
    let mut m = Message {
        method: METHOD_ALLOCATE,
        class: Class::Request,
        transaction_id: tid,
        attributes,
    };
    assert(m@.attributes =~= unsigned_request(tid, username@, realm@, nonce@).attributes);
    assert(m@ == unsigned_request(tid, username@, realm@, nonce@));
    let key = derive_key(username, realm, password);
    match m.add_integrity(key.as_slice()) {
        Err(e) => Err(e),
        Ok(()) => m.encode(),
    }
}

impl Client {
    /// A client that is to allocate with `config`, with nothing asked for
    /// yet.
    pub fn new(config: ClientConfig) -> (r: Result<Client, Error>)
        ensures
            r is Ok,
            r->Ok_0@ == (ClientView {
                username: vstd::utf8::encode_utf8(config.username@),
                password: vstd::utf8::encode_utf8(config.password@),
                rto: config.rto_in_ms as u64,
                max_retries: config.max_retries,
                phase: Phase::Idle,
                pending: None,
            }),
    {
        Ok(
            Client {
                username: vstd::slice::slice_to_vec(config.username.as_str().as_bytes()),
                password: vstd::slice::slice_to_vec(config.password.as_str().as_bytes()),
                rto: config.rto_in_ms as u64,
                max_retries: config.max_retries,
                phase: Phase::Idle,
                pending: None,
            },
        )
    }

    /// Where the handshake stands.
    pub fn phase(&self) -> (p: Phase)
        ensures
            p == self@.phase,
    {
        self.phase
    }

    /// When the request that is out is due to be sent again.
    pub fn deadline(&self) -> (r: Option<u64>)
        ensures
            r is Some == self@.pending is Some,
            r is Some ==> r->0 == self@.pending->0.deadline,
    {
        match &self.pending {
            Some(t) => Some(t.deadline),
            None => None,
        }
    }

    /// Puts the request `request` out under `id`.
    fn send(&mut self, phase: Phase, id: TransactionId, request: Vec<u8>, now: u64) -> (step:
        ClientStep)
        ensures
            final(self)@ == old(self)@.sent(phase, id, request@, now),
            step@ == (ClientStepView::Send { packet: request@ }),
    {
        let packet = request.clone();
        self.phase = phase;
        self.pending = Some(
            Transaction {
                id,
                request,
                retries: 0,
                interval: self.rto,
                deadline: due_at(now, self.rto),
            },
        );
        ClientStep::Send { packet }
    }

    /// Ends the transaction that is out with `result`.
    fn finish(&mut self, phase: Phase, result: MpscResult) -> (step: ClientStep)
        ensures
            final(self)@ == old(self)@.finished(phase),
            step@ == (ClientStepView::Done { result: result@ }),
    {
        self.phase = phase;
        self.pending = None;
        ClientStep::Done { result }
    }

    /// Begins to allocate: the request without credentials goes out under
    /// the transaction id `tid`.
    pub fn allocate_with(&mut self, tid: TransactionId, now: u64) -> (step: ClientStep)
        ensures
            (final(self)@, step@) == old(self)@.allocate_step(tid, now),
    {
        if self.phase == Phase::Closed {
            return ClientStep::Idle;
        }
        let mut attributes: Vec<Attribute> = Vec::new();
        attributes.push(Attribute::RequestedTransport(PROTO_UDP));
        let m = Message {
            method: METHOD_ALLOCATE,
            class: Class::Request,
            transaction_id: tid,
            attributes,
        };
        assert(m@.attributes =~= probe(tid).attributes);
        assert(m@ == probe(tid));
        proof {
            lemma_probe_valid(tid);
        }
        let packet = m.encode_to_packet();
        self.send(Phase::Probing, tid, packet, now)
    }

    /// Begins to allocate, under a transaction id drawn at random.
    pub fn allocate(&mut self, now: u64) -> (step: ClientStep)
        ensures
            exists|tid: TransactionId| (final(self)@, step@) == #[trigger] old(self)@.allocate_step(
                tid,
                now,
            ),
    {
        let tid = TransactionId::fresh();
        self.allocate_with(tid, now)
    }

    /// Hears the datagram `packet` from `from`. Should it call for the
    /// request with credentials, that goes out under the transaction id
    /// `tid`.
    pub fn listen_with(
        &mut self,
        packet: &[u8],
        from: TransportAddress,
        tid: TransactionId,
        now: u64,
    ) -> (step: ClientStep)
        ensures
            (final(self)@, step@) == old(self)@.listen_step(packet@, from, tid, now),
    {
        let m = match Message::decode_from_packet(packet) {
            Err(_) => {
                return ClientStep::Idle;
            },
            Ok(m) => m,
        };
        let retries = match &self.pending {
            None => {
                return ClientStep::Idle;
            },
            Some(t) => {
                if !t.id.same(&m.transaction_id) {
                    return ClientStep::Idle;
                }
                t.retries
            },
        };
        match m.class {
            Class::SuccessResponse => {
                self.finish(Phase::Allocated, MpscResult { msg: m, from, retries, err: None })
            },
            Class::ErrorResponse => {
                let code = match m.error_code() {
                    None => {
                        return self.finish(
                            Phase::Failed,
                            MpscResult {
                                msg: m,
                                from,
                                retries,
                                err: Some(Error::ErrAllocateResponseIncludeNoErrorCodeAttribute),
                            },
                        );
                    },
                    Some(c) => c,
                };
                if code == CODE_UNAUTHORIZED && self.phase == Phase::Probing {
                    let nonce = m.bytes_of(ATTR_NONCE);
                    let realm = m.bytes_of(ATTR_REALM);
                    match (nonce, realm) {
                        (Some(n), Some(r)) => {
                            let request = build_signed_request(
                                tid,
                                self.username.as_slice(),
                                self.password.as_slice(),
                                r.as_slice(),
                                n.as_slice(),
                            );
                            return match request {
                                Ok(bytes) => self.send(Phase::Authenticating, tid, bytes, now),
                                Err(e) => self.finish(
                                    Phase::Failed,
                                    MpscResult { msg: m, from, retries, err: Some(e) },
                                ),
                            };
                        },
                        _ => {},
                    }
                }
                self.finish(
                    Phase::Failed,
                    MpscResult { msg: m, from, retries, err: Some(error_of_code(code)) },
                )
            },
            _ => ClientStep::Idle,
        }
    }

    /// Hears the datagram `packet` from `from`. Should it call for the
    /// request with credentials, that goes out under a transaction id drawn
    /// at random.
    pub fn listen(&mut self, packet: &[u8], from: TransportAddress, now: u64) -> (step: ClientStep)
        ensures
            exists|tid: TransactionId| (final(self)@, step@) == #[trigger] old(self)@.listen_step(
                packet@,
                from,
                tid,
                now,
            ),
    {
        let tid = TransactionId::fresh();
        self.listen_with(packet, from, tid, now)
    }

    /// Lets time pass up to `now`: a request that is due is sent again, or
    /// fails where it was sent again as often as the budget allows.
    pub fn handle_timeout(&mut self, now: u64) -> (step: ClientStep)
        ensures
            (final(self)@, step@) == old(self)@.timeout_step(now),
    {
        let (retries, interval, due_now) = match &self.pending {
            None => {
                return ClientStep::Idle;
            },
            Some(t) => (t.retries, t.interval, now >= t.deadline),
        };
        if !due_now {
            return ClientStep::Idle;
        }
        if retries < self.max_retries {
            let t = self.pending.take().unwrap();
            let packet = t.request.clone();
            let next = double(interval);
            self.pending = Some(
                Transaction {
                    id: t.id,
                    request: t.request,
                    retries: retries + 1,
                    interval: next,
                    deadline: due_at(now, next),
                },
            );
            ClientStep::Send { packet }
        } else {
            let mut result = MpscResult::default();
            result.retries = retries;
            result.err = Some(Error::Timeout);
            self.finish(Phase::Failed, result)
        }
    }

    /// Closes the client: a request that is out ends with
    /// `ErrReceiverClosed`, and the client allocates no more.
    pub fn close(&mut self) -> (step: ClientStep)
        ensures
            (final(self)@, step@) == old(self)@.close_step(),
    {
        match &self.pending {
            None => {
                self.phase = Phase::Closed;
                ClientStep::Idle
            },
            Some(t) => {
                let mut result = MpscResult::default();
                result.retries = t.retries;
                result.err = Some(Error::ErrReceiverClosed);
                self.finish(Phase::Closed, result)
            },
        }
    }
}

} // verus!
