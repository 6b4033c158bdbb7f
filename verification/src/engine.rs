//! The state of the relay and what each kind of request makes of it: the
//! challenge, the check of credentials, and the handlers of the methods, each
//! from the state and a decoded message to the next state and the bytes of
//! the response.

use vstd::prelude::*;
use vstd::string::StringSliceAdditionalSpecFns;
use crate::address::{TransactionId, TransportAddress};
use crate::allocation::{AllocationView, FiveTuple, LifetimePolicy, live};
use crate::attribute::{Attribute, AttributeView};
use crate::channel::{ChannelData, parse_channel_data};
use crate::error::{
    CODE_ALLOCATION_MISMATCH, CODE_BAD_REQUEST, CODE_UNAUTHORIZED, CODE_UNSUPPORTED_TRANSPORT, Error,
};
use crate::integrity::{check_integrity, derive_key, integrity_ok, long_term_key};
use crate::message::{
    Class, METHOD_ALLOCATE, METHOD_DATA, METHOD_REFRESH, METHOD_SEND, Message, MessageView, views,
};
use crate::nonce::{NonceStore, expired};
use crate::requested_transport::PROTO_UDP;
use crate::table::{
    AllocationTable, bind_step, create_step, holds_live, permission_step, refresh_step,
};
use crate::wire::bytes_eq;

verus! {

/// STUN error code: the server failed.
pub const CODE_SERVER_ERROR: u16 = 500;

/// A user and the password by which the user is known.
#[derive(Debug, Clone, PartialEq, Eq)]
pub struct Credential {
    pub username: Vec<u8>,
    pub password: Vec<u8>,
}

/// What the surroundings are to do for the relay.
#[derive(Debug, Clone, PartialEq, Eq)]
pub enum Action {
    /// Send `packet` from the server's own address to the client at `to`.
    Send { to: TransportAddress, packet: Vec<u8> },
    /// Send `payload` from the relay address `from` to the peer at `to`.
    Relay { from: TransportAddress, to: TransportAddress, payload: Vec<u8> },
    /// Close the socket at the relay address `relay`.
    Release { relay: TransportAddress },
}

/// An action, as mathematical values.
pub enum ActionView {
    Send { to: TransportAddress, packet: Seq<u8> },
    Relay { from: TransportAddress, to: TransportAddress, payload: Seq<u8> },
    Release { relay: TransportAddress },
}

impl View for Action {
    type V = ActionView;

    open spec fn view(&self) -> ActionView {
        match *self {
            Action::Send { to, packet } => ActionView::Send { to, packet: packet@ },
            Action::Relay { from, to, payload } => ActionView::Relay { from, to, payload: payload@ },
            Action::Release { relay } => ActionView::Release { relay },
        }
    }
}

/// The views of a sequence of actions, in the same order.
pub open spec fn action_views(s: Seq<Action>) -> Seq<ActionView> {
    Seq::new(s.len(), |i: int| s[i]@)
}

/// The state of the relay: what it was configured with, the nonces that are
/// out, and the allocations.
pub struct ServerState {
    pub realm: Vec<u8>,
    pub server: TransportAddress,
    pub nonce_lifetime: u64,
    pub credentials: Vec<Credential>,
    pub nonces: NonceStore,
    pub allocations: AllocationTable,
}

/// The state of the relay, as mathematical values.
pub struct StateView {
    pub realm: Seq<u8>,
    pub server: TransportAddress,
    pub nonce_lifetime: u64,
    pub credentials: Seq<(Seq<u8>, Seq<u8>)>,
    pub policy: LifetimePolicy,
    pub nonces: Map<Seq<u8>, u64>,
    pub allocations: Map<FiveTuple, AllocationView>,
}

/// The users and passwords of `c`, in the same order.
pub open spec fn credential_views(c: Seq<Credential>) -> Seq<(Seq<u8>, Seq<u8>)> {
    Seq::new(c.len(), |i: int| (c[i].username@, c[i].password@))
}

impl View for ServerState {
    type V = StateView;

    open spec fn view(&self) -> StateView {
        StateView {
            realm: self.realm@,
            server: self.server,
            nonce_lifetime: self.nonce_lifetime,
            credentials: credential_views(self.credentials@),
            policy: self.allocations.policy(),
            nonces: self.nonces@,
            allocations: self.allocations@,
        }
    }
}

/// The password of the first user named `username` among `credentials`.
pub open spec fn password_of(credentials: Seq<(Seq<u8>, Seq<u8>)>, username: Seq<u8>) -> Option<
    Seq<u8>,
>
    decreases credentials.len(),
{
    if credentials.len() == 0 {
        None
    } else if credentials[0].0 == username {
        Some(credentials[0].1)
    } else {
        password_of(credentials.drop_first(), username)
    }
}

/// The reason phrase that goes with an error code.
pub open spec fn reason_of(code: u16) -> Seq<u8> {
    if code == CODE_BAD_REQUEST {
        "Bad Request".spec_bytes()
    } else if code == CODE_UNAUTHORIZED {
        "Unauthorized".spec_bytes()
    } else if code == CODE_ALLOCATION_MISMATCH {
        "Allocation Mismatch".spec_bytes()
    } else if code == CODE_UNSUPPORTED_TRANSPORT {
        "Unsupported Transport Protocol".spec_bytes()
    } else {
        "Server Error".spec_bytes()
    }
}

/// The code with which an error is answered: its own where it has one, and
/// that of a server error otherwise.
pub open spec fn code_for(e: Error) -> u16 {
    match e.spec_stun_code() {
        Some(c) => c,
        None => CODE_SERVER_ERROR,
    }
}

/// A message in answer to `request`: of its method and with its transaction
/// id.
pub open spec fn reply(request: MessageView, class: Class, attributes: Seq<AttributeView>) -> MessageView {
    MessageView {
        method: request.method,
        class,
        transaction_id: request.transaction_id,
        attributes,
    }
}

/// The error response to `request` with `code` and its reason phrase.
pub open spec fn error_reply(request: MessageView, code: u16) -> MessageView {
    reply(
        request,
        Class::ErrorResponse,
        seq![AttributeView::ErrorCode { code, reason: reason_of(code) }],
    )
}

/// The challenge to `request`: the error response 401 with a nonce and the
/// realm.
pub open spec fn challenge(request: MessageView, nonce: Seq<u8>, realm: Seq<u8>) -> MessageView {
    reply(
        request,
        Class::ErrorResponse,
        seq![
            AttributeView::ErrorCode { code: CODE_UNAUTHORIZED, reason: reason_of(CODE_UNAUTHORIZED) },
            AttributeView::Nonce(nonce),
            AttributeView::Realm(realm),
        ],
    )
}

/// The bytes of `m`, or why it cannot be written.
pub open spec fn emit(m: MessageView) -> Result<Seq<u8>, Error> {
    if m.valid() {
        Ok(m.encode())
    } else {
        Err(m.encode_error())
    }
}

/// The Data indication that carries `payload` from `peer` to a client.
pub open spec fn data_indication(
    peer: TransportAddress,
    payload: Seq<u8>,
    tid: TransactionId,
) -> MessageView {
    MessageView {
        method: METHOD_DATA,
        class: Class::Indication,
        transaction_id: tid,
        attributes: seq![AttributeView::XorPeerAddress(peer), AttributeView::Data(payload)],
    }
}

impl StateView {
    /// Who a client at `src` is to the allocation table.
    pub open spec fn owner_of(self, src: TransportAddress) -> FiveTuple {
        FiveTuple { client: src, server: self.server, protocol: PROTO_UDP }
    }

    /// The nonces after the nonce of `m` was looked at: without it, where it
    /// was found past its lifetime.
    pub open spec fn nonces_checked(self, m: MessageView, now: u64) -> Map<Seq<u8>, u64> {
        match m.nonce() {
            Some(n) => if self.nonces.contains_key(n) && expired(
                self.nonces[n],
                now,
                self.nonce_lifetime,
            ) {
                self.nonces.remove(n)
            } else {
                self.nonces
            },
            None => self.nonces,
        }
    }

    /// Whether `m` carries a nonce that is out and within its lifetime.
    pub open spec fn nonce_accepted(self, m: MessageView, now: u64) -> bool {
        m.nonce() is Some && self.nonces.contains_key(m.nonce()->0) && !expired(
            self.nonces[m.nonce()->0],
            now,
            self.nonce_lifetime,
        )
    }

    /// The long-term key of the user that `m` names, where `m` names a known
    /// user and this realm.
    pub open spec fn key_for(self, m: MessageView) -> Option<Seq<u8>> {
        if m.username() is Some && m.realm() == Some(self.realm) {
            match password_of(self.credentials, m.username()->0) {
                Some(p) => Some(long_term_key(m.username()->0, self.realm, p)),
                None => None,
            }
        } else {
            None
        }
    }

    /// Whether the request `m`, received as `packet`, is authentic: its
    /// nonce is accepted, it names a known user and this realm, and its
    /// MESSAGE-INTEGRITY is the one that the user's key gives the packet.
    pub open spec fn verified(self, m: MessageView, packet: Seq<u8>, now: u64) -> bool {
        self.nonce_accepted(m, now) && self.key_for(m) is Some && integrity_ok(
            packet,
            self.key_for(m)->0,
        )
    }

    /// The state with `nonces` as its nonces.
    pub open spec fn with_nonces(self, nonces: Map<Seq<u8>, u64>) -> StateView {
        StateView { nonces, ..self }
    }

    /// The state with `allocations` as its allocations.
    pub open spec fn with_allocations(self, allocations: Map<FiveTuple, AllocationView>) -> StateView {
        StateView { allocations, ..self }
    }

    /// What a challenge with the fresh nonce `nonce` makes of the state, and
    /// the response: the nonce is recorded and the challenge written, unless
    /// the nonce is out already.
    pub open spec fn challenge_step(self, m: MessageView, nonce: Seq<u8>, now: u64) -> (
        StateView,
        Result<Seq<u8>, Error>,
    ) {
        if self.nonces.contains_key(nonce) {
            (self, Err(Error::ErrDuplicatedNonce))
        } else {
            (self.with_nonces(self.nonces.insert(nonce, now)), emit(challenge(m, nonce, self.realm)))
        }
    }

    /// The user that `m` names, or the user without a name where it names
    /// none.
    pub open spec fn user(m: MessageView) -> Seq<u8> {
        match m.username() {
            Some(u) => u,
            None => Seq::<u8>::empty(),
        }
    }

    /// Whether the client at `src` holds an allocation that another user
    /// than the one that `m` names asked for. Such an allocation is not the
    /// sender's to change.
    pub open spec fn foreign(self, m: MessageView, src: TransportAddress, now: u64) -> bool {
        holds_live(self.allocations, self.owner_of(src), now)
            && self.allocations[self.owner_of(src)].username != StateView::user(m)
    }

    /// What an authentic Allocate request makes of the state, and the
    /// response.
    pub open spec fn allocate_step(
        self,
        m: MessageView,
        src: TransportAddress,
        relay: TransportAddress,
        now: u64,
    ) -> (StateView, Result<Seq<u8>, Error>) {
        match m.requested_transport() {
            None => (self, emit(error_reply(m, CODE_BAD_REQUEST))),
            Some(protocol) => {
                let step = create_step(
                    self.allocations,
                    self.policy,
                    self.owner_of(src),
                    StateView::user(m),
                    protocol,
                    m.lifetime(),
                    relay,
                    now,
                );
                match step.1 {
                    Ok(granted) => (
                        self.with_allocations(step.0),
                        emit(
                            reply(
                                m,
                                Class::SuccessResponse,
                                seq![
                                    AttributeView::XorRelayedAddress(relay),
                                    AttributeView::Lifetime(granted),
                                    AttributeView::XorMappedAddress(src),
                                ],
                            ),
                        ),
                    ),
                    Err(e) => (self.with_allocations(step.0), emit(error_reply(m, code_for(e)))),
                }
            },
        }
    }

    /// What an authentic Refresh request makes of the state, and the
    /// response.
    pub open spec fn refresh_step(self, m: MessageView, src: TransportAddress, now: u64) -> (
        StateView,
        Result<Seq<u8>, Error>,
    ) {
        if self.foreign(m, src, now) {
            (self, emit(error_reply(m, CODE_ALLOCATION_MISMATCH)))
        } else {
            let step = refresh_step(
                self.allocations,
                self.policy,
                self.owner_of(src),
                m.lifetime(),
                now,
            );
            match step.1 {
                Ok(granted) => (
                    self.with_allocations(step.0),
                    emit(reply(m, Class::SuccessResponse, seq![AttributeView::Lifetime(granted)])),
                ),
                Err(e) => (self.with_allocations(step.0), emit(error_reply(m, code_for(e)))),
            }
        }
    }

    /// What an authentic CreatePermission request makes of the state, and
    /// the response.
    pub open spec fn permission_step(self, m: MessageView, src: TransportAddress, now: u64) -> (
        StateView,
        Result<Seq<u8>, Error>,
    ) {
        match m.peer_address() {
            None => (self, emit(error_reply(m, CODE_BAD_REQUEST))),
            Some(peer) => if self.foreign(m, src, now) {
                (self, emit(error_reply(m, CODE_ALLOCATION_MISMATCH)))
            } else {
                let step = permission_step(
                    self.allocations,
                    self.policy,
                    self.owner_of(src),
                    peer.ip,
                    now,
                );
                match step.1 {
                    Ok(_) => (
                        self.with_allocations(step.0),
                        emit(reply(m, Class::SuccessResponse, Seq::<AttributeView>::empty())),
                    ),
                    Err(e) => (self.with_allocations(step.0), emit(error_reply(m, code_for(e)))),
                }
            },
        }
    }

    /// What an authentic ChannelBind request makes of the state, and the
    /// response.
    pub open spec fn bind_step(self, m: MessageView, src: TransportAddress, now: u64) -> (
        StateView,
        Result<Seq<u8>, Error>,
    ) {
        if m.channel_number() is None || m.peer_address() is None {
            (self, emit(error_reply(m, CODE_BAD_REQUEST)))
        } else if self.foreign(m, src, now) {
            (self, emit(error_reply(m, CODE_ALLOCATION_MISMATCH)))
        } else {
            let step = bind_step(
                self.allocations,
                self.policy,
                self.owner_of(src),
                m.channel_number()->0,
                m.peer_address()->0,
                now,
            );
            match step.1 {
                Ok(_) => (
                    self.with_allocations(step.0),
                    emit(reply(m, Class::SuccessResponse, Seq::<AttributeView>::empty())),
                ),
                Err(e) => (self.with_allocations(step.0), emit(error_reply(m, code_for(e)))),
            }
        }
    }

    /// The relay address that an authentic request sets free: an Allocate
    /// request that asks for UDP puts an allocation of the sender that is
    /// past its expiry out of the table, and a Refresh request with a
    /// lifetime of zero ends the allocation that the sender asked for.
    pub open spec fn released_by(self, m: MessageView, src: TransportAddress, now: u64) -> Seq<
        ActionView,
    > {
        let owner = self.owner_of(src);
        if m.method == METHOD_ALLOCATE && m.requested_transport() == Some(PROTO_UDP)
            && self.allocations.contains_key(owner) && !live(
            self.allocations[owner].expires_at,
            now,
        ) {
            seq![ActionView::Release { relay: self.allocations[owner].relay }]
        } else if m.method == METHOD_REFRESH && m.lifetime() == Some(0u32) && holds_live(
            self.allocations,
            owner,
            now,
        ) && !self.foreign(m, src, now) {
            seq![ActionView::Release { relay: self.allocations[owner].relay }]
        } else {
            Seq::<ActionView>::empty()
        }
    }

    /// The response to a Binding request from `src`.
    pub open spec fn binding_reply(m: MessageView, src: TransportAddress) -> Result<Seq<u8>, Error> {
        emit(reply(m, Class::SuccessResponse, seq![AttributeView::XorMappedAddress(src)]))
    }

    /// What an indication asks for: a Send indication with a peer address
    /// and data, from a client whose allocation permits the peer, has the
    /// data relayed; every other indication asks for nothing.
    pub open spec fn indication_step(self, m: MessageView, src: TransportAddress, now: u64) -> Seq<
        ActionView,
    > {
        if m.method == METHOD_SEND && m.peer_address() is Some && m.data() is Some && holds_live(
            self.allocations,
            self.owner_of(src),
            now,
        ) && self.allocations[self.owner_of(src)].permits(m.peer_address()->0.ip, now) {
            seq![
                ActionView::Relay {
                    from: self.allocations[self.owner_of(src)].relay,
                    to: m.peer_address()->0,
                    payload: m.data()->0,
                },
            ]
        } else {
            Seq::<ActionView>::empty()
        }
    }

    /// What a ChannelData frame from a client asks for: its data is relayed
    /// to the peer that the channel is bound to, where the client holds an
    /// allocation with such a binding; else nothing. A frame that does not
    /// parse is an error.
    pub open spec fn channel_data_step(self, packet: Seq<u8>, src: TransportAddress, now: u64) -> Result<
        Seq<ActionView>,
        Error,
    > {
        match parse_channel_data(packet) {
            None => Err(Error::Malformed),
            Some(frame) => {
                let owner = self.owner_of(src);
                if holds_live(self.allocations, owner, now)
                    && self.allocations[owner].channels.contains_key(frame.number) && live(
                    self.allocations[owner].channels[frame.number].1,
                    now,
                ) {
                    Ok(
                        seq![
                            ActionView::Relay {
                                from: self.allocations[owner].relay,
                                to: self.allocations[owner].channels[frame.number].0,
                                payload: frame.data,
                            },
                        ],
                    )
                } else {
                    Ok(Seq::<ActionView>::empty())
                }
            },
        }
    }
}

/// The reason phrase that goes with an error code.
pub fn reason_phrase(code: u16) -> (reason: Vec<u8>)
    ensures
        reason@ == reason_of(code),
{
    let text: &str = if code == CODE_BAD_REQUEST {
        "Bad Request"
    } else if code == CODE_UNAUTHORIZED {
        "Unauthorized"
    } else if code == CODE_ALLOCATION_MISMATCH {
        "Allocation Mismatch"
    } else if code == CODE_UNSUPPORTED_TRANSPORT {
        "Unsupported Transport Protocol"
    } else {
        "Server Error"
    };
    vstd::slice::slice_to_vec(text.as_bytes())
}

/// The code with which an error is answered.
pub fn error_code_for(e: &Error) -> (code: u16)
    ensures
        code == code_for(*e),
{
    match e.stun_code() {
        Some(c) => c,
        None => CODE_SERVER_ERROR,
    }
}

/// The bytes of the message in answer to `request` that has `class` and
/// `attributes`.
pub fn emit_reply(request: &Message, class: Class, attributes: Vec<Attribute>) -> (r: Result<
    Vec<u8>,
    Error,
>)
    ensures
        same_outcome(r, emit(reply(request@, class, views(attributes@)))),
{
    let m = Message {
        method: request.method,
        class,
        transaction_id: request.transaction_id,
        attributes,
    };
    m.encode()
}

/// The bytes of the error response to `request` with `code`.
pub fn emit_error(request: &Message, code: u16) -> (r: Result<Vec<u8>, Error>)
    ensures
        same_outcome(r, emit(error_reply(request@, code))),
{
    let mut attributes: Vec<Attribute> = Vec::new();
    attributes.push(Attribute::ErrorCode { code, reason: reason_phrase(code) });
    assert(views(attributes@) =~= seq![AttributeView::ErrorCode { code, reason: reason_of(code) }]);
    emit_reply(request, Class::ErrorResponse, attributes)
}

/// Whether the bytes in `r` are those in `spec`, or the error in `r` the one
/// in `spec`.
pub open spec fn same_outcome(r: Result<Vec<u8>, Error>, spec: Result<Seq<u8>, Error>) -> bool {
    match r {
        Ok(bytes) => spec == Ok::<Seq<u8>, Error>(bytes@),
        Err(e) => spec == Err::<Seq<u8>, Error>(e),
    }
}

/// Whether the actions in `r` are those in `spec`, or the error in `r` the
/// one in `spec`.
pub open spec fn same_actions(r: Result<Vec<Action>, Error>, spec: Result<Seq<ActionView>, Error>) -> bool {
    match r {
        Ok(actions) => spec == Ok::<Seq<ActionView>, Error>(action_views(actions@)),
        Err(e) => spec == Err::<Seq<ActionView>, Error>(e),
    }
}

impl ServerState {
    /// The nonces and the allocations are well-formed.
    pub open spec fn wf(&self) -> bool {
        self.nonces.wf() && self.allocations.wf()
    }

    /// A relay with no nonce out and no allocation.
    pub fn new(
        realm: Vec<u8>,
        server: TransportAddress,
        nonce_lifetime: u64,
        credentials: Vec<Credential>,
        policy: LifetimePolicy,
    ) -> (s: ServerState)
        ensures
            s.wf(),
            s@ == (StateView {
                realm: realm@,
                server,
                nonce_lifetime,
                credentials: credential_views(credentials@),
                policy,
                nonces: Map::<Seq<u8>, u64>::empty(),
                allocations: Map::<FiveTuple, AllocationView>::empty(),
            }),
    {
        ServerState {
            realm,
            server,
            nonce_lifetime,
            credentials,
            nonces: NonceStore::new(),
            allocations: AllocationTable::new(policy),
        }
    }

    /// Who a client at `src` is to the allocation table.
    pub fn owner_of(&self, src: TransportAddress) -> (owner: FiveTuple)
        ensures
            owner == self@.owner_of(src),
    {
        FiveTuple { client: src, server: self.server, protocol: PROTO_UDP }
    }

    /// The password of the first user named `username`.
    pub fn password_of(&self, username: &[u8]) -> (r: Option<&Vec<u8>>)
        ensures
            r is Some == password_of(self@.credentials, username@) is Some,
            r is Some ==> r->0@ == password_of(self@.credentials, username@)->0,
    {
        let ghost all = self@.credentials;
        let mut i: usize = 0;
        assert(all.skip(0) =~= all);
        while i < self.credentials.len()
            invariant
                i <= self.credentials@.len(),
                all == self@.credentials,
                password_of(all, username@) == password_of(all.skip(i as int), username@),
            decreases self.credentials@.len() - i,
        {
            let c = &self.credentials[i];
            assert(all.skip(i as int)[0] == (c.username@, c.password@));
            if bytes_eq(c.username.as_slice(), username) {
                return Some(&c.password);
            }
            assert(all.skip(i as int).drop_first() =~= all.skip(i + 1));
            i += 1;
        }
        None
    }

    /// The long-term key of the user that `m` names.
    pub fn key_for(&self, m: &Message) -> (r: Option<Vec<u8>>)
        ensures
            r is Some == self@.key_for(m@) is Some,
            r is Some ==> r->0@ == self@.key_for(m@)->0,
    {
        let username = match m.bytes_of(crate::attribute::ATTR_USERNAME) {
            Some(u) => u,
            None => {
                return None;
            },
        };
        let realm = match m.bytes_of(crate::attribute::ATTR_REALM) {
            Some(r) => r,
            None => {
                return None;
            },
        };
        if !bytes_eq(realm.as_slice(), self.realm.as_slice()) {
            return None;
        }
        match self.password_of(username.as_slice()) {
            None => None,
            Some(p) => Some(derive_key(username.as_slice(), self.realm.as_slice(), p.as_slice())),
        }
    }

    /// Checks that the request `m`, received as `packet`, is authentic. A
    /// missing credential, an unknown user, another realm, a nonce that is
    /// not out or past its lifetime, and an integrity that does not match are
    /// all `Unauthorized`. A nonce that is found past its lifetime is taken
    /// out of the store.
    pub fn verify(&mut self, m: &Message, packet: &[u8], now: u64) -> (r: Result<(), Error>)
        requires
            old(self).wf(),
        ensures
            final(self).wf(),
            old(self)@.verified(m@, packet@, now) ==> r == Ok::<(), Error>(()),
            !old(self)@.verified(m@, packet@, now) ==> r == Err::<(), Error>(Error::Unauthorized),
            final(self)@ == old(self)@.with_nonces(old(self)@.nonces_checked(m@, now)),
    {
        let fresh = match m.bytes_of(crate::attribute::ATTR_NONCE) {
            Some(n) => self.nonces.check(n.as_slice(), now, self.nonce_lifetime),
            None => false,
        };
        if !fresh {
            return Err(Error::Unauthorized);
        }
        match self.key_for(m) {
            None => Err(Error::Unauthorized),
            Some(key) => if check_integrity(packet, key.as_slice()) {
                Ok(())
            } else {
                Err(Error::Unauthorized)
            },
        }
    }

    /// The challenge to `m` with the fresh nonce `nonce`: records the nonce
    /// as issued at `now` and returns the bytes of the response, unless the
    /// nonce is out already.
    pub fn respond_with_nonce(&mut self, m: &Message, nonce: Vec<u8>, now: u64) -> (r: Result<
        Vec<u8>,
        Error,
    >)
        requires
            old(self).wf(),
        ensures
            final(self).wf(),
            final(self)@ == old(self)@.challenge_step(m@, nonce@, now).0,
            same_outcome(r, old(self)@.challenge_step(m@, nonce@, now).1),
    {
        let carried = nonce.clone();
        match self.nonces.insert(nonce, now) {
            Err(e) => Err(e),
            Ok(()) => {
                let mut attributes: Vec<Attribute> = Vec::new();
                attributes.push(
                    Attribute::ErrorCode {
                        code: CODE_UNAUTHORIZED,
                        reason: reason_phrase(CODE_UNAUTHORIZED),
                    },
                );
                attributes.push(Attribute::Nonce(carried));
                attributes.push(Attribute::Realm(self.realm.clone()));
                assert(views(attributes@) =~= challenge(m@, nonce@, self.realm@).attributes);
                emit_reply(m, Class::ErrorResponse, attributes)
            },
        }
    }

    /// The user that `m` names.
    pub fn user(m: &Message) -> (u: Vec<u8>)
        ensures
            u@ == StateView::user(m@),
    {
        match m.bytes_of(crate::attribute::ATTR_USERNAME) {
            Some(u) => u.clone(),
            None => Vec::new(),
        }
    }

    /// Whether the client at `src` holds an allocation that another user
    /// than the one that `m` names asked for.
    pub fn foreign(&self, m: &Message, src: TransportAddress, now: u64) -> (r: bool)
        requires
            self.wf(),
        ensures
            r == self@.foreign(m@, src, now),
    {
        let owner = self.owner_of(src);
        let user = ServerState::user(m);
        self.allocations.has_live(&owner, now) && !self.allocations.owned_by(
            &owner,
            user.as_slice(),
            now,
        )
    }

    /// The relay address that the authentic request `m` from `src` sets
    /// free, as it stands before the request is served.
    pub fn released_by(&self, m: &Message, src: TransportAddress, now: u64) -> (actions: Vec<Action>)
        requires
            self.wf(),
        ensures
            action_views(actions@) == self@.released_by(m@, src, now),
    {
        let owner = self.owner_of(src);
        let mut actions: Vec<Action> = Vec::new();
        let freed = if m.method == METHOD_ALLOCATE {
            match m.requested_transport() {
                Some(p) => if p == PROTO_UDP {
                    self.allocations.stale_relay(&owner, now)
                } else {
                    None
                },
                None => None,
            }
        } else if m.method == METHOD_REFRESH {
            match m.lifetime() {
                Some(l) => if l == 0 && !self.foreign(m, src, now) {
                    self.allocations.relay_of(&owner, now)
                } else {
                    None
                },
                None => None,
            }
        } else {
            None
        };
        match freed {
            Some(relay) => {
                actions.push(Action::Release { relay });
                assert(action_views(actions@) =~= seq![ActionView::Release { relay }]);
            },
            None => {
                assert(action_views(actions@) =~= Seq::<ActionView>::empty());
            },
        }
        actions
    }

    /// Serves an authentic Allocate request from `src`, with `relay` as the
    /// relay address that the allocation gets.
    pub fn allocate(&mut self, m: &Message, src: TransportAddress, relay: TransportAddress, now: u64) -> (r:
        Result<Vec<u8>, Error>)
        requires
            old(self).wf(),
        ensures
            final(self).wf(),
            final(self)@ == old(self)@.allocate_step(m@, src, relay, now).0,
            same_outcome(r, old(self)@.allocate_step(m@, src, relay, now).1),
    {
        let protocol = match m.requested_transport() {
            None => {
                return emit_error(m, CODE_BAD_REQUEST);
            },
            Some(p) => p,
        };
        let owner = self.owner_of(src);
        let user = ServerState::user(m);
        match self.allocations.create(owner, user, protocol, m.lifetime(), relay, now) {
            Ok(granted) => {
                let mut attributes: Vec<Attribute> = Vec::new();
                attributes.push(Attribute::XorRelayedAddress(relay));
                attributes.push(Attribute::Lifetime(granted));
                attributes.push(Attribute::XorMappedAddress(src));
                assert(views(attributes@) =~= seq![
                    AttributeView::XorRelayedAddress(relay),
                    AttributeView::Lifetime(granted),
                    AttributeView::XorMappedAddress(src),
                ]);
                emit_reply(m, Class::SuccessResponse, attributes)
            },
            Err(e) => emit_error(m, error_code_for(&e)),
        }
    }

    /// Serves an authentic Refresh request from `src`.
    pub fn refresh(&mut self, m: &Message, src: TransportAddress, now: u64) -> (r: Result<
        Vec<u8>,
        Error,
    >)
        requires
            old(self).wf(),
        ensures
            final(self).wf(),
            final(self)@ == old(self)@.refresh_step(m@, src, now).0,
            same_outcome(r, old(self)@.refresh_step(m@, src, now).1),
    {
        if self.foreign(m, src, now) {
            return emit_error(m, CODE_ALLOCATION_MISMATCH);
        }
        let owner = self.owner_of(src);
        match self.allocations.refresh(owner, m.lifetime(), now) {
            Ok(granted) => {
                let mut attributes: Vec<Attribute> = Vec::new();
                attributes.push(Attribute::Lifetime(granted));
                assert(views(attributes@) =~= seq![AttributeView::Lifetime(granted)]);
                emit_reply(m, Class::SuccessResponse, attributes)
            },
            Err(e) => emit_error(m, error_code_for(&e)),
        }
    }

    /// Serves an authentic CreatePermission request from `src`.
    pub fn create_permission(&mut self, m: &Message, src: TransportAddress, now: u64) -> (r: Result<
        Vec<u8>,
        Error,
    >)
        requires
            old(self).wf(),
        ensures
            final(self).wf(),
            final(self)@ == old(self)@.permission_step(m@, src, now).0,
            same_outcome(r, old(self)@.permission_step(m@, src, now).1),
    {
        let peer = match m.address_of(crate::attribute::ATTR_XOR_PEER_ADDRESS) {
            None => {
                return emit_error(m, CODE_BAD_REQUEST);
            },
            Some(p) => p,
        };
        if self.foreign(m, src, now) {
            return emit_error(m, CODE_ALLOCATION_MISMATCH);
        }
        let owner = self.owner_of(src);
        match self.allocations.create_permission(owner, peer.ip, now) {
            Ok(()) => {
                let attributes: Vec<Attribute> = Vec::new();
                assert(views(attributes@) =~= Seq::<AttributeView>::empty());
                emit_reply(m, Class::SuccessResponse, attributes)
            },
            Err(e) => emit_error(m, error_code_for(&e)),
        }
    }

    /// Serves an authentic ChannelBind request from `src`.
    pub fn channel_bind(&mut self, m: &Message, src: TransportAddress, now: u64) -> (r: Result<
        Vec<u8>,
        Error,
    >)
        requires
            old(self).wf(),
        ensures
            final(self).wf(),
            final(self)@ == old(self)@.bind_step(m@, src, now).0,
            same_outcome(r, old(self)@.bind_step(m@, src, now).1),
    {
        let number = match m.channel_number() {
            None => {
                return emit_error(m, CODE_BAD_REQUEST);
            },
            Some(n) => n,
        };
        let peer = match m.address_of(crate::attribute::ATTR_XOR_PEER_ADDRESS) {
            None => {
                return emit_error(m, CODE_BAD_REQUEST);
            },
            Some(p) => p,
        };
        if self.foreign(m, src, now) {
            return emit_error(m, CODE_ALLOCATION_MISMATCH);
        }
        let owner = self.owner_of(src);
        match self.allocations.bind_channel(owner, number, peer, now) {
            Ok(()) => {
                let attributes: Vec<Attribute> = Vec::new();
                assert(views(attributes@) =~= Seq::<AttributeView>::empty());
                emit_reply(m, Class::SuccessResponse, attributes)
            },
            Err(e) => emit_error(m, error_code_for(&e)),
        }
    }

    /// The response to a Binding request from `src`.
    pub fn binding(m: &Message, src: TransportAddress) -> (r: Result<Vec<u8>, Error>)
        ensures
            same_outcome(r, StateView::binding_reply(m@, src)),
    {
        let mut attributes: Vec<Attribute> = Vec::new();
        attributes.push(Attribute::XorMappedAddress(src));
        assert(views(attributes@) =~= seq![AttributeView::XorMappedAddress(src)]);
        emit_reply(m, Class::SuccessResponse, attributes)
    }

    /// What an indication from `src` asks for.
    pub fn indication(&self, m: &Message, src: TransportAddress, now: u64) -> (actions: Vec<Action>)
        requires
            self.wf(),
        ensures
            action_views(actions@) == self@.indication_step(m@, src, now),
    {
        let mut actions: Vec<Action> = Vec::new();
        if m.method == METHOD_SEND {
            let peer = m.address_of(crate::attribute::ATTR_XOR_PEER_ADDRESS);
            let data = m.bytes_of(crate::attribute::ATTR_DATA);
            match (peer, data) {
                (Some(to), Some(payload)) => {
                    let owner = self.owner_of(src);
                    match self.allocations.relay_for_send(&owner, &to.ip, now) {
                        Some(from) => {
                            actions.push(Action::Relay { from, to, payload: payload.clone() });
                            assert(action_views(actions@) =~= self@.indication_step(m@, src, now));
                            return actions;
                        },
                        None => {},
                    }
                },
                _ => {},
            }
        }
        assert(action_views(actions@) =~= Seq::<ActionView>::empty());
        actions
    }

    /// What a ChannelData frame from `src` asks for.
    pub fn channel_data(&self, packet: &[u8], src: TransportAddress, now: u64) -> (r: Result<
        Vec<Action>,
        Error,
    >)
        requires
            self.wf(),
        ensures
            same_actions(r, self@.channel_data_step(packet@, src, now)),
    {
        let frame = match ChannelData::decode(packet) {
            Err(e) => {
                return Err(e);
            },
            Ok(f) => f,
        };
        let mut actions: Vec<Action> = Vec::new();
        let owner = self.owner_of(src);
        match self.allocations.relay_for_channel(&owner, frame.number, now) {
            Some(way) => {
                actions.push(Action::Relay { from: way.0, to: way.1, payload: frame.data });
                assert(action_views(actions@) =~= self@.channel_data_step(packet@, src, now)->Ok_0);
            },
            None => {
                assert(action_views(actions@) =~= Seq::<ActionView>::empty());
            },
        }
        Ok(actions)
    }
}

} // verus!
