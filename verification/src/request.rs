//! One datagram that reached the server, and what the relay makes of it:
//! ChannelData is relayed, indications are served without a response, and
//! requests are answered, after a check of credentials where the method
//! calls for one.

use vstd::prelude::*;
use crate::address::TransportAddress;
use crate::attribute::AttributeView;
use crate::channel::{CHANNEL_DATA, STUN_PACKET, UNKNOWN_PACKET, classify, kind_of};
use crate::engine::{
    Action, ActionView, ServerState, StateView, action_views, challenge, code_for, emit,
    emit_error, error_reply, reply, same_actions, same_outcome,
};
use crate::error::{CODE_ALLOCATION_MISMATCH, CODE_BAD_REQUEST, Error};
use crate::message::{
    Class, METHOD_ALLOCATE, METHOD_BINDING, METHOD_CHANNEL_BIND, METHOD_CREATE_PERMISSION,
    METHOD_REFRESH, Message, MessageView, lemma_round_trip, parse_message,
};
use crate::nonce::{NONCE_LEN, build_nonce, made, nonce_of};
use crate::table::{bind_step, create_step, permission_step, refresh_step};

verus! {

/// The kind of a datagram: `STUN_PACKET`, `CHANNEL_DATA` or
/// `UNKNOWN_PACKET`.
#[derive(Debug, Clone, Copy, PartialEq, Eq, Structural)]
pub struct RequestType(pub u8);

/// A datagram that reached the server, with the address it came from.
#[derive(Debug, Clone, PartialEq, Eq)]
pub struct Request {
    packet: Vec<u8>,
    src_address: TransportAddress,
    kind: RequestType,
}

/// How the check of credentials ended.
#[derive(Debug, Clone, PartialEq, Eq)]
pub enum Authentication {
    /// The request is authentic.
    Accepted,
    /// The request is not authentic: `response` is the challenge to send.
    Challenged { response: Vec<u8> },
}

/// Whether requests of `method` are served only to authentic clients.
pub open spec fn needs_credentials(method: u16) -> bool {
    method == METHOD_ALLOCATE || method == METHOD_REFRESH || method == METHOD_CREATE_PERMISSION
        || method == METHOD_CHANNEL_BIND
}

/// A response to send to `to`, or the error in its place.
pub open spec fn send_to(to: TransportAddress, outcome: Result<Seq<u8>, Error>) -> Result<
    Seq<ActionView>,
    Error,
> {
    match outcome {
        Ok(packet) => Ok(seq![ActionView::Send { to, packet }]),
        Err(e) => Err(e),
    }
}

/// What an authentic request of one of the methods that need credentials
/// makes of the state, and the response.
pub open spec fn served_step(
    s: StateView,
    m: MessageView,
    src: TransportAddress,
    relay: TransportAddress,
    now: u64,
) -> (StateView, Result<Seq<u8>, Error>) {
    if m.method == METHOD_ALLOCATE {
        s.allocate_step(m, src, relay, now)
    } else if m.method == METHOD_REFRESH {
        s.refresh_step(m, src, now)
    } else if m.method == METHOD_CREATE_PERMISSION {
        s.permission_step(m, src, now)
    } else {
        s.bind_step(m, src, now)
    }
}

/// What a request makes of the state, and the response. A Binding request is
/// answered with the sender's address. A request of a method that needs
/// credentials is served where it is authentic and challenged with the fresh
/// nonce `nonce` where it is not; the nonce it carries is looked at either
/// way. Every other request is answered with 400.
pub open spec fn request_step(
    s: StateView,
    m: MessageView,
    packet: Seq<u8>,
    src: TransportAddress,
    relay: TransportAddress,
    nonce: Seq<u8>,
    now: u64,
) -> (StateView, Result<Seq<u8>, Error>) {
    if m.method == METHOD_BINDING {
        (s, StateView::binding_reply(m, src))
    } else if needs_credentials(m.method) {
        let checked = s.with_nonces(s.nonces_checked(m, now));
        if s.verified(m, packet, now) {
            served_step(checked, m, src, relay, now)
        } else {
            checked.challenge_step(m, nonce, now)
        }
    } else {
        (s, emit(error_reply(m, CODE_BAD_REQUEST)))
    }
}

/// `actions` followed by `released`, or the error in their place.
pub open spec fn with_released(
    actions: Result<Seq<ActionView>, Error>,
    released: Seq<ActionView>,
) -> Result<Seq<ActionView>, Error> {
    match actions {
        Ok(a) => if released.len() == 0 {
            Ok(a)
        } else {
            Ok(a + released)
        },
        Err(e) => Err(e),
    }
}

/// What is to be done for a request: its response is sent to where the
/// request came from, and the relay address that an authentic request set
/// free is released.
pub open spec fn request_actions(
    s: StateView,
    m: MessageView,
    packet: Seq<u8>,
    src: TransportAddress,
    relay: TransportAddress,
    nonce: Seq<u8>,
    now: u64,
) -> Result<Seq<ActionView>, Error> {
    with_released(
        send_to(src, request_step(s, m, packet, src, relay, nonce, now).1),
        if needs_credentials(m.method) && s.verified(m, packet, now) {
            s.with_nonces(s.nonces_checked(m, now)).released_by(m, src, now)
        } else {
            Seq::<ActionView>::empty()
        },
    )
}

/// Whether the request `m` is answered with a challenge, for which a fresh
/// nonce is needed.
pub open spec fn is_challenged(s: StateView, m: MessageView, packet: Seq<u8>, now: u64) -> bool {
    m.class == Class::Request && needs_credentials(m.method) && !s.verified(m, packet, now)
}

/// What a STUN packet makes of the state, and what is to be done. A packet
/// that does not parse is an error. An indication is served without a
/// response, a request is answered to where it came from, and a response is
/// passed over.
pub open spec fn stun_step(
    s: StateView,
    packet: Seq<u8>,
    src: TransportAddress,
    relay: TransportAddress,
    nonce: Seq<u8>,
    now: u64,
) -> (StateView, Result<Seq<ActionView>, Error>) {
    match parse_message(packet) {
        None => (s, Err(Error::Malformed)),
        Some(m) => if m.class == Class::Indication {
            (s, Ok(s.indication_step(m, src, now)))
        } else if m.class == Class::Request {
            (
                request_step(s, m, packet, src, relay, nonce, now).0,
                request_actions(s, m, packet, src, relay, nonce, now),
            )
        } else {
            (s, Ok(Seq::<ActionView>::empty()))
        },
    }
}

/// What a datagram makes of the state, and what is to be done.
pub open spec fn datagram_step(
    s: StateView,
    packet: Seq<u8>,
    src: TransportAddress,
    relay: TransportAddress,
    nonce: Seq<u8>,
    now: u64,
) -> (StateView, Result<Seq<ActionView>, Error>) {
    if kind_of(packet) == CHANNEL_DATA {
        (s, s.channel_data_step(packet, src, now))
    } else if kind_of(packet) == STUN_PACKET {
        stun_step(s, packet, src, relay, nonce, now)
    } else {
        (s, Err(Error::ErrRequestTypeUnknown))
    }
}

/// The state after a datagram for whose challenge no nonce could be made:
/// the nonce that the request carried was looked at, and nothing else was
/// done.
pub open spec fn after_failed_nonce(s: StateView, packet: Seq<u8>, now: u64) -> StateView {
    s.with_nonces(s.nonces_checked(parse_message(packet)->0, now))
}

/// Whether the datagram `packet` is a request that is answered with a
/// challenge.
pub open spec fn datagram_challenged(s: StateView, packet: Seq<u8>, now: u64) -> bool {
    kind_of(packet) == STUN_PACKET && parse_message(packet) is Some && is_challenged(
        s,
        parse_message(packet)->0,
        packet,
        now,
    )
}

/// Whether `after` and `r` are what a datagram makes of the state `before`
/// and what is to be done, where `nonce` is the nonce that was made for a
/// challenge: the nonce is one that `build_nonce` makes, of 32 bytes where
/// it was called for, and `after` and `r` are what `datagram_step` gives
/// with it.
pub open spec fn datagram_served_with(
    nonce: Seq<u8>,
    before: StateView,
    after: StateView,
    r: Result<Vec<Action>, Error>,
    packet: Seq<u8>,
    src: TransportAddress,
    relay: TransportAddress,
    now: u64,
) -> bool {
    &&& made(nonce)
    &&& datagram_challenged(before, packet, now) ==> nonce.len() == NONCE_LEN
    &&& after == datagram_step(before, packet, src, relay, nonce, now).0
    &&& same_actions(r, datagram_step(before, packet, src, relay, nonce, now).1)
}

/// Whether `after` and `r` are what a datagram makes of the state `before`
/// and what is to be done, whatever nonce was made for a challenge: either
/// they are what `datagram_step` gives for the nonce of some reading of the
/// clock and some random number, or the datagram called for a challenge, no
/// nonce could be made for want of a clock, and `r` is that error.
pub open spec fn datagram_outcome(
    before: StateView,
    after: StateView,
    r: Result<Vec<Action>, Error>,
    packet: Seq<u8>,
    src: TransportAddress,
    relay: TransportAddress,
    now: u64,
) -> bool {
    ||| exists|nonce: Seq<u8>| #[trigger]
        datagram_served_with(nonce, before, after, r, packet, src, relay, now)
    ||| datagram_challenged(before, packet, now) && r is Err && r->Err_0 is Other && after
        == after_failed_nonce(before, packet, now)
}

/// The action that sends `outcome` to `to`, or the error in its place.
pub fn send_action(to: TransportAddress, outcome: Result<Vec<u8>, Error>) -> (r: Result<
    Vec<Action>,
    Error,
>)
    ensures
        forall|spec: Result<Seq<u8>, Error>| #[trigger]
            same_outcome(outcome, spec) ==> same_actions(r, send_to(to, spec)),
{
    match outcome {
        Err(e) => Err(e),
        Ok(packet) => {
            let mut actions: Vec<Action> = Vec::new();
            let ghost p = packet@;
            actions.push(Action::Send { to, packet });
            assert(action_views(actions@) =~= seq![ActionView::Send { to, packet: p }]);
            Ok(actions)
        },
    }
}

impl Request {
    /// The bytes of the datagram.
    pub closed spec fn packet(&self) -> Seq<u8> {
        self.packet@
    }

    /// Where the datagram came from.
    pub closed spec fn src(&self) -> TransportAddress {
        self.src_address
    }

    /// The kind of the datagram.
    pub closed spec fn kind(&self) -> RequestType {
        self.kind
    }

    /// The kind is the one that the bytes have, and is not unknown.
    pub closed spec fn wf(&self) -> bool {
        self.kind.0 == kind_of(self.packet@) && self.kind.0 != UNKNOWN_PACKET
    }

    /// A datagram of `packet` from `addr`. A datagram that is neither
    /// ChannelData nor STUN is refused.
    pub fn new(packet: Vec<u8>, addr: TransportAddress) -> (r: Result<Request, Error>)
        ensures
            kind_of(packet@) == UNKNOWN_PACKET ==> r == Err::<Request, Error>(
                Error::ErrRequestTypeUnknown,
            ),
            kind_of(packet@) != UNKNOWN_PACKET ==> r is Ok && r->Ok_0.wf() && r->Ok_0.packet()
                == packet@ && r->Ok_0.src() == addr && r->Ok_0.kind() == RequestType(
                kind_of(packet@),
            ),
    {
        let kind = classify(packet.as_slice());
        if kind == UNKNOWN_PACKET {
            return Err(Error::ErrRequestTypeUnknown);
        }
        Ok(Request { packet, src_address: addr, kind: RequestType(kind) })
    }

    /// Whether `packet` is a ChannelData frame by its first two bits.
    pub fn is_channel_data(packet: Vec<u8>) -> (r: bool)
        ensures
            r == (kind_of(packet@) == CHANNEL_DATA),
    {
        classify(packet.as_slice()) == CHANNEL_DATA
    }

    /// The kind of the datagram.
    pub fn request_type(&self) -> (kind: RequestType)
        ensures
            kind == self.kind(),
    {
        self.kind
    }

    /// Where the datagram came from.
    pub fn source(&self) -> (src: TransportAddress)
        ensures
            src == self.src(),
    {
        self.src_address
    }

    /// Checks the credentials of the request `message`, which is this
    /// datagram decoded. The nonce that the request carries is looked at; a
    /// request that is not authentic is challenged with a fresh nonce, which
    /// is recorded. Fails where the clock gives no nonce, where the fresh
    /// nonce is out already, and where the challenge cannot be written.
    pub fn authenticate_request(
        &mut self,
        state: &mut ServerState,
        message: &Message,
        now: u64,
    ) -> (r: Result<Authentication, Error>)
        requires
            old(state).wf(),
        ensures
            final(state).wf(),
            *final(self) == *old(self),
            old(state)@.verified(message@, old(self).packet(), now) ==> r == Ok::<
                Authentication,
                Error,
            >(Authentication::Accepted) && final(state)@ == old(state)@.with_nonces(
                old(state)@.nonces_checked(message@, now),
            ),
            !old(state)@.verified(message@, old(self).packet(), now) ==> r != Ok::<
                Authentication,
                Error,
            >(Authentication::Accepted) && challenge_outcome(
                old(state)@.with_nonces(old(state)@.nonces_checked(message@, now)),
                final(state)@,
                r,
                message@,
                now,
            ),
    {
        if state.verify(message, self.packet.as_slice(), now).is_ok() {
            return Ok(Authentication::Accepted);
        }
        let nonce = match build_nonce() {
            Err(e) => {
                return Err(e);
            },
            Ok(n) => n,
        };
        let ghost checked = state@;
        let ghost fresh = nonce@;
        let r = match state.respond_with_nonce(message, nonce, now) {
            Err(e) => Err(e),
            Ok(response) => Ok(Authentication::Challenged { response }),
        };
        assert(challenged_with(fresh, checked, state@, r, message@, now));
        r
    }

    /// Serves the Allocate request `message`, which is this datagram
    /// decoded: checks its credentials, and where it is authentic, gives
    /// the sender an allocation at `relay` and answers. A request of another
    /// method is served as that method calls for.
    pub fn handle_allocate_request(
        &mut self,
        state: &mut ServerState,
        message: &Message,
        relay: TransportAddress,
        now: u64,
    ) -> (r: Result<Vec<Action>, Error>)
        requires
            old(state).wf(),
        ensures
            final(state).wf(),
            *final(self) == *old(self),
            request_outcome(
                old(state)@,
                final(state)@,
                r,
                message@,
                old(self).packet(),
                old(self).src(),
                relay,
                now,
            ),
    {
        if message.method == METHOD_ALLOCATE || message.method == METHOD_REFRESH || message.method
            == METHOD_CREATE_PERMISSION || message.method == METHOD_CHANNEL_BIND {
            self.handle_credentialed(state, message, relay, now)
        } else {
            self.handle_plain(state, message, relay, now)
        }
    }

    /// Serves a request of a method that needs no credentials: a Binding
    /// request is answered with the sender's address, and a request of a
    /// method that is not served with 400.
    fn handle_plain(
        &self,
        state: &ServerState,
        message: &Message,
        relay: TransportAddress,
        now: u64,
    ) -> (r: Result<Vec<Action>, Error>)
        requires
            !needs_credentials(message@.method),
        ensures
            request_outcome(state@, state@, r, message@, self.packet(), self.src(), relay, now),
    {
        let src = self.src_address;
        let r = if message.method == METHOD_BINDING {
            send_action(src, ServerState::binding(message, src))
        } else {
            send_action(src, emit_error(message, CODE_BAD_REQUEST))
        };
        assert(request_served_with(
            nonce_of(0, 0),
            state@,
            state@,
            r,
            message@,
            self.packet(),
            src,
            relay,
            now,
        ));
        r
    }

    /// Serves a request of a method that needs credentials.
    fn handle_credentialed(
        &mut self,
        state: &mut ServerState,
        message: &Message,
        relay: TransportAddress,
        now: u64,
    ) -> (r: Result<Vec<Action>, Error>)
        requires
            old(state).wf(),
            needs_credentials(message@.method),
        ensures
            final(state).wf(),
            *final(self) == *old(self),
            request_outcome(
                old(state)@,
                final(state)@,
                r,
                message@,
                old(self).packet(),
                old(self).src(),
                relay,
                now,
            ),
    {
        let ghost before = state@;
        let ghost checked = before.with_nonces(before.nonces_checked(message@, now));
        let src = self.src_address;
        let ghost packet = self.packet();
        let authentication = self.authenticate_request(state, message, now);
        match authentication {
            Err(e) => {
                proof {
                    if !(e is Other && state@ == checked) {
                        let nonce = choose|nonce: Seq<u8>|
                            challenged_with(nonce, checked, state@, authentication, message@, now);
                        assert(request_step(before, message@, packet, src, relay, nonce, now)
                            == checked.challenge_step(message@, nonce, now));
                        assert(request_served_with(
                            nonce,
                            before,
                            state@,
                            Err::<Vec<Action>, Error>(e),
                            message@,
                            packet,
                            src,
                            relay,
                            now,
                        ));
                    }
                }
                Err(e)
            },
            Ok(Authentication::Challenged { response }) => {
                let r = send_action(src, Ok(response));
                proof {
                    let nonce = choose|nonce: Seq<u8>|
                        challenged_with(nonce, checked, state@, authentication, message@, now);
                    assert(request_step(before, message@, packet, src, relay, nonce, now)
                        == checked.challenge_step(message@, nonce, now));
                    assert(request_served_with(
                        nonce,
                        before,
                        state@,
                        r,
                        message@,
                        packet,
                        src,
                        relay,
                        now,
                    ));
                }
                r
            },
            Ok(Authentication::Accepted) => {
                let released = state.released_by(message, src, now);
                let outcome = if message.method == METHOD_ALLOCATE {
                    state.allocate(message, src, relay, now)
                } else if message.method == METHOD_REFRESH {
                    state.refresh(message, src, now)
                } else if message.method == METHOD_CREATE_PERMISSION {
                    state.create_permission(message, src, now)
                } else {
                    state.channel_bind(message, src, now)
                };
                let ghost after = state@;
                proof {
                    assert(request_step(before, message@, packet, src, relay, nonce_of(0, 0), now)
                        == served_step(checked, message@, src, relay, now));
                }
                let r = match send_action(src, outcome) {
                    Err(e) => Err(e),
                    Ok(mut actions) => {
                        let ghost first = action_views(actions@);
                        let ghost rest = action_views(released@);
                        let mut released = released;
                        if released.len() > 0 {
                            actions.append(&mut released);
                            assert(action_views(actions@) =~= first + rest);
                        }
                        Ok(actions)
                    },
                };
                assert(request_served_with(
                    nonce_of(0, 0),
                    before,
                    after,
                    r,
                    message@,
                    packet,
                    src,
                    relay,
                    now,
                ));
                r
            },
        }
    }

    /// Serves this datagram as a STUN packet: decodes it, serves an
    /// indication without a response, and answers a request.
    pub fn handle_turn_packet(
        &mut self,
        state: &mut ServerState,
        relay: TransportAddress,
        now: u64,
    ) -> (r: Result<Vec<Action>, Error>)
        requires
            old(state).wf(),
        ensures
            final(state).wf(),
            *final(self) == *old(self),
            stun_outcome(
                old(state)@,
                final(state)@,
                r,
                old(self).packet(),
                old(self).src(),
                relay,
                now,
            ),
    {
        let ghost before = state@;
        let ghost packet = self.packet();
        let ghost zero = nonce_of(0, 0);
        let src = self.src_address;
        let message = match Message::decode_from_packet(self.packet.as_slice()) {
            Err(e) => {
                assert(stun_served_with(
                    zero,
                    before,
                    state@,
                    Err::<Vec<Action>, Error>(e),
                    packet,
                    src,
                    relay,
                    now,
                ));
                return Err(e);
            },
            Ok(m) => m,
        };
        assert(parse_message(packet) == Some(message@));
        match message.class {
            Class::Indication => {
                let r = Ok(state.indication(&message, src, now));
                assert(stun_served_with(zero, before, state@, r, packet, src, relay, now));
                r
            },
            Class::Request => {
                let r = if message.method == METHOD_ALLOCATE {
                    self.handle_allocate_request(state, &message, relay, now)
                } else if message.method == METHOD_REFRESH || message.method
                    == METHOD_CREATE_PERMISSION || message.method == METHOD_CHANNEL_BIND {
                    self.handle_credentialed(state, &message, relay, now)
                } else {
                    self.handle_plain(state, &message, relay, now)
                };
                proof {
                    if !(needs_credentials(message@.method) && !before.verified(message@, packet, now)
                        && r is Err && r->Err_0 is Other && state@ == before.with_nonces(
                        before.nonces_checked(message@, now),
                    )) {
                        let nonce = choose|nonce: Seq<u8>|
                            request_served_with(
                                nonce,
                                before,
                                state@,
                                r,
                                message@,
                                packet,
                                src,
                                relay,
                                now,
                            );
                        assert(stun_served_with(nonce, before, state@, r, packet, src, relay, now));
                    }
                }
                r
            },
            _ => {
                let actions: Vec<Action> = Vec::new();
                assert(action_views(actions@) =~= Seq::<ActionView>::empty());
                let r = Ok(actions);
                assert(stun_served_with(zero, before, state@, r, packet, src, relay, now));
                r
            },
        }
    }

    /// Serves this datagram as a ChannelData frame: its data is relayed to
    /// the peer that the channel is bound to, without a response.
    pub fn handle_channel_data(&mut self, state: &mut ServerState, now: u64) -> (r: Result<
        Vec<Action>,
        Error,
    >)
        requires
            old(state).wf(),
        ensures
            final(state).wf(),
            *final(self) == *old(self),
            final(state)@ == old(state)@,
            same_actions(r, old(state)@.channel_data_step(old(self).packet(), old(self).src(), now)),
    {
        state.channel_data(self.packet.as_slice(), self.src_address, now)
    }

    /// Serves this datagram. `relay` is the relay address that an allocation
    /// gets, should the datagram create one.
    pub fn handle_request(&mut self, state: &mut ServerState, relay: TransportAddress, now: u64) -> (r:
        Result<Vec<Action>, Error>)
        requires
            old(self).wf(),
            old(state).wf(),
        ensures
            final(state).wf(),
            *final(self) == *old(self),
            datagram_outcome(
                old(state)@,
                final(state)@,
                r,
                old(self).packet(),
                old(self).src(),
                relay,
                now,
            ),
    {
        let ghost before = state@;
        let ghost packet = self.packet();
        let ghost src = self.src();
        if self.kind.0 == STUN_PACKET {
            let r = self.handle_turn_packet(state, relay, now);
            proof {
                if !(datagram_challenged(before, packet, now) && r is Err && r->Err_0 is Other
                    && state@ == after_failed_nonce(before, packet, now)) {
                    let nonce = choose|nonce: Seq<u8>|
                        stun_served_with(nonce, before, state@, r, packet, src, relay, now);
                    assert(datagram_served_with(
                        nonce,
                        before,
                        state@,
                        r,
                        packet,
                        src,
                        relay,
                        now,
                    ));
                }
            }
            r
        } else {
            let r = self.handle_channel_data(state, now);
            assert(datagram_served_with(
                nonce_of(0, 0),
                before,
                state@,
                r,
                packet,
                src,
                relay,
                now,
            ));
            r
        }
    }
}

/// Whether `after` and `r` are what a challenge with the nonce `nonce` makes
/// of the state `checked` and how the check of credentials ends: the nonce
/// is one that `build_nonce` makes, of 32 bytes, and `after` and `r` are
/// what `challenge_step` gives with it.
pub open spec fn challenged_with(
    nonce: Seq<u8>,
    checked: StateView,
    after: StateView,
    r: Result<Authentication, Error>,
    m: MessageView,
    now: u64,
) -> bool {
    &&& made(nonce)
    &&& nonce.len() == NONCE_LEN
    &&& after == checked.challenge_step(m, nonce, now).0
    &&& same_outcome(challenge_bytes(r), checked.challenge_step(m, nonce, now).1)
}

/// Whether `after` and `r` are what a challenge makes of the state
/// `checked` and how the check of credentials ends, whatever nonce was made:
/// either they are what `challenge_step` gives for the nonce of some reading
/// of the clock and some random number, or no nonce could be made for want
/// of a clock, `r` is that error and the state is as it was.
pub open spec fn challenge_outcome(
    checked: StateView,
    after: StateView,
    r: Result<Authentication, Error>,
    m: MessageView,
    now: u64,
) -> bool {
    ||| exists|nonce: Seq<u8>| #[trigger] challenged_with(nonce, checked, after, r, m, now)
    ||| r is Err && r->Err_0 is Other && after == checked
}

/// The bytes of the challenge in `r`, or the error in `r`.
pub open spec fn challenge_bytes(r: Result<Authentication, Error>) -> Result<Vec<u8>, Error> {
    match r {
        Ok(Authentication::Challenged { response }) => Ok(response),
        Ok(Authentication::Accepted) => Err(Error::Unauthorized),
        Err(e) => Err(e),
    }
}

/// Whether `after` and `r` are what the request `m` makes of the state
/// `before` and what is to be done, where `nonce` is the nonce that was made
/// for a challenge.
pub open spec fn request_served_with(
    nonce: Seq<u8>,
    before: StateView,
    after: StateView,
    r: Result<Vec<Action>, Error>,
    m: MessageView,
    packet: Seq<u8>,
    src: TransportAddress,
    relay: TransportAddress,
    now: u64,
) -> bool {
    &&& made(nonce)
    &&& needs_credentials(m.method) && !before.verified(m, packet, now) ==> nonce.len()
        == NONCE_LEN
    &&& after == request_step(before, m, packet, src, relay, nonce, now).0
    &&& same_actions(r, request_actions(before, m, packet, src, relay, nonce, now))
}

/// Whether `after` and `r` are what the request `m` makes of the state
/// `before` and what is to be done, whatever nonce was made for a challenge.
pub open spec fn request_outcome(
    before: StateView,
    after: StateView,
    r: Result<Vec<Action>, Error>,
    m: MessageView,
    packet: Seq<u8>,
    src: TransportAddress,
    relay: TransportAddress,
    now: u64,
) -> bool {
    ||| exists|nonce: Seq<u8>| #[trigger]
        request_served_with(nonce, before, after, r, m, packet, src, relay, now)
    ||| needs_credentials(m.method) && !before.verified(m, packet, now) && r is Err && r->Err_0 is Other
        && after == before.with_nonces(before.nonces_checked(m, now))
}

/// Whether `after` and `r` are what the STUN packet `packet` makes of the
/// state `before` and what is to be done, where `nonce` is the nonce that
/// was made for a challenge.
pub open spec fn stun_served_with(
    nonce: Seq<u8>,
    before: StateView,
    after: StateView,
    r: Result<Vec<Action>, Error>,
    packet: Seq<u8>,
    src: TransportAddress,
    relay: TransportAddress,
    now: u64,
) -> bool {
    &&& made(nonce)
    &&& parse_message(packet) is Some && is_challenged(
        before,
        parse_message(packet)->0,
        packet,
        now,
    ) ==> nonce.len() == NONCE_LEN
    &&& after == stun_step(before, packet, src, relay, nonce, now).0
    &&& same_actions(r, stun_step(before, packet, src, relay, nonce, now).1)
}

/// Whether `after` and `r` are what the STUN packet `packet` makes of the
/// state `before` and what is to be done, whatever nonce was made for a
/// challenge.
pub open spec fn stun_outcome(
    before: StateView,
    after: StateView,
    r: Result<Vec<Action>, Error>,
    packet: Seq<u8>,
    src: TransportAddress,
    relay: TransportAddress,
    now: u64,
) -> bool {
    ||| exists|nonce: Seq<u8>| #[trigger]
        stun_served_with(nonce, before, after, r, packet, src, relay, now)
    ||| parse_message(packet) is Some && is_challenged(before, parse_message(packet)->0, packet, now)
        && r is Err && r->Err_0 is Other && after == after_failed_nonce(before, packet, now)
}

/// What `emit` writes parses as the message that was written.
pub proof fn lemma_emitted_parses(m: MessageView)
    requires
        emit(m) is Ok,
    ensures
        parse_message(emit(m)->Ok_0) == Some(m),
{
    lemma_round_trip(m);
}

/// A request that needs credentials and is not authentic changes no
/// allocation: it is challenged, and nothing else is done.
pub proof fn lemma_unauthentic_changes_no_allocation(
    s: StateView,
    m: MessageView,
    packet: Seq<u8>,
    src: TransportAddress,
    relay: TransportAddress,
    nonce: Seq<u8>,
    now: u64,
)
    requires
        needs_credentials(m.method),
        !s.verified(m, packet, now),
    ensures
        request_step(s, m, packet, src, relay, nonce, now).0.allocations == s.allocations,
        request_step(s, m, packet, src, relay, nonce, now).1 is Ok ==> parse_message(
            request_step(s, m, packet, src, relay, nonce, now).1->Ok_0,
        ) == Some(challenge(m, nonce, s.realm)),
{
    let checked = s.with_nonces(s.nonces_checked(m, now));
    if checked.challenge_step(m, nonce, now).1 is Ok {
        lemma_emitted_parses(challenge(m, nonce, s.realm));
    }
}

/// Every response to a request is a message of the request's method with
/// the request's transaction id.
pub proof fn lemma_response_matches_request(
    s: StateView,
    m: MessageView,
    packet: Seq<u8>,
    src: TransportAddress,
    relay: TransportAddress,
    nonce: Seq<u8>,
    now: u64,
)
    requires
        request_step(s, m, packet, src, relay, nonce, now).1 is Ok,
    ensures
        parse_message(request_step(s, m, packet, src, relay, nonce, now).1->Ok_0) is Some,
        parse_message(
            request_step(s, m, packet, src, relay, nonce, now).1->Ok_0,
        )->0.transaction_id == m.transaction_id,
        parse_message(request_step(s, m, packet, src, relay, nonce, now).1->Ok_0)->0.method
            == m.method,
        parse_message(request_step(s, m, packet, src, relay, nonce, now).1->Ok_0)->0.class
            == Class::SuccessResponse || parse_message(
            request_step(s, m, packet, src, relay, nonce, now).1->Ok_0,
        )->0.class == Class::ErrorResponse,
{
    let bytes = request_step(s, m, packet, src, relay, nonce, now).1->Ok_0;
    let checked = s.with_nonces(s.nonces_checked(m, now));
    assert(exists|r: MessageView|
        emit(r) == Ok::<Seq<u8>, Error>(bytes) && r.transaction_id == m.transaction_id && r.method
            == m.method && (r.class == Class::SuccessResponse || r.class == Class::ErrorResponse)) by {
        if m.method == METHOD_BINDING {
            lemma_is_reply(m, Class::SuccessResponse, seq![AttributeView::XorMappedAddress(src)], bytes);
        } else if needs_credentials(m.method) {
            if s.verified(m, packet, now) {
                lemma_served_is_reply(checked, m, src, relay, now);
            } else {
                lemma_is_reply(
                    m,
                    Class::ErrorResponse,
                    challenge(m, nonce, s.realm).attributes,
                    bytes,
                );
            }
        } else {
            lemma_is_reply(
                m,
                Class::ErrorResponse,
                error_reply(m, CODE_BAD_REQUEST).attributes,
                bytes,
            );
        }
    }
    let r = choose|r: MessageView|
        emit(r) == Ok::<Seq<u8>, Error>(bytes) && r.transaction_id == m.transaction_id && r.method
            == m.method && (r.class == Class::SuccessResponse || r.class == Class::ErrorResponse);
    lemma_emitted_parses(r);
}

/// A reply to `m` that `emit` writes as `bytes` is a response of the
/// method and with the transaction id of `m`.
proof fn lemma_is_reply(
    m: MessageView,
    class: Class,
    attributes: Seq<AttributeView>,
    bytes: Seq<u8>,
)
    requires
        class == Class::SuccessResponse || class == Class::ErrorResponse,
        emit(reply(m, class, attributes)) == Ok::<Seq<u8>, Error>(bytes),
    ensures
        exists|r: MessageView|
            emit(r) == Ok::<Seq<u8>, Error>(bytes) && r.transaction_id == m.transaction_id
                && r.method == m.method && (r.class == Class::SuccessResponse || r.class
                == Class::ErrorResponse),
{
    let r = reply(m, class, attributes);
    assert(emit(r) == Ok::<Seq<u8>, Error>(bytes) && r.transaction_id == m.transaction_id);
}

/// What a served request is answered with is a response of the method and
/// with the transaction id of the request.
proof fn lemma_served_is_reply(
    s: StateView,
    m: MessageView,
    src: TransportAddress,
    relay: TransportAddress,
    now: u64,
)
    requires
        served_step(s, m, src, relay, now).1 is Ok,
    ensures
        exists|r: MessageView|
            emit(r) == served_step(s, m, src, relay, now).1 && r.transaction_id
                == m.transaction_id && r.method == m.method && (r.class == Class::SuccessResponse
                || r.class == Class::ErrorResponse),
{
    let bytes = served_step(s, m, src, relay, now).1->Ok_0;
    let owner = s.owner_of(src);
    let none = Seq::<AttributeView>::empty();
    let bad = error_reply(m, CODE_BAD_REQUEST).attributes;
    let mismatch = error_reply(m, CODE_ALLOCATION_MISMATCH).attributes;
    if m.method == METHOD_ALLOCATE {
        match m.requested_transport() {
            None => {
                lemma_is_reply(m, Class::ErrorResponse, bad, bytes);
            },
            Some(protocol) => {
                let step = create_step(
                    s.allocations,
                    s.policy,
                    owner,
                    StateView::user(m),
                    protocol,
                    m.lifetime(),
                    relay,
                    now,
                );
                match step.1 {
                    Ok(granted) => {
                        lemma_is_reply(
                            m,
                            Class::SuccessResponse,
                            seq![
                                AttributeView::XorRelayedAddress(relay),
                                AttributeView::Lifetime(granted),
                                AttributeView::XorMappedAddress(src),
                            ],
                            bytes,
                        );
                    },
                    Err(e) => {
                        lemma_is_reply(m, Class::ErrorResponse, error_reply(m, code_for(e)).attributes, bytes);
                    },
                }
            },
        }
    } else if m.method == METHOD_REFRESH {
        if s.foreign(m, src, now) {
            lemma_is_reply(m, Class::ErrorResponse, mismatch, bytes);
        } else {
            match refresh_step(s.allocations, s.policy, owner, m.lifetime(), now).1 {
                Ok(granted) => {
                    lemma_is_reply(
                        m,
                        Class::SuccessResponse,
                        seq![AttributeView::Lifetime(granted)],
                        bytes,
                    );
                },
                Err(e) => {
                    lemma_is_reply(m, Class::ErrorResponse, error_reply(m, code_for(e)).attributes, bytes);
                },
            }
        }
    } else if m.method == METHOD_CREATE_PERMISSION {
        match m.peer_address() {
            None => {
                lemma_is_reply(m, Class::ErrorResponse, bad, bytes);
            },
            Some(peer) => {
                if s.foreign(m, src, now) {
                    lemma_is_reply(m, Class::ErrorResponse, mismatch, bytes);
                } else {
                    match permission_step(s.allocations, s.policy, owner, peer.ip, now).1 {
                        Ok(_) => {
                            lemma_is_reply(m, Class::SuccessResponse, none, bytes);
                        },
                        Err(e) => {
                            lemma_is_reply(
                                m,
                                Class::ErrorResponse,
                                error_reply(m, code_for(e)).attributes,
                                bytes,
                            );
                        },
                    }
                }
            },
        }
    } else if m.channel_number() is None || m.peer_address() is None {
        lemma_is_reply(m, Class::ErrorResponse, bad, bytes);
    } else if s.foreign(m, src, now) {
        lemma_is_reply(m, Class::ErrorResponse, mismatch, bytes);
    } else {
        match bind_step(
            s.allocations,
            s.policy,
            owner,
            m.channel_number()->0,
            m.peer_address()->0,
            now,
        ).1 {
            Ok(_) => {
                lemma_is_reply(m, Class::SuccessResponse, none, bytes);
            },
            Err(e) => {
                lemma_is_reply(m, Class::ErrorResponse, error_reply(m, code_for(e)).attributes, bytes);
            },
        }
    }
}

/// An authentic Refresh request with a lifetime of zero, from a client that
/// holds an allocation that its user asked for, ends the allocation: the
/// response is sent, the relay
/// address of the allocation is released, and the client holds no allocation
/// any more.
pub proof fn lemma_refresh_zero_releases(
    s: StateView,
    packet: Seq<u8>,
    src: TransportAddress,
    relay: TransportAddress,
    nonce: Seq<u8>,
    now: u64,
)
    requires
        parse_message(packet) is Some,
        parse_message(packet)->0.class == Class::Request,
        parse_message(packet)->0.method == METHOD_REFRESH,
        parse_message(packet)->0.lifetime() == Some(0u32),
        s.verified(parse_message(packet)->0, packet, now),
        crate::table::owns_live(
            s.allocations,
            s.owner_of(src),
            StateView::user(parse_message(packet)->0),
            now,
        ),
    ensures
        stun_step(s, packet, src, relay, nonce, now).1 is Ok,
        stun_step(s, packet, src, relay, nonce, now).1->Ok_0.len() == 2,
        stun_step(s, packet, src, relay, nonce, now).1->Ok_0[0] is Send,
        stun_step(s, packet, src, relay, nonce, now).1->Ok_0[1] == (ActionView::Release {
            relay: s.allocations[s.owner_of(src)].relay,
        }),
        !stun_step(s, packet, src, relay, nonce, now).0.allocations.contains_key(s.owner_of(src)),
{
    let m = parse_message(packet)->0;
    let answer = reply(m, Class::SuccessResponse, seq![AttributeView::Lifetime(0u32)]);
    let a = AttributeView::Lifetime(0u32);
    crate::message::lemma_parsed_message_valid(packet);
    crate::message::lemma_encode_attrs_push(Seq::<AttributeView>::empty(), a, m.transaction_id);
    assert(Seq::<AttributeView>::empty().push(a) =~= seq![a]);
    assert(a.encode(m.transaction_id).len() == 8);
    assert(answer.valid());
    let checked = s.with_nonces(s.nonces_checked(m, now));
    assert(checked.released_by(m, src, now).len() == 1);
}

} // verus!
