//! The relay as a whole: its configuration, and the steps that the
//! surroundings drive it with, one for each datagram that arrives and one for
//! the passing of time.

use vstd::prelude::*;
use crate::address::{TransactionId, TransportAddress};
use crate::allocation::{AllocationView, FiveTuple, LifetimePolicy};
use crate::channel::{ChannelData, ChannelDataView};
use crate::engine::{
    Action, ActionView, Credential, ServerState, StateView, action_views, credential_views,
    data_indication, emit, same_actions,
};
use crate::attribute::Attribute;
use crate::error::Error;
use crate::message::{Class, METHOD_DATA, Message};
use crate::request::{Request, datagram_outcome, send_action, send_to};
use crate::table::{Inbound, admits, expired_relay, holds_live, routes};
use crate::allocation::swept;
use crate::nonce::expired;

verus! {

/// The largest datagram that the server reads.
pub const INBOUND_MTU: usize = 1500;

/// What the relay is configured with.
#[derive(Debug, Clone, PartialEq, Eq)]
pub struct ServerConfig {
    /// The realm that the server challenges with.
    pub realm: String,
    /// The address at which the server listens.
    pub server_address: TransportAddress,
    /// Seconds for which a nonce is accepted.
    pub nonce_lifetime: u64,
    /// The lifetimes that the relay grants.
    pub lifetimes: LifetimePolicy,
    /// The users that may hold allocations.
    pub credentials: Vec<Credential>,
}

impl ServerConfig {
    /// What a configuration must meet: the realm is not empty, nonces live
    /// for a while, and the lifetimes are in order.
    pub open spec fn valid(&self) -> bool {
        self.realm@.len() > 0 && self.nonce_lifetime > 0 && self.lifetimes.valid()
    }

    /// The realm as the bytes that go on the wire.
    pub open spec fn realm_bytes(&self) -> Seq<u8> {
        vstd::utf8::encode_utf8(self.realm@)
    }

    /// What is wrong with a configuration that is not valid: the first of an
    /// empty realm, a nonce lifetime of zero, and lifetimes out of order.
    pub open spec fn complaint(&self) -> Seq<char> {
        if self.realm@.len() == 0 {
            "turn: realm is empty"@
        } else if self.nonce_lifetime == 0 {
            "turn: nonce lifetime is zero"@
        } else {
            "turn: lifetimes are out of order"@
        }
    }

    /// Whether the configuration can be served with, and what is wrong with
    /// it where it cannot.
    pub fn validate(&self) -> (r: Result<(), Error>)
        ensures
            r is Ok == self.valid(),
            r is Err ==> r->Err_0 is Other && r->Err_0->Other_0@ == self.complaint(),
    {
        if self.realm.as_str().is_empty() {
            return Err(Error::Other("turn: realm is empty".to_owned()));
        }
        if self.nonce_lifetime == 0 {
            return Err(Error::Other("turn: nonce lifetime is zero".to_owned()));
        }
        if !(0 < self.lifetimes.min && self.lifetimes.min <= self.lifetimes.default
            && self.lifetimes.default <= self.lifetimes.max) {
            return Err(Error::Other("turn: lifetimes are out of order".to_owned()));
        }
        Ok(())
    }
}

/// The relay.
pub struct Server {
    state: ServerState,
    closed: bool,
}

/// What is sent to a client for a datagram from `peer` that takes `route`.
pub open spec fn inbound_step(
    route: Inbound,
    peer: TransportAddress,
    payload: Seq<u8>,
    tid: TransactionId,
) -> Result<Seq<ActionView>, Error> {
    match route {
        Inbound::Drop => Ok(Seq::<ActionView>::empty()),
        Inbound::Data { client } => send_to(client.client, emit(data_indication(peer, payload, tid))),
        Inbound::Channel { client, number } => if (ChannelDataView { number, data: payload }).valid() {
            Ok(
                seq![
                    ActionView::Send {
                        to: client.client,
                        packet: (ChannelDataView { number, data: payload }).encode(),
                    },
                ],
            )
        } else {
            Err(Error::MessageTooLong)
        },
    }
}

/// Whether `a` releases the relay address of an allocation in `m` that is
/// no longer there at `now`.
pub open spec fn releases_expired(a: Action, m: Map<FiveTuple, AllocationView>, now: u64) -> bool {
    match a {
        Action::Release { relay } => expired_relay(m, relay, now),
        _ => false,
    }
}

/// Whether `a` releases the relay address of an allocation in `m`.
pub open spec fn releases_held(a: Action, m: Map<FiveTuple, AllocationView>) -> bool {
    match a {
        Action::Release { relay } => exists|o: FiveTuple| #[trigger]
            m.contains_key(o) && m[o].relay == relay,
        _ => false,
    }
}

/// The actions that release `relays`, in their order.
pub open spec fn releases(relays: Seq<TransportAddress>) -> Seq<ActionView> {
    Seq::new(relays.len(), |i: int| ActionView::Release { relay: relays[i] })
}

impl Server {
    /// The state of the relay.
    pub closed spec fn state(&self) -> StateView {
        self.state@
    }

    /// Whether the server was closed.
    pub closed spec fn is_closed(&self) -> bool {
        self.closed
    }

    /// The state is well-formed.
    pub closed spec fn wf(&self) -> bool {
        self.state.wf()
    }

    /// A relay that serves with `config`, with no nonce out and no
    /// allocation. A configuration that is not valid is refused.
    pub fn new(config: ServerConfig) -> (r: Result<Server, Error>)
        ensures
            r is Ok == config.valid(),
            r is Err ==> r->Err_0 is Other && r->Err_0->Other_0@ == config.complaint(),
            r is Ok ==> r->Ok_0.wf() && !r->Ok_0.is_closed() && r->Ok_0.state() == (StateView {
                realm: config.realm_bytes(),
                server: config.server_address,
                nonce_lifetime: config.nonce_lifetime,
                credentials: credential_views(config.credentials@),
                policy: config.lifetimes,
                nonces: Map::<Seq<u8>, u64>::empty(),
                allocations: Map::<FiveTuple, AllocationView>::empty(),
            }),
    {
        match config.validate() {
            Err(e) => {
                return Err(e);
            },
            Ok(()) => {},
        }
        let realm = vstd::slice::slice_to_vec(config.realm.as_str().as_bytes());
        let state = ServerState::new(
            realm,
            config.server_address,
            config.nonce_lifetime,
            config.credentials,
            config.lifetimes,
        );
        Ok(Server { state, closed: false })
    }

    /// Whether the server was closed.
    pub fn closed(&self) -> (r: bool)
        ensures
            r == self.is_closed(),
    {
        self.closed
    }

    /// Whether the client at `src` holds an allocation that is still there
    /// at `now`.
    pub fn has_allocation(&self, src: TransportAddress, now: u64) -> (r: bool)
        requires
            self.wf(),
        ensures
            r == holds_live(self.state().allocations, self.state().owner_of(src), now),
    {
        let owner = self.state.owner_of(src);
        self.state.allocations.has_live(&owner, now)
    }

    /// The relay address of the allocation that the client at `src` holds
    /// at `now`.
    pub fn relay_of(&self, src: TransportAddress, now: u64) -> (r: Option<TransportAddress>)
        requires
            self.wf(),
        ensures
            r is Some == holds_live(self.state().allocations, self.state().owner_of(src), now),
            r is Some ==> r->0 == self.state().allocations[self.state().owner_of(src)].relay,
    {
        let owner = self.state.owner_of(src);
        self.state.allocations.relay_of(&owner, now)
    }

    /// When `nonce` was issued, if it is out.
    pub fn nonce_issued_at(&self, nonce: &[u8]) -> (r: Option<u64>)
        requires
            self.wf(),
        ensures
            r is Some == self.state().nonces.contains_key(nonce@),
            r is Some ==> r->0 == self.state().nonces[nonce@],
    {
        self.state.nonces.issued_at(nonce)
    }

    /// Serves the datagram `packet` that came from `src` at `now`. `relay`
    /// is the relay address that an allocation gets, should the datagram
    /// create one. A closed server serves nothing.
    pub fn handle_datagram(
        &mut self,
        packet: Vec<u8>,
        src: TransportAddress,
        relay: TransportAddress,
        now: u64,
    ) -> (r: Result<Vec<Action>, Error>)
        requires
            old(self).wf(),
        ensures
            final(self).wf(),
            final(self).is_closed() == old(self).is_closed(),
            old(self).is_closed() ==> r == Err::<Vec<Action>, Error>(Error::TransportClosed)
                && final(self).state() == old(self).state(),
            !old(self).is_closed() ==> datagram_outcome(
                old(self).state(),
                final(self).state(),
                r,
                packet@,
                src,
                relay,
                now,
            ),
    {
        if self.closed {
            return Err(Error::TransportClosed);
        }
        let ghost before = self.state@;
        let ghost bytes = packet@;
        match Request::new(packet, src) {
            Err(e) => {
                assert(crate::request::datagram_served_with(
                    crate::nonce::nonce_of(0, 0),
                    before,
                    before,
                    Err::<Vec<Action>, Error>(e),
                    bytes,
                    src,
                    relay,
                    now,
                ));
                Err(e)
            },
            Ok(mut request) => request.handle_request(&mut self.state, relay, now),
        }
    }

    /// Serves the datagram `payload` that came from `peer` to the relay
    /// address `relay` at `now`: it is passed on to the client that holds a
    /// permission for the peer, and dropped where there is none.
    pub fn handle_relay_datagram(
        &self,
        relay: TransportAddress,
        peer: TransportAddress,
        payload: Vec<u8>,
        now: u64,
    ) -> (r: Result<Vec<Action>, Error>)
        requires
            self.wf(),
        ensures
            self.is_closed() ==> r == Err::<Vec<Action>, Error>(Error::TransportClosed),
            !self.is_closed() ==> exists|route: Inbound, tid: TransactionId|
                routes(self.state().allocations, relay, peer, now, route) && same_actions(
                    r,
                    #[trigger] inbound_step(route, peer, payload@, tid),
                ),
            !self.is_closed() && (forall|o: FiveTuple|
                !admits(self.state().allocations, o, relay, peer.ip, now)) ==> r is Ok
                && r->Ok_0@.len() == 0,
    {
        if self.closed {
            return Err(Error::TransportClosed);
        }
        let route = self.state.allocations.route_inbound(&relay, &peer, now);
        let ghost data = payload@;
        let r = deliver(route, peer, payload);
        proof {
            let tid = choose|tid: TransactionId|
                same_actions(r, #[trigger] inbound_step(route, peer, data, tid));
            assert(routes(self.state().allocations, relay, peer, now, route) && same_actions(
                r,
                inbound_step(route, peer, data, tid),
            ));
        }
        r
    }

    /// Lets time pass up to `now`: the allocations, permissions, channel
    /// bindings and nonces that are no longer there are taken out. Returns
    /// a release for the relay address of each allocation taken out. This
    /// goes on after the transport was closed.
    pub fn sweep(&mut self, now: u64) -> (actions: Vec<Action>)
        requires
            old(self).wf(),
        ensures
            final(self).wf(),
            final(self).is_closed() == old(self).is_closed(),
            final(self).state().realm == old(self).state().realm,
            final(self).state().server == old(self).state().server,
            final(self).state().nonce_lifetime == old(self).state().nonce_lifetime,
            final(self).state().credentials == old(self).state().credentials,
            final(self).state().policy == old(self).state().policy,
            forall|o: FiveTuple| #[trigger]
                final(self).state().allocations.contains_key(o) == holds_live(
                    old(self).state().allocations,
                    o,
                    now,
                ),
            forall|o: FiveTuple| #[trigger]
                final(self).state().allocations.contains_key(o) ==> swept(
                    old(self).state().allocations[o],
                    final(self).state().allocations[o],
                    now,
                ),
            forall|n: Seq<u8>| #[trigger]
                final(self).state().nonces.contains_key(n) == (old(self).state().nonces.contains_key(
                    n,
                ) && !expired(old(self).state().nonces[n], now, old(self).state().nonce_lifetime)),
            forall|n: Seq<u8>| #[trigger]
                final(self).state().nonces.contains_key(n) ==> final(self).state().nonces[n]
                    == old(self).state().nonces[n],
            forall|k: int|
                0 <= k < actions@.len() ==> releases_expired(
                    #[trigger] actions@[k],
                    old(self).state().allocations,
                    now,
                ),
            forall|o: FiveTuple| #[trigger]
                old(self).state().allocations.contains_key(o) && !holds_live(
                    old(self).state().allocations,
                    o,
                    now,
                ) ==> action_views(actions@).contains(
                    ActionView::Release { relay: old(self).state().allocations[o].relay },
                ),
    {
        let lifetime = self.state.nonce_lifetime;
        self.state.nonces.purge(now, lifetime);
        let released = self.state.allocations.sweep(now);
        let ghost relays = released@;
        let actions = release_all(released);
        proof {
            lemma_releases_contain(relays);
        }
        actions
    }

    /// Marks the transport as closed: no datagram is served from here on.
    /// The allocations stay until they expire.
    pub fn transport_closed(&mut self)
        requires
            old(self).wf(),
        ensures
            final(self).wf(),
            final(self).is_closed(),
            final(self).state() == old(self).state(),
    {
        self.closed = true;
    }

    /// Shuts the relay down: no datagram is served from here on, and every
    /// allocation is taken out. Returns a release for the relay address of
    /// each allocation.
    pub fn close(&mut self) -> (actions: Vec<Action>)
        requires
            old(self).wf(),
        ensures
            final(self).wf(),
            final(self).is_closed(),
            final(self).state() == old(self).state().with_allocations(
                Map::<FiveTuple, AllocationView>::empty(),
            ),
            forall|k: int|
                0 <= k < actions@.len() ==> releases_held(
                    #[trigger] actions@[k],
                    old(self).state().allocations,
                ),
            forall|o: FiveTuple| #[trigger]
                old(self).state().allocations.contains_key(o) ==> action_views(actions@).contains(
                    ActionView::Release { relay: old(self).state().allocations[o].relay },
                ),
    {
        self.closed = true;
        let released = self.state.allocations.sweep(u64::MAX);
        assert(self.state@.allocations =~= Map::<FiveTuple, AllocationView>::empty());
        let ghost relays = released@;
        let actions = release_all(released);
        proof {
            lemma_releases_contain(relays);
        }
        actions
    }
}

/// Passes the datagram `payload` from `peer` on by `route`: inside a Data
/// indication with a fresh transaction id, as ChannelData, or not at all.
fn deliver(route: Inbound, peer: TransportAddress, payload: Vec<u8>) -> (r: Result<
    Vec<Action>,
    Error,
>)
    ensures
        exists|tid: TransactionId| same_actions(r, #[trigger] inbound_step(route, peer, payload@, tid)),
        route is Drop ==> r is Ok && r->Ok_0@.len() == 0,
{
    let ghost zero: TransactionId = arbitrary();
    let ghost data = payload@;
    match route {
        Inbound::Drop => {
            let actions: Vec<Action> = Vec::new();
            proof {
                assert(action_views(actions@) =~= Seq::<ActionView>::empty());
                assert(same_actions(
                    Ok::<Vec<Action>, Error>(actions),
                    inbound_step(route, peer, data, zero),
                ));
            }
            Ok(actions)
        },
        Inbound::Data { client } => {
            let tid = TransactionId::fresh();
            let mut attributes: Vec<Attribute> = Vec::new();
            attributes.push(Attribute::XorPeerAddress(peer));
            attributes.push(Attribute::Data(payload));
            let m = Message {
                method: METHOD_DATA,
                class: Class::Indication,
                transaction_id: tid,
                attributes,
            };
            assert(m@.attributes =~= data_indication(peer, data, tid).attributes);
            assert(m@ == data_indication(peer, data, tid));
            let outcome = m.encode();
            assert(crate::engine::same_outcome(outcome, emit(data_indication(peer, data, tid))));
            let r = send_action(client.client, outcome);
            proof {
                assert(same_actions(r, inbound_step(route, peer, data, tid)));
            }
            r
        },
        Inbound::Channel { client, number } => {
            let frame = ChannelData { number, data: payload };
            if !frame.is_valid() {
                proof {
                    assert(same_actions(
                        Err::<Vec<Action>, Error>(Error::MessageTooLong),
                        inbound_step(route, peer, data, zero),
                    ));
                }
                return Err(Error::MessageTooLong);
            }
            let packet = frame.encode();
            let mut actions: Vec<Action> = Vec::new();
            actions.push(Action::Send { to: client.client, packet });
            proof {
                assert(action_views(actions@) =~= seq![
                    ActionView::Send {
                        to: client.client,
                        packet: (ChannelDataView { number, data }).encode(),
                    },
                ]);
                assert(same_actions(
                    Ok::<Vec<Action>, Error>(actions),
                    inbound_step(route, peer, data, zero),
                ));
            }
            Ok(actions)
        },
    }
}

/// Each of `relays` has its release among the releases of all.
proof fn lemma_releases_contain(relays: Seq<TransportAddress>)
    ensures
        forall|r: TransportAddress| #[trigger]
            relays.contains(r) ==> releases(relays).contains(ActionView::Release { relay: r }),
{
    assert forall|r: TransportAddress| #[trigger] relays.contains(r) implies releases(
        relays,
    ).contains(ActionView::Release { relay: r }) by {
        let i = choose|i: int| 0 <= i < relays.len() && relays[i] == r;
        assert(releases(relays)[i] == ActionView::Release { relay: r });
    }
}

/// A release for each of `relays`, in their order.
fn release_all(relays: Vec<TransportAddress>) -> (actions: Vec<Action>)
    ensures
        action_views(actions@) == releases(relays@),
        actions@.len() == relays@.len(),
        forall|k: int|
            0 <= k < actions@.len() ==> (#[trigger] actions@[k]) == (Action::Release {
                relay: relays@[k],
            }),
{
    let mut actions: Vec<Action> = Vec::new();
    let mut i: usize = 0;
    while i < relays.len()
        invariant
            i <= relays@.len(),
            actions@.len() == i,
            forall|k: int|
                0 <= k < i ==> (#[trigger] actions@[k]) == (Action::Release { relay: relays@[k] }),
        decreases relays@.len() - i,
    {
        actions.push(Action::Release { relay: relays[i] });
        i += 1;
    }
    assert(action_views(actions@) =~= releases(relays@));
    actions
}

} // verus!
