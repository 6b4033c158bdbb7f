//! The allocation table of the relay: who holds which allocation, and the
//! operations that create, refresh and expire them.

use vstd::prelude::*;
use crate::address::{IpAddress, TransportAddress};
use crate::allocation::{
    Allocation, AllocationView, FiveTuple, LifetimePolicy, bindable, deadline, deadline_of,
    is_bindable, live, swept,
};
use crate::assoc::{
    as_map, has_key, index_of, keys_distinct, lemma_empty, lemma_entry, lemma_lookup, lemma_push,
    lemma_remove, lemma_update,
};
use crate::error::Error;
use crate::requested_transport::PROTO_UDP;

verus! {

/// What becomes of a datagram that arrives at a relay address.
#[derive(Debug, Clone, Copy, PartialEq, Eq)]
pub enum Inbound {
    /// No client has a permission for the sender: the datagram is dropped.
    Drop,
    /// The datagram goes to `client` inside a Data indication.
    Data { client: FiveTuple },
    /// The datagram goes to `client` as ChannelData on channel `number`.
    Channel { client: FiveTuple, number: u16 },
}

/// The allocations of the relay.
pub struct AllocationTable {
    entries: Vec<Allocation>,
    policy: LifetimePolicy,
}

/// A fresh allocation, as mathematical values.
pub open spec fn fresh(
    owner: FiveTuple,
    username: Seq<u8>,
    relay: TransportAddress,
    expires_at: u64,
) -> AllocationView {
    AllocationView {
        owner,
        username,
        relay,
        expires_at,
        permissions: Map::<IpAddress, u64>::empty(),
        channels: Map::<u16, (TransportAddress, u64)>::empty(),
    }
}

/// Whether `owner` holds an allocation in `m` that is still there at `now`.
pub open spec fn holds_live(m: Map<FiveTuple, AllocationView>, owner: FiveTuple, now: u64) -> bool {
    m.contains_key(owner) && live(m[owner].expires_at, now)
}

/// Whether `owner` holds an allocation in `m` that is still there at `now`
/// and was asked for by the user `username`.
pub open spec fn owns_live(
    m: Map<FiveTuple, AllocationView>,
    owner: FiveTuple,
    username: Seq<u8>,
    now: u64,
) -> bool {
    holds_live(m, owner, now) && m[owner].username == username
}

/// Whether the allocation of `owner` in `m` is at `relay`, is still there at
/// `now` and permits `peer`.
pub open spec fn admits(
    m: Map<FiveTuple, AllocationView>,
    owner: FiveTuple,
    relay: TransportAddress,
    peer: IpAddress,
    now: u64,
) -> bool {
    holds_live(m, owner, now) && m[owner].relay == relay && m[owner].permits(peer, now)
}

/// Whether `route` is a way that a datagram from `peer` may take that
/// arrives at `relay` at `now`: it is dropped exactly where no allocation
/// at that relay address is still there and permits the peer's address; else
/// it goes to the owner of such an allocation, as ChannelData where a
/// channel is bound to the peer and still there, and inside a Data
/// indication otherwise.
pub open spec fn routes(
    m: Map<FiveTuple, AllocationView>,
    relay: TransportAddress,
    peer: TransportAddress,
    now: u64,
    route: Inbound,
) -> bool {
    &&& route is Drop == (forall|o: FiveTuple| !admits(m, o, relay, peer.ip, now))
    &&& route matches Inbound::Data { client } ==> admits(m, client, relay, peer.ip, now) && !(
    m[client].has_channel_for(peer) && live(m[client].channels[m[client].channel_for(peer)].1, now))
    &&& route matches Inbound::Channel { client, number } ==> admits(m, client, relay, peer.ip, now)
        && m[client].channels.contains_key(number) && m[client].channels[number].0 == peer && live(
        m[client].channels[number].1,
        now,
    )
}

/// Whether `relay` is the relay address of an allocation in `m` that is no
/// longer there at `now`.
pub open spec fn expired_relay(
    m: Map<FiveTuple, AllocationView>,
    relay: TransportAddress,
    now: u64,
) -> bool {
    exists|o: FiveTuple| #[trigger] m.contains_key(o) && !live(m[o].expires_at, now) && m[o].relay == relay
}

/// What `create` makes of the table `m` and what it returns.
pub open spec fn create_step(
    m: Map<FiveTuple, AllocationView>,
    policy: LifetimePolicy,
    owner: FiveTuple,
    username: Seq<u8>,
    requested_transport: u8,
    lifetime: Option<u32>,
    relay: TransportAddress,
    now: u64,
) -> (Map<FiveTuple, AllocationView>, Result<u32, Error>) {
    if requested_transport != PROTO_UDP {
        (m, Err(Error::UnsupportedTransport))
    } else if holds_live(m, owner, now) {
        (m, Err(Error::AllocationExists))
    } else {
        (
            m.insert(owner, fresh(owner, username, relay, deadline(now, policy.clamp(lifetime)))),
            Ok(policy.clamp(lifetime)),
        )
    }
}

/// What `refresh` makes of the table `m` and what it returns.
pub open spec fn refresh_step(
    m: Map<FiveTuple, AllocationView>,
    policy: LifetimePolicy,
    owner: FiveTuple,
    lifetime: Option<u32>,
    now: u64,
) -> (Map<FiveTuple, AllocationView>, Result<u32, Error>) {
    if !holds_live(m, owner, now) {
        (m, Err(Error::NoSuchAllocation))
    } else if lifetime == Some(0u32) {
        (m.remove(owner), Ok(0u32))
    } else {
        (
            m.insert(
                owner,
                AllocationView { expires_at: deadline(now, policy.clamp(lifetime)), ..m[owner] },
            ),
            Ok(policy.clamp(lifetime)),
        )
    }
}

/// What `create_permission` makes of the table `m` and what it returns.
pub open spec fn permission_step(
    m: Map<FiveTuple, AllocationView>,
    policy: LifetimePolicy,
    owner: FiveTuple,
    peer: IpAddress,
    now: u64,
) -> (Map<FiveTuple, AllocationView>, Result<(), Error>) {
    if !holds_live(m, owner, now) {
        (m, Err(Error::NoSuchAllocation))
    } else {
        (
            m.insert(
                owner,
                AllocationView {
                    permissions: m[owner].permissions.insert(peer, deadline(now, policy.permission)),
                    ..m[owner]
                },
            ),
            Ok(()),
        )
    }
}

/// What `bind_channel` makes of the table `m` and what it returns.
pub open spec fn bind_step(
    m: Map<FiveTuple, AllocationView>,
    policy: LifetimePolicy,
    owner: FiveTuple,
    number: u16,
    peer: TransportAddress,
    now: u64,
) -> (Map<FiveTuple, AllocationView>, Result<(), Error>) {
    if !holds_live(m, owner, now) {
        (m, Err(Error::NoSuchAllocation))
    } else if !bindable(number) {
        (m, Err(Error::BadRequest))
    } else if m[owner].binding_conflicts(number, peer) {
        (m, Err(Error::ChannelAlreadyBound))
    } else {
        (
            m.insert(
                owner,
                AllocationView {
                    permissions: m[owner].permissions.insert(
                        peer.ip,
                        deadline(now, policy.permission),
                    ),
                    channels: m[owner].channels.insert(
                        number,
                        (peer, deadline(now, policy.channel)),
                    ),
                    ..m[owner]
                },
            ),
            Ok(()),
        )
    }
}

impl View for AllocationTable {
    type V = Map<FiveTuple, AllocationView>;

    closed spec fn view(&self) -> Map<FiveTuple, AllocationView> {
        as_map(self.pairs())
    }
}

impl AllocationTable {
    /// The allocations as pairs of owner and allocation.
    pub closed spec fn pairs(&self) -> Seq<(FiveTuple, AllocationView)> {
        Seq::new(self.entries@.len(), |i: int| (self.entries@[i]@.owner, self.entries@[i]@))
    }

    /// No owner holds two allocations, and each allocation is well-formed.
    pub closed spec fn wf(&self) -> bool {
        &&& keys_distinct(self.pairs())
        &&& forall|i: int| 0 <= i < self.entries@.len() ==> (#[trigger] self.entries@[i]).wf()
    }

    /// The lifetimes that the table grants.
    pub closed spec fn policy(&self) -> LifetimePolicy {
        self.policy
    }

    /// The number of allocations in the table, those past their expiry that
    /// were not swept out yet included.
    pub closed spec fn spec_len(&self) -> nat {
        self.entries@.len()
    }

    /// Each allocation is held under its own owner.
    pub proof fn lemma_owner_is_key(&self, owner: FiveTuple)
        requires
            self.wf(),
            self@.contains_key(owner),
        ensures
            self@[owner].owner == owner,
    {
        lemma_lookup(self.pairs(), owner);
    }

    /// In each allocation no peer is bound to two channel numbers.
    pub proof fn lemma_bindings_one_to_one(&self, owner: FiveTuple)
        requires
            self.wf(),
            self@.contains_key(owner),
        ensures
            self@[owner].channels_one_to_one(),
    {
        lemma_lookup(self.pairs(), owner);
        let i = index_of(self.pairs(), owner);
        self.entries@[i].lemma_one_to_one();
    }

    /// An empty table that grants lifetimes by `policy`.
    pub fn new(policy: LifetimePolicy) -> (t: AllocationTable)
        ensures
            t.wf(),
            t@ == Map::<FiveTuple, AllocationView>::empty(),
            t.policy() == policy,
            t.spec_len() == 0,
    {
        let t = AllocationTable { entries: Vec::new(), policy };
        proof {
            lemma_empty::<FiveTuple, AllocationView>();
            assert(t.pairs() =~= Seq::<(FiveTuple, AllocationView)>::empty());
        }
        t
    }

    /// The number of allocations in the table.
    pub fn len(&self) -> (n: usize)
        ensures
            n == self.spec_len(),
    {
        self.entries.len()
    }

    /// Where the allocation of `owner` stands.
    fn position(&self, owner: &FiveTuple) -> (r: Option<usize>)
        ensures
            r is Some == has_key(self.pairs(), *owner),
            r is Some ==> r->0 < self.entries@.len() && self.pairs()[r->0 as int].0 == *owner,
    {
        let mut i: usize = 0;
        while i < self.entries.len()
            invariant
                i <= self.entries@.len(),
                forall|k: int| 0 <= k < i ==> (#[trigger] self.pairs()[k]).0 != *owner,
            decreases self.entries@.len() - i,
        {
            if self.entries[i].owner().same(owner) {
                assert(self.pairs()[i as int].0 == *owner);
                return Some(i);
            }
            i += 1;
        }
        None
    }

    /// Where the allocation of `owner` stands, if it is still there at `now`.
    fn live_position(&self, owner: &FiveTuple, now: u64) -> (r: Option<usize>)
        requires
            self.wf(),
        ensures
            r is Some == holds_live(self@, *owner, now),
            r is Some ==> r->0 < self.entries@.len() && self.pairs()[r->0 as int].0 == *owner
                && self.entries@[r->0 as int]@ == self@[*owner],
    {
        match self.position(owner) {
            None => None,
            Some(i) => {
                proof {
                    lemma_entry(self.pairs(), i as int);
                }
                if self.entries[i].is_live(now) {
                    Some(i)
                } else {
                    None
                }
            },
        }
    }

    /// Puts `a` in the place of the allocation at position `i`, which has the
    /// same owner.
    fn replace(&mut self, i: usize, a: Allocation)
        requires
            old(self).wf(),
            i < old(self).entries@.len(),
            a.wf(),
            a@.owner == old(self).pairs()[i as int].0,
        ensures
            final(self).wf(),
            final(self).policy() == old(self).policy(),
            final(self).spec_len() == old(self).spec_len(),
            final(self)@ == old(self)@.insert(a@.owner, a@),
    {
        let ghost before = self.pairs();
        let ghost entries = self.entries@;
        let ghost v = a@;
        proof {
            lemma_update(before, i as int, v);
        }
        self.entries.set(i, a);
        assert(self.pairs() =~= before.update(i as int, (before[i as int].0, v)));
        assert forall|k: int| 0 <= k < self.entries@.len() implies (#[trigger] self.entries@[k]).wf() by {
            if k != i {
                assert(self.entries@[k] == entries[k]);
            }
        }
    }

    /// Whether `owner` holds an allocation that is still there at `now`.
    pub fn has_live(&self, owner: &FiveTuple, now: u64) -> (r: bool)
        requires
            self.wf(),
        ensures
            r == holds_live(self@, *owner, now),
    {
        self.live_position(owner, now).is_some()
    }

    /// The relay address of the allocation that `owner` holds at `now`.
    pub fn relay_of(&self, owner: &FiveTuple, now: u64) -> (r: Option<TransportAddress>)
        requires
            self.wf(),
        ensures
            r is Some == holds_live(self@, *owner, now),
            r is Some ==> r->0 == self@[*owner].relay,
    {
        match self.live_position(owner, now) {
            None => None,
            Some(i) => Some(self.entries[i].relay()),
        }
    }

    /// The relay address of an allocation that `owner` holds and that is past
    /// its expiry at `now`, but was not swept out yet.
    pub fn stale_relay(&self, owner: &FiveTuple, now: u64) -> (r: Option<TransportAddress>)
        requires
            self.wf(),
        ensures
            r is Some == (self@.contains_key(*owner) && !live(self@[*owner].expires_at, now)),
            r is Some ==> r->0 == self@[*owner].relay,
    {
        match self.position(owner) {
            None => None,
            Some(i) => {
                proof {
                    lemma_entry(self.pairs(), i as int);
                }
                if self.entries[i].is_live(now) {
                    None
                } else {
                    Some(self.entries[i].relay())
                }
            },
        }
    }

    /// Whether `owner` holds an allocation that is still there at `now` and
    /// was asked for by the user `username`.
    pub fn owned_by(&self, owner: &FiveTuple, username: &[u8], now: u64) -> (r: bool)
        requires
            self.wf(),
        ensures
            r == owns_live(self@, *owner, username@, now),
    {
        match self.live_position(owner, now) {
            None => false,
            Some(i) => self.entries[i].held_by(username),
        }
    }

    /// Gives `owner` an allocation at `relay`, for the lifetime that the
    /// policy grants for `lifetime`, in the name of the user `username`.
    /// Refused with `UnsupportedTransport` where
    /// the requested protocol is not UDP, and with `AllocationExists` where
    /// the owner holds an allocation that is still there at `now`. An
    /// allocation of the owner that is past its expiry gives way to the new
    /// one. Returns the lifetime granted, in seconds.
    pub fn create(
        &mut self,
        owner: FiveTuple,
        username: Vec<u8>,
        requested_transport: u8,
        lifetime: Option<u32>,
        relay: TransportAddress,
        now: u64,
    ) -> (r: Result<u32, Error>)
        requires
            old(self).wf(),
        ensures
            final(self).wf(),
            final(self).policy() == old(self).policy(),
            (final(self)@, r) == create_step(
                old(self)@,
                old(self).policy(),
                owner,
                username@,
                requested_transport,
                lifetime,
                relay,
                now,
            ),
    {
        if requested_transport != PROTO_UDP {
            return Err(Error::UnsupportedTransport);
        }
        let granted = self.policy.clamped(lifetime);
        let a = Allocation::new(owner, username, relay, deadline_of(now, granted));
        match self.position(&owner) {
            Some(i) => {
                proof {
                    lemma_entry(self.pairs(), i as int);
                }
                if self.entries[i].is_live(now) {
                    return Err(Error::AllocationExists);
                }
                self.replace(i, a);
            },
            None => {
                let ghost before = self.pairs();
                let ghost v = a@;
                proof {
                    lemma_push(before, owner, v);
                }
                self.entries.push(a);
                assert(self.pairs() =~= before.push((owner, v)));
            },
        }
        Ok(granted)
    }

    /// Renews the allocation of `owner`, or ends it where `lifetime` is zero.
    /// Refused with `NoSuchAllocation` where the owner holds no allocation
    /// that is still there at `now`. Returns the lifetime granted, in
    /// seconds: zero where the allocation was ended.
    pub fn refresh(&mut self, owner: FiveTuple, lifetime: Option<u32>, now: u64) -> (r: Result<
        u32,
        Error,
    >)
        requires
            old(self).wf(),
        ensures
            final(self).wf(),
            final(self).policy() == old(self).policy(),
            (final(self)@, r) == refresh_step(old(self)@, old(self).policy(), owner, lifetime, now),
    {
        let i = match self.live_position(&owner, now) {
            None => {
                return Err(Error::NoSuchAllocation);
            },
            Some(i) => i,
        };
        let ghost before = self.pairs();
        let ghost entries = self.entries@;
        let zero = match lifetime {
            Some(l) => l == 0,
            None => false,
        };
        if zero {
            proof {
                lemma_remove(before, i as int);
            }
            self.entries.remove(i);
            assert(self.pairs() =~= before.remove(i as int));
            assert forall|k: int| 0 <= k < self.entries@.len() implies (
            #[trigger] self.entries@[k]).wf() by {
                let k2 = if k < i { k } else { k + 1 };
                assert(self.entries@[k] == entries[k2]);
            }
            return Ok(0);
        }
        let granted = self.policy.clamped(lifetime);
        let mut a = self.take(i);
        a.set_expiry(deadline_of(now, granted));
        self.put(i, a, Ghost(before), Ghost(entries));
        Ok(granted)
    }

    /// Takes the allocation at position `i` out of the vector.
    fn take(&mut self, i: usize) -> (a: Allocation)
        requires
            i < old(self).entries@.len(),
        ensures
            a == old(self).entries@[i as int],
            final(self).entries@ == old(self).entries@.remove(i as int),
            final(self).policy == old(self).policy,
    {
        self.entries.remove(i)
    }

    /// Puts a changed allocation back where `take` took it from.
    fn put(
        &mut self,
        i: usize,
        a: Allocation,
        Ghost(before): Ghost<Seq<(FiveTuple, AllocationView)>>,
        Ghost(entries): Ghost<Seq<Allocation>>,
    )
        requires
            i < entries.len(),
            old(self).entries@ == entries.remove(i as int),
            before == Seq::new(entries.len(), |k: int| (entries[k]@.owner, entries[k]@)),
            keys_distinct(before),
            forall|k: int| 0 <= k < entries.len() ==> (#[trigger] entries[k]).wf(),
            a.wf(),
            a@.owner == before[i as int].0,
        ensures
            final(self).wf(),
            final(self).policy == old(self).policy,
            final(self).entries@ == entries.update(i as int, a),
            final(self)@ == as_map(before).insert(a@.owner, a@),
    {
        let ghost v = a@;
        proof {
            lemma_update(before, i as int, v);
        }
        self.entries.insert(i, a);
        assert(self.entries@ =~= entries.update(i as int, a));
        assert(self.pairs() =~= before.update(i as int, (before[i as int].0, v)));
        assert forall|k: int| 0 <= k < self.entries@.len() implies (#[trigger] self.entries@[k]).wf() by {
            if k != i {
                assert(self.entries@[k] == entries[k]);
            }
        }
    }

    /// Gives `peer` a permission on the allocation of `owner`, for the
    /// permission lifetime of the policy, in place of the one it may have.
    /// Refused with `NoSuchAllocation` where the owner holds no allocation
    /// that is still there at `now`.
    pub fn create_permission(&mut self, owner: FiveTuple, peer: IpAddress, now: u64) -> (r: Result<
        (),
        Error,
    >)
        requires
            old(self).wf(),
        ensures
            final(self).wf(),
            final(self).policy() == old(self).policy(),
            (final(self)@, r) == permission_step(old(self)@, old(self).policy(), owner, peer, now),
    {
        let i = match self.live_position(&owner, now) {
            None => {
                return Err(Error::NoSuchAllocation);
            },
            Some(i) => i,
        };
        let ghost before = self.pairs();
        let ghost entries = self.entries@;
        let until = deadline_of(now, self.policy.permission);
        let mut a = self.take(i);
        a.permit(peer, until);
        self.put(i, a, Ghost(before), Ghost(entries));
        Ok(())
    }

    /// Binds channel `number` to `peer` on the allocation of `owner`, for the
    /// channel lifetime of the policy, and gives the peer's address a
    /// permission as `create_permission` does. Refused with
    /// `NoSuchAllocation` where the owner holds no allocation that is still
    /// there at `now`, with `BadRequest` where the number is not one that
    /// can be bound, and with `ChannelAlreadyBound` where the number is bound
    /// to another peer or the peer to another number.
    pub fn bind_channel(
        &mut self,
        owner: FiveTuple,
        number: u16,
        peer: TransportAddress,
        now: u64,
    ) -> (r: Result<(), Error>)
        requires
            old(self).wf(),
        ensures
            final(self).wf(),
            final(self).policy() == old(self).policy(),
            (final(self)@, r) == bind_step(old(self)@, old(self).policy(), owner, number, peer, now),
    {
        let i = match self.live_position(&owner, now) {
            None => {
                return Err(Error::NoSuchAllocation);
            },
            Some(i) => i,
        };
        if !is_bindable(number) {
            return Err(Error::BadRequest);
        }
        let ghost before = self.pairs();
        let ghost entries = self.entries@;
        let ghost old_map = self@;
        let until = deadline_of(now, self.policy.channel);
        let permitted_until = deadline_of(now, self.policy.permission);
        let mut a = self.take(i);
        match a.bind(number, peer, until) {
            Err(e) => {
                self.put(i, a, Ghost(before), Ghost(entries));
                assert(self@ =~= old_map);
                Err(e)
            },
            Ok(()) => {
                a.permit(peer.ip, permitted_until);
                self.put(i, a, Ghost(before), Ghost(entries));
                Ok(())
            },
        }
    }

    /// Whether `owner` may send to `peer` at `now`: the relay address from
    /// which the data then leaves, where the owner holds an allocation with a
    /// permission for the peer's address.
    pub fn relay_for_send(&self, owner: &FiveTuple, peer: &IpAddress, now: u64) -> (r: Option<
        TransportAddress,
    >)
        requires
            self.wf(),
        ensures
            r is Some == (holds_live(self@, *owner, now) && self@[*owner].permits(*peer, now)),
            r is Some ==> r->0 == self@[*owner].relay,
    {
        match self.live_position(owner, now) {
            None => None,
            Some(i) => {
                if self.entries[i].permits(peer, now) {
                    Some(self.entries[i].relay())
                } else {
                    None
                }
            },
        }
    }

    /// Where ChannelData of `owner` on channel `number` goes at `now`: the
    /// relay address from which it leaves and the peer that the channel is
    /// bound to.
    pub fn relay_for_channel(&self, owner: &FiveTuple, number: u16, now: u64) -> (r: Option<
        (TransportAddress, TransportAddress),
    >)
        requires
            self.wf(),
        ensures
            r is Some == (holds_live(self@, *owner, now) && self@[*owner].channels.contains_key(
                number,
            ) && live(self@[*owner].channels[number].1, now)),
            r matches Some(way) ==> way.0 == self@[*owner].relay && way.1
                == self@[*owner].channels[number].0,
    {
        match self.live_position(owner, now) {
            None => None,
            Some(i) => {
                match self.entries[i].peer_of(number, now) {
                    None => None,
                    Some(peer) => Some((self.entries[i].relay(), peer)),
                }
            },
        }
    }

    /// What becomes of a datagram from `peer` that arrives at `relay` at
    /// `now`. It is dropped unless an allocation at that relay address is
    /// still there and permits the peer's address; else it goes to the
    /// owner of such an allocation, as ChannelData where a channel is bound
    /// to the peer and still there, and inside a Data indication otherwise.
    pub fn route_inbound(&self, relay: &TransportAddress, peer: &TransportAddress, now: u64) -> (r:
        Inbound)
        requires
            self.wf(),
        ensures
            routes(self@, *relay, *peer, now, r),
    {
        let mut i: usize = 0;
        while i < self.entries.len()
            invariant
                self.wf(),
                i <= self.entries@.len(),
                forall|k: int|
                    0 <= k < i ==> !admits(
                        self@,
                        (#[trigger] self.pairs()[k]).0,
                        *relay,
                        peer.ip,
                        now,
                    ),
            decreases self.entries@.len() - i,
        {
            let a = &self.entries[i];
            proof {
                lemma_entry(self.pairs(), i as int);
            }
            if a.relay().same(relay) && a.is_live(now) && a.permits(&peer.ip, now) {
                let client = a.owner();
                assert(admits(self@, client, *relay, peer.ip, now));
                return match a.channel_of(peer, now) {
                    Some(number) => Inbound::Channel { client, number },
                    None => Inbound::Data { client },
                };
            }
            i += 1;
        }
        assert forall|o: FiveTuple| !admits(self@, o, *relay, peer.ip, now) by {
            if self@.contains_key(o) {
                lemma_lookup(self.pairs(), o);
                let k = index_of(self.pairs(), o);
                assert(!admits(self@, self.pairs()[k].0, *relay, peer.ip, now));
            }
        }
        Inbound::Drop
    }

    /// Takes out the allocations that are no longer there at `now`, and from
    /// those that stay the permissions and channel bindings that are no
    /// longer there. Returns the relay addresses of the allocations taken
    /// out, which are to be released.
    pub fn sweep(&mut self, now: u64) -> (released: Vec<TransportAddress>)
        requires
            old(self).wf(),
        ensures
            final(self).wf(),
            final(self).policy() == old(self).policy(),
            forall|o: FiveTuple| #[trigger]
                final(self)@.contains_key(o) == holds_live(old(self)@, o, now),
            forall|o: FiveTuple| #[trigger]
                final(self)@.contains_key(o) ==> swept(old(self)@[o], final(self)@[o], now),
            forall|k: int|
                    0 <= k < released@.len() ==> expired_relay(old(self)@, #[trigger] released@[k], now),
            forall|o: FiveTuple| #[trigger]
                old(self)@.contains_key(o) && !live(old(self)@[o].expires_at, now)
                    ==> released@.contains(old(self)@[o].relay),
    {
        let mut released: Vec<TransportAddress> = Vec::new();
        let mut i: usize = 0;
        while i < self.entries.len()
            invariant
                self.wf(),
                self.policy == old(self).policy,
                i <= self.entries@.len(),
                // What stands before `i` was kept and swept.
                forall|k: int|
                    0 <= k < i ==> old(self)@.contains_key((#[trigger] self.pairs()[k]).0) && live(
                        old(self)@[self.pairs()[k].0].expires_at,
                        now,
                    ) && swept(old(self)@[self.pairs()[k].0], self.pairs()[k].1, now),
                // What stands from `i` on is as it was.
                forall|k: int|
                    i <= k < self.entries@.len() ==> old(self)@.contains_key(
                        (#[trigger] self.pairs()[k]).0,
                    ) && old(self)@[self.pairs()[k].0] == self.pairs()[k].1,
                // Nothing live was lost.
                forall|o: FiveTuple|
                    holds_live(old(self)@, o, now) ==> #[trigger] self@.contains_key(o),
                // What was released had expired, and what expired and is gone was released.
                forall|k: int|
                    0 <= k < released@.len() ==> expired_relay(old(self)@, #[trigger] released@[k], now),
                forall|o: FiveTuple| #[trigger]
                    old(self)@.contains_key(o) && !live(old(self)@[o].expires_at, now)
                        && !self@.contains_key(o) ==> released@.contains(old(self)@[o].relay),
            decreases self.entries@.len() - i,
        {
            let ghost before = self.pairs();
            let ghost entries = self.entries@;
            let ghost before_map = self@;
            let ghost owner = before[i as int].0;
            proof {
                lemma_entry(before, i as int);
                assert(before[i as int].1 == entries[i as int]@);
            }
            if self.entries[i].is_live(now) {
                let mut a = self.take(i);
                a.sweep(now);
                self.put(i, a, Ghost(before), Ghost(entries));
                assert(self.pairs() =~= before.update(i as int, (owner, self.entries@[i as int]@)));
                assert forall|k: int| 0 <= k < i + 1 implies old(self)@.contains_key(
                    (#[trigger] self.pairs()[k]).0,
                ) && live(old(self)@[self.pairs()[k].0].expires_at, now) && swept(
                    old(self)@[self.pairs()[k].0],
                    self.pairs()[k].1,
                    now,
                ) by {
                    if k < i {
                        assert(self.pairs()[k] == before[k]);
                    }
                }
                assert forall|k: int| i + 1 <= k < self.entries@.len() implies old(self)@.contains_key((#[trigger] self.pairs()[k]).0) && old(self)@[self.pairs()[k].0]
                    == self.pairs()[k].1 by {
                    assert(self.pairs()[k] == before[k]);
                }
                assert forall|o: FiveTuple| #[trigger]
                    old(self)@.contains_key(o) && !live(old(self)@[o].expires_at, now)
                        && !self@.contains_key(o) implies released@.contains(old(self)@[o].relay) by {
                    assert(!before_map.contains_key(o));
                }
                i += 1;
            } else {
                proof {
                    lemma_remove(before, i as int);
                }
                let a = self.take(i);
                let ghost old_released = released@;
                released.push(a.relay());
                assert(self.pairs() =~= before.remove(i as int));
                assert(self@ == before_map.remove(owner));
                assert forall|k: int| 0 <= k < self.entries@.len() implies (
                #[trigger] self.entries@[k]).wf() by {
                    let k2 = if k < i { k } else { k + 1 };
                    assert(self.entries@[k] == entries[k2]);
                }
                assert forall|k: int| 0 <= k < i implies old(self)@.contains_key(
                    (#[trigger] self.pairs()[k]).0,
                ) && live(old(self)@[self.pairs()[k].0].expires_at, now) && swept(
                    old(self)@[self.pairs()[k].0],
                    self.pairs()[k].1,
                    now,
                ) by {
                    assert(self.pairs()[k] == before[k]);
                }
                assert forall|k: int| i <= k < self.entries@.len() implies old(self)@.contains_key(
                    (#[trigger] self.pairs()[k]).0,
                ) && old(self)@[self.pairs()[k].0] == self.pairs()[k].1 by {
                    assert(self.pairs()[k] == before[k + 1]);
                }
                assert forall|k: int|
                    0 <= k < released@.len() implies expired_relay(old(self)@, #[trigger] released@[k], now) by {
                    if k < old_released.len() {
                        assert(released@[k] == old_released[k]);
                    } else {
                        assert(old(self)@.contains_key(owner) && !live(
                            old(self)@[owner].expires_at,
                            now,
                        ) && old(self)@[owner].relay == released@[k]);
                        assert(expired_relay(old(self)@, released@[k], now));
                    }
                }
                assert forall|o: FiveTuple| #[trigger]
                    old(self)@.contains_key(o) && !live(old(self)@[o].expires_at, now)
                        && !self@.contains_key(o) implies released@.contains(old(self)@[o].relay) by {
                    if o == owner {
                        assert(released@[old_released.len() as int] == old(self)@[o].relay);
                    } else {
                        assert(!before_map.contains_key(o));
                        let w = choose|w: int|
                            0 <= w < old_released.len() && old_released[w] == old(self)@[o].relay;
                        assert(released@[w] == old_released[w]);
                    }
                }
            }
        }
        assert forall|o: FiveTuple| #[trigger]
            self@.contains_key(o) implies holds_live(old(self)@, o, now) && swept(
            old(self)@[o],
            self@[o],
            now,
        ) by {
            lemma_lookup(self.pairs(), o);
            let k = index_of(self.pairs(), o);
            assert(old(self)@.contains_key(self.pairs()[k].0));
        }
        released
    }
}

/// An allocation that was created and is then refreshed with a lifetime of
/// zero, before it expired, is gone.
pub proof fn lemma_create_then_release(
    m: Map<FiveTuple, AllocationView>,
    policy: LifetimePolicy,
    owner: FiveTuple,
    username: Seq<u8>,
    lifetime: Option<u32>,
    relay: TransportAddress,
    created_at: u64,
    released_at: u64,
)
    requires
        !holds_live(m, owner, created_at),
        released_at < deadline(created_at, policy.clamp(lifetime)),
    ensures
        create_step(m, policy, owner, username, PROTO_UDP, lifetime, relay, created_at).1 == Ok::<u32, Error>(
            policy.clamp(lifetime),
        ),
        refresh_step(
            create_step(m, policy, owner, username, PROTO_UDP, lifetime, relay, created_at).0,
            policy,
            owner,
            Some(0u32),
            released_at,
        ).1 == Ok::<u32, Error>(0u32),
        !refresh_step(
            create_step(m, policy, owner, username, PROTO_UDP, lifetime, relay, created_at).0,
            policy,
            owner,
            Some(0u32),
            released_at,
        ).0.contains_key(owner),
{
}

/// A permission for an owner that holds no allocation is refused, and the
/// table stays as it is.
pub proof fn lemma_permission_needs_allocation(
    m: Map<FiveTuple, AllocationView>,
    policy: LifetimePolicy,
    owner: FiveTuple,
    peer: IpAddress,
    now: u64,
)
    requires
        !m.contains_key(owner),
    ensures
        permission_step(m, policy, owner, peer, now) == (
            m,
            Err::<(), Error>(Error::NoSuchAllocation),
        ),
{
}

/// The lifetime granted lies between the minimum and the maximum of the
/// policy, and is the default where none was requested.
pub proof fn lemma_clamp_in_range(policy: LifetimePolicy, requested: Option<u32>)
    requires
        policy.valid(),
    ensures
        policy.min <= policy.clamp(requested) <= policy.max,
        requested is None ==> policy.clamp(requested) == policy.default,
        requested is Some && policy.min <= requested->0 <= policy.max ==> policy.clamp(requested)
            == requested->0,
{
}

} // verus!
