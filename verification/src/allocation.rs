//! One allocation of the relay: its relay address, its permissions, its
//! channel bindings and its time of expiry.

use vstd::prelude::*;
use crate::address::{IpAddress, TransportAddress};
use crate::assoc::{
    as_map, has_key, index_of, keys_distinct, lemma_empty, lemma_entry, lemma_lookup, lemma_push,
    lemma_remove, lemma_update,
};
use crate::channel::{CHANNEL_MAX, CHANNEL_MIN};
use crate::error::Error;

verus! {

/// Seconds that an allocation lives where the client asks for nothing else.
pub const DEFAULT_LIFETIME: u32 = 600;

/// The fewest seconds that an allocation is given.
pub const MIN_LIFETIME: u32 = 30;

/// The most seconds that an allocation is given.
pub const MAX_LIFETIME: u32 = 3600;

/// Seconds that a permission lives.
pub const PERMISSION_LIFETIME: u32 = 300;

/// Seconds that a channel binding lives.
pub const CHANNEL_LIFETIME: u32 = 600;

/// Who owns an allocation: the client's address, the server's address that
/// the client talks to, and the protocol between them. Allocations are held
/// by this five-tuple, one for each. The user that asked for an allocation
/// is kept with it, and only that user may renew it, end it, or add
/// permissions and channel bindings to it.
#[derive(Debug, Clone, Copy, PartialEq, Eq)]
pub struct FiveTuple {
    pub client: TransportAddress,
    pub server: TransportAddress,
    pub protocol: u8,
}

impl FiveTuple {
    /// Whether both are the same five-tuple.
    pub fn same(&self, other: &FiveTuple) -> (r: bool)
        ensures
            r == (*self == *other),
    {
        self.protocol == other.protocol && self.client.same(&other.client) && self.server.same(
            &other.server,
        )
    }
}

/// The lifetimes that the relay grants, in seconds.
#[derive(Debug, Clone, Copy, PartialEq, Eq)]
pub struct LifetimePolicy {
    pub default: u32,
    pub min: u32,
    pub max: u32,
    pub permission: u32,
    pub channel: u32,
}

impl LifetimePolicy {
    /// The lifetime granted for a requested one: the default where none is
    /// requested, else the requested one, raised to the minimum or lowered
    /// to the maximum.
    pub open spec fn clamp(self, requested: Option<u32>) -> u32 {
        match requested {
            None => self.default,
            Some(l) => if l < self.min {
                self.min
            } else if l > self.max {
                self.max
            } else {
                l
            },
        }
    }

    /// The lifetime granted for a requested one.
    pub fn clamped(&self, requested: Option<u32>) -> (granted: u32)
        ensures
            granted == self.clamp(requested),
    {
        match requested {
            None => self.default,
            Some(l) => if l < self.min {
                self.min
            } else if l > self.max {
                self.max
            } else {
                l
            },
        }
    }

    /// What a lifetime policy must meet: the minimum is above zero and not
    /// above the default, and the default not above the maximum.
    pub open spec fn valid(self) -> bool {
        0 < self.min <= self.default <= self.max
    }

    /// The policy of 30 to 3600 seconds with a default of 600, permissions of
    /// 300 seconds and channel bindings of 600.
    pub fn standard() -> (p: LifetimePolicy)
        ensures
            p.valid(),
            p == (LifetimePolicy {
                default: DEFAULT_LIFETIME,
                min: MIN_LIFETIME,
                max: MAX_LIFETIME,
                permission: PERMISSION_LIFETIME,
                channel: CHANNEL_LIFETIME,
            }),
    {
        LifetimePolicy {
            default: DEFAULT_LIFETIME,
            min: MIN_LIFETIME,
            max: MAX_LIFETIME,
            permission: PERMISSION_LIFETIME,
            channel: CHANNEL_LIFETIME,
        }
    }
}

/// The instant `lifetime` seconds after `now`, or the last instant there is
/// where that is beyond it.
pub open spec fn deadline(now: u64, lifetime: u32) -> u64 {
    if now + lifetime > u64::MAX {
        u64::MAX
    } else {
        (now + lifetime) as u64
    }
}

/// The instant `lifetime` seconds after `now`.
pub fn deadline_of(now: u64, lifetime: u32) -> (at: u64)
    ensures
        at == deadline(now, lifetime),
{
    let l: u64 = lifetime as u64;
    if now > u64::MAX - l {
        u64::MAX
    } else {
        now + l
    }
}

/// Whether something that expires at `expires_at` is still there at `now`.
pub open spec fn live(expires_at: u64, now: u64) -> bool {
    now < expires_at
}

/// That a peer address may exchange data through an allocation, until a
/// given time.
#[derive(Debug, Clone, Copy, PartialEq, Eq)]
pub struct Permission {
    pub peer: IpAddress,
    pub expires_at: u64,
}

/// That a channel number stands for a peer, until a given time.
#[derive(Debug, Clone, Copy, PartialEq, Eq)]
pub struct ChannelBinding {
    pub number: u16,
    pub peer: TransportAddress,
    pub expires_at: u64,
}

/// An allocation.
#[derive(Debug, Clone, PartialEq, Eq)]
pub struct Allocation {
    owner: FiveTuple,
    username: Vec<u8>,
    relay: TransportAddress,
    expires_at: u64,
    permissions: Vec<Permission>,
    channels: Vec<ChannelBinding>,
}

/// What an allocation holds, as mathematical values: its permissions as a
/// map from peer address to time of expiry, its channel bindings as a map
/// from channel number to peer and time of expiry.
pub struct AllocationView {
    pub owner: FiveTuple,
    /// The user that asked for the allocation.
    pub username: Seq<u8>,
    pub relay: TransportAddress,
    pub expires_at: u64,
    pub permissions: Map<IpAddress, u64>,
    pub channels: Map<u16, (TransportAddress, u64)>,
}

impl AllocationView {
    /// Whether `peer` may exchange data through the allocation at `now`.
    pub open spec fn permits(self, peer: IpAddress, now: u64) -> bool {
        self.permissions.contains_key(peer) && live(self.permissions[peer], now)
    }

    /// Whether some channel number is bound to `peer`.
    pub open spec fn has_channel_for(self, peer: TransportAddress) -> bool {
        exists|n: u16| #[trigger] self.channels.contains_key(n) && self.channels[n].0 == peer
    }

    /// The channel number bound to `peer`, where there is one.
    pub open spec fn channel_for(self, peer: TransportAddress) -> u16 {
        choose|n: u16| #[trigger] self.channels.contains_key(n) && self.channels[n].0 == peer
    }

    /// Whether binding `number` to `peer` would break the one-to-one relation
    /// between channel numbers and peers: the number is bound to another
    /// peer, or the peer to another number.
    pub open spec fn binding_conflicts(self, number: u16, peer: TransportAddress) -> bool {
        (self.channels.contains_key(number) && self.channels[number].0 != peer) || (exists|n: u16|
            n != number && #[trigger] self.channels.contains_key(n) && self.channels[n].0 == peer)
    }

    /// No peer is bound to two channel numbers.
    pub open spec fn channels_one_to_one(self) -> bool {
        forall|m: u16, n: u16|
            #[trigger] self.channels.contains_key(m) && #[trigger] self.channels.contains_key(n)
                && self.channels[m].0 == self.channels[n].0 ==> m == n
    }
}

/// Whether `after` is `before` without the permissions and channel
/// bindings that are no longer there at `now`, and otherwise the same.
pub open spec fn swept(before: AllocationView, after: AllocationView, now: u64) -> bool {
    &&& after.owner == before.owner
    &&& after.username == before.username
    &&& after.relay == before.relay
    &&& after.expires_at == before.expires_at
    &&& forall|p: IpAddress| #[trigger]
        after.permissions.contains_key(p) == (before.permissions.contains_key(p) && live(
            before.permissions[p],
            now,
        ))
    &&& forall|p: IpAddress| #[trigger]
        after.permissions.contains_key(p) ==> after.permissions[p] == before.permissions[p]
    &&& forall|n: u16| #[trigger]
        after.channels.contains_key(n) == (before.channels.contains_key(n) && live(
            before.channels[n].1,
            now,
        ))
    &&& forall|n: u16| #[trigger]
        after.channels.contains_key(n) ==> after.channels[n] == before.channels[n]
}

impl View for Allocation {
    type V = AllocationView;

    closed spec fn view(&self) -> AllocationView {
        AllocationView {
            owner: self.owner,
            username: self.username@,
            relay: self.relay,
            expires_at: self.expires_at,
            permissions: as_map(self.permission_pairs()),
            channels: as_map(self.channel_pairs()),
        }
    }
}

impl Allocation {
    /// The permissions as pairs of peer and time of expiry.
    pub closed spec fn permission_pairs(&self) -> Seq<(IpAddress, u64)> {
        Seq::new(
            self.permissions@.len(),
            |i: int| (self.permissions@[i].peer, self.permissions@[i].expires_at),
        )
    }

    /// The channel bindings as pairs of number and what it is bound to.
    pub closed spec fn channel_pairs(&self) -> Seq<(u16, (TransportAddress, u64))> {
        Seq::new(
            self.channels@.len(),
            |i: int|
                (self.channels@[i].number, (self.channels@[i].peer, self.channels@[i].expires_at)),
        )
    }

    /// No peer has two permissions, no channel number two bindings, and no
    /// peer two channel numbers.
    pub closed spec fn wf(&self) -> bool {
        &&& keys_distinct(self.permission_pairs())
        &&& keys_distinct(self.channel_pairs())
        &&& forall|i: int, j: int|
            0 <= i < j < self.channels@.len() ==> (#[trigger] self.channels@[i]).peer != (
            #[trigger] self.channels@[j]).peer
    }

    /// In a well-formed allocation no peer is bound to two channel numbers.
    pub proof fn lemma_one_to_one(&self)
        requires
            self.wf(),
        ensures
            self@.channels_one_to_one(),
    {
        let s = self.channel_pairs();
        assert forall|m: u16, n: u16|
            #[trigger] self@.channels.contains_key(m) && #[trigger] self@.channels.contains_key(n)
                && self@.channels[m].0 == self@.channels[n].0 implies m == n by {
            lemma_lookup(s, m);
            lemma_lookup(s, n);
            let i = index_of(s, m);
            let j = index_of(s, n);
            if i < j {
                assert(self.channels@[i].peer != self.channels@[j].peer);
            } else if j < i {
                assert(self.channels@[j].peer != self.channels@[i].peer);
            }
        }
    }

    /// An allocation of `owner`, asked for by the user `username`, at `relay`
    /// that expires at `expires_at`, with no permission and no channel
    /// binding.
    pub fn new(
        owner: FiveTuple,
        username: Vec<u8>,
        relay: TransportAddress,
        expires_at: u64,
    ) -> (a: Allocation)
        ensures
            a.wf(),
            a@ == (AllocationView {
                owner,
                username: username@,
                relay,
                expires_at,
                permissions: Map::<IpAddress, u64>::empty(),
                channels: Map::<u16, (TransportAddress, u64)>::empty(),
            }),
    {
        let a = Allocation {
            owner,
            username,
            relay,
            expires_at,
            permissions: Vec::new(),
            channels: Vec::new(),
        };
        proof {
            lemma_empty::<IpAddress, u64>();
            lemma_empty::<u16, (TransportAddress, u64)>();
            assert(a.permission_pairs() =~= Seq::<(IpAddress, u64)>::empty());
            assert(a.channel_pairs() =~= Seq::<(u16, (TransportAddress, u64))>::empty());
        }
        a
    }

    /// The owner.
    pub fn owner(&self) -> (o: FiveTuple)
        ensures
            o == self@.owner,
    {
        self.owner
    }

    /// Whether it was the user `username` that asked for the allocation.
    pub fn held_by(&self, username: &[u8]) -> (r: bool)
        ensures
            r == (self@.username == username@),
    {
        crate::wire::bytes_eq(self.username.as_slice(), username)
    }

    /// The relay address.
    pub fn relay(&self) -> (r: TransportAddress)
        ensures
            r == self@.relay,
    {
        self.relay
    }

    /// When the allocation expires.
    pub fn expires_at(&self) -> (t: u64)
        ensures
            t == self@.expires_at,
    {
        self.expires_at
    }

    /// Whether the allocation is still there at `now`.
    pub fn is_live(&self, now: u64) -> (r: bool)
        ensures
            r == live(self@.expires_at, now),
    {
        now < self.expires_at
    }

    /// Sets the time of expiry.
    pub fn set_expiry(&mut self, expires_at: u64)
        requires
            old(self).wf(),
        ensures
            final(self).wf(),
            final(self)@ == (AllocationView { expires_at, ..old(self)@ }),
    {
        self.expires_at = expires_at;
    }

    /// Where the permission of `peer` stands.
    fn permission_index(&self, peer: &IpAddress) -> (r: Option<usize>)
        ensures
            r is Some == has_key(self.permission_pairs(), *peer),
            r is Some ==> r->0 < self.permissions@.len() && self.permission_pairs()[r->0 as int].0
                == *peer,
    {
        let mut i: usize = 0;
        while i < self.permissions.len()
            invariant
                i <= self.permissions@.len(),
                forall|k: int| 0 <= k < i ==> (#[trigger] self.permission_pairs()[k]).0 != *peer,
            decreases self.permissions@.len() - i,
        {
            if self.permissions[i].peer.same(peer) {
                assert(self.permission_pairs()[i as int].0 == *peer);
                return Some(i);
            }
            i += 1;
        }
        None
    }

    /// Where the binding of channel `number` stands.
    fn channel_index(&self, number: u16) -> (r: Option<usize>)
        ensures
            r is Some == has_key(self.channel_pairs(), number),
            r is Some ==> r->0 < self.channels@.len() && self.channel_pairs()[r->0 as int].0
                == number,
    {
        let mut i: usize = 0;
        while i < self.channels.len()
            invariant
                i <= self.channels@.len(),
                forall|k: int| 0 <= k < i ==> (#[trigger] self.channel_pairs()[k]).0 != number,
            decreases self.channels@.len() - i,
        {
            if self.channels[i].number == number {
                assert(self.channel_pairs()[i as int].0 == number);
                return Some(i);
            }
            i += 1;
        }
        None
    }

    /// Where the binding to `peer` stands.
    fn peer_index(&self, peer: &TransportAddress) -> (r: Option<usize>)
        ensures
            r is Some ==> r->0 < self.channels@.len() && self.channels@[r->0 as int].peer == *peer,
            r is None ==> forall|k: int|
                0 <= k < self.channels@.len() ==> (#[trigger] self.channels@[k]).peer != *peer,
    {
        let mut i: usize = 0;
        while i < self.channels.len()
            invariant
                i <= self.channels@.len(),
                forall|k: int| 0 <= k < i ==> (#[trigger] self.channels@[k]).peer != *peer,
            decreases self.channels@.len() - i,
        {
            if self.channels[i].peer.same(peer) {
                return Some(i);
            }
            i += 1;
        }
        None
    }

    /// Gives `peer` a permission until `expires_at`, in place of the one it
    /// may have.
    pub fn permit(&mut self, peer: IpAddress, expires_at: u64)
        requires
            old(self).wf(),
        ensures
            final(self).wf(),
            final(self)@ == (AllocationView {
                permissions: old(self)@.permissions.insert(peer, expires_at),
                ..old(self)@
            }),
    {
        let ghost before = self.permission_pairs();
        match self.permission_index(&peer) {
            Some(i) => {
                proof {
                    lemma_update(before, i as int, expires_at);
                }
                self.permissions.set(i, Permission { peer, expires_at });
                assert(self.permission_pairs() =~= before.update(i as int, (peer, expires_at)));
            },
            None => {
                proof {
                    lemma_push(before, peer, expires_at);
                }
                self.permissions.push(Permission { peer, expires_at });
                assert(self.permission_pairs() =~= before.push((peer, expires_at)));
            },
        }
        assert(self.channel_pairs() =~= old(self).channel_pairs());
    }

    /// Whether `peer` may exchange data through the allocation at `now`.
    pub fn permits(&self, peer: &IpAddress, now: u64) -> (r: bool)
        requires
            self.wf(),
        ensures
            r == self@.permits(*peer, now),
    {
        match self.permission_index(peer) {
            None => false,
            Some(i) => {
                proof {
                    lemma_entry(self.permission_pairs(), i as int);
                }
                now < self.permissions[i].expires_at
            },
        }
    }

    /// Binds channel `number` to `peer` until `expires_at`, or renews the
    /// binding where it is there already. Refused where the number is bound
    /// to another peer or the peer to another number.
    pub fn bind(&mut self, number: u16, peer: TransportAddress, expires_at: u64) -> (r: Result<
        (),
        Error,
    >)
        requires
            old(self).wf(),
        ensures
            final(self).wf(),
            old(self)@.binding_conflicts(number, peer) ==> r == Err::<(), Error>(
                Error::ChannelAlreadyBound,
            ) && final(self)@ == old(self)@,
            !old(self)@.binding_conflicts(number, peer) ==> r is Ok && final(self)@ == (
            AllocationView {
                channels: old(self)@.channels.insert(number, (peer, expires_at)),
                ..old(self)@
            }),
    {
        let ghost before = self.channel_pairs();
        let ghost chans = self.channels@;
        match self.channel_index(number) {
            Some(i) => {
                proof {
                    lemma_entry(before, i as int);
                }
                if !self.channels[i].peer.same(&peer) {
                    return Err(Error::ChannelAlreadyBound);
                }
                proof {
                    lemma_update(before, i as int, (peer, expires_at));
                    assert forall|n: u16|
                        n != number && #[trigger] self@.channels.contains_key(n)
                            implies self@.channels[n].0 != peer by {
                        lemma_lookup(before, n);
                        let j = index_of(before, n);
                        if j < i {
                            assert(chans[j].peer != chans[i as int].peer);
                        } else if (i as int) < j {
                            assert(chans[i as int].peer != chans[j].peer);
                        }
                    }
                }
                self.channels.set(i, ChannelBinding { number, peer, expires_at });
                assert(self.channel_pairs() =~= before.update(i as int, (number, (peer, expires_at))));
                assert(self.permission_pairs() =~= old(self).permission_pairs());
                assert forall|a: int, b: int|
                    0 <= a < b < self.channels@.len() implies (#[trigger] self.channels@[a]).peer
                    != (#[trigger] self.channels@[b]).peer by {
                    assert(self.channels@[a].peer == chans[a].peer);
                    assert(self.channels@[b].peer == chans[b].peer);
                }
                Ok(())
            },
            None => {
                match self.peer_index(&peer) {
                    Some(j) => {
                        proof {
                            lemma_entry(before, j as int);
                            assert(before[j as int].0 != number);
                            assert(self@.channels.contains_key(before[j as int].0));
                        }
                        Err(Error::ChannelAlreadyBound)
                    },
                    None => {
                        proof {
                            lemma_push(before, number, (peer, expires_at));
                            assert forall|n: u16|
                                n != number && #[trigger] self@.channels.contains_key(n)
                                    implies self@.channels[n].0 != peer by {
                                lemma_lookup(before, n);
                                let j = index_of(before, n);
                                assert(chans[j].peer != peer);
                            }
                        }
                        self.channels.push(ChannelBinding { number, peer, expires_at });
                        assert(self.channel_pairs() =~= before.push((number, (peer, expires_at))));
                        assert(self.permission_pairs() =~= old(self).permission_pairs());
                        assert forall|a: int, b: int|
                            0 <= a < b < self.channels@.len() implies (
                        #[trigger] self.channels@[a]).peer != (#[trigger] self.channels@[b]).peer by {
                            if b < chans.len() {
                                assert(chans[a].peer != chans[b].peer);
                            } else {
                                assert(self.channels@[a] == chans[a]);
                            }
                        }
                        Ok(())
                    },
                }
            },
        }
    }

    /// The peer that channel `number` is bound to at `now`.
    pub fn peer_of(&self, number: u16, now: u64) -> (r: Option<TransportAddress>)
        requires
            self.wf(),
        ensures
            r is Some == (self@.channels.contains_key(number) && live(
                self@.channels[number].1,
                now,
            )),
            r is Some ==> r->0 == self@.channels[number].0,
    {
        match self.channel_index(number) {
            None => None,
            Some(i) => {
                proof {
                    lemma_entry(self.channel_pairs(), i as int);
                }
                if now < self.channels[i].expires_at {
                    Some(self.channels[i].peer)
                } else {
                    None
                }
            },
        }
    }

    /// The channel number that is bound to `peer` at `now`.
    pub fn channel_of(&self, peer: &TransportAddress, now: u64) -> (r: Option<u16>)
        requires
            self.wf(),
        ensures
            r is Some == (self@.has_channel_for(*peer) && live(
                self@.channels[self@.channel_for(*peer)].1,
                now,
            )),
            r is Some ==> r->0 == self@.channel_for(*peer),
    {
        proof {
            self.lemma_one_to_one();
        }
        match self.peer_index(peer) {
            None => {
                proof {
                    if self@.has_channel_for(*peer) {
                        let n = self@.channel_for(*peer);
                        lemma_lookup(self.channel_pairs(), n);
                        let j = index_of(self.channel_pairs(), n);
                        assert(self.channels@[j].peer == *peer);
                    }
                }
                None
            },
            Some(i) => {
                proof {
                    lemma_entry(self.channel_pairs(), i as int);
                    let n = self.channels@[i as int].number;
                    assert(self@.channels.contains_key(n) && self@.channels[n].0 == *peer);
                }
                if now < self.channels[i].expires_at {
                    Some(self.channels[i].number)
                } else {
                    None
                }
            },
        }
    }

    /// Takes out the permissions and channel bindings that are no longer
    /// there at `now`.
    pub fn sweep(&mut self, now: u64)
        requires
            old(self).wf(),
        ensures
            final(self).wf(),
            swept(old(self)@, final(self)@, now),
    {
        let mut i: usize = 0;
        while i < self.permissions.len()
            invariant
                self.wf(),
                i <= self.permissions@.len(),
                self@.owner == old(self)@.owner,
                self@.username == old(self)@.username,
                self@.relay == old(self)@.relay,
                self@.expires_at == old(self)@.expires_at,
                self@.channels == old(self)@.channels,
                forall|k: int| 0 <= k < i ==> live((#[trigger] self.permission_pairs()[k]).1, now),
                forall|p: IpAddress| #[trigger]
                    self@.permissions.contains_key(p) ==> old(self)@.permissions.contains_key(p)
                        && self@.permissions[p] == old(self)@.permissions[p],
                forall|p: IpAddress|
                    old(self)@.permissions.contains_key(p) && live(old(self)@.permissions[p], now)
                        ==> #[trigger] self@.permissions.contains_key(p),
            decreases self.permissions@.len() - i,
        {
            if now < self.permissions[i].expires_at {
                assert(self.permission_pairs()[i as int].1 == self.permissions@[i as int].expires_at);
                i += 1;
            } else {
                proof {
                    lemma_entry(self.permission_pairs(), i as int);
                    lemma_remove(self.permission_pairs(), i as int);
                }
                let ghost before = self.permission_pairs();
                let ghost before_map = self@.permissions;
                let ghost chans = self.channel_pairs();
                let ghost gone = before[i as int].0;
                assert(before[i as int].1 == self.permissions@[i as int].expires_at);
                self.permissions.remove(i);
                assert(self.permission_pairs() =~= before.remove(i as int));
                assert(self.channel_pairs() =~= chans);
                assert(self@.permissions == before_map.remove(gone));
                assert(before_map.contains_key(gone) && !live(before_map[gone], now));
                assert forall|k: int| 0 <= k < i implies live(
                    (#[trigger] self.permission_pairs()[k]).1,
                    now,
                ) by {
                    assert(self.permission_pairs()[k] == before[k]);
                }
            }
        }
        assert forall|p: IpAddress| #[trigger]
            self@.permissions.contains_key(p) implies live(old(self)@.permissions[p], now) by {
            let k = index_of(self.permission_pairs(), p);
            lemma_entry(self.permission_pairs(), k);
        }
        let ghost mid = self@;
        let mut j: usize = 0;
        while j < self.channels.len()
            invariant
                self.wf(),
                j <= self.channels@.len(),
                self@.owner == mid.owner,
                self@.username == mid.username,
                self@.relay == mid.relay,
                self@.expires_at == mid.expires_at,
                self@.permissions == mid.permissions,
                mid.channels == old(self)@.channels,
                forall|k: int| 0 <= k < j ==> live((#[trigger] self.channel_pairs()[k]).1.1, now),
                forall|n: u16| #[trigger]
                    self@.channels.contains_key(n) ==> mid.channels.contains_key(n)
                        && self@.channels[n] == mid.channels[n],
                forall|n: u16|
                    mid.channels.contains_key(n) && live(mid.channels[n].1, now) ==> #[trigger]
                    self@.channels.contains_key(n),
            decreases self.channels@.len() - j,
        {
            if now < self.channels[j].expires_at {
                assert(self.channel_pairs()[j as int].1.1 == self.channels@[j as int].expires_at);
                j += 1;
            } else {
                proof {
                    lemma_entry(self.channel_pairs(), j as int);
                    lemma_remove(self.channel_pairs(), j as int);
                }
                let ghost before = self.channel_pairs();
                let ghost before_map = self@.channels;
                let ghost perms = self.permission_pairs();
                let ghost chans = self.channels@;
                let ghost gone = before[j as int].0;
                assert(before[j as int].1.1 == self.channels@[j as int].expires_at);
                self.channels.remove(j);
                assert(self.channel_pairs() =~= before.remove(j as int));
                assert(self.permission_pairs() =~= perms);
                assert(self@.channels == before_map.remove(gone));
                assert(before_map.contains_key(gone) && !live(before_map[gone].1, now));
                assert forall|k: int| 0 <= k < j implies live(
                    (#[trigger] self.channel_pairs()[k]).1.1,
                    now,
                ) by {
                    assert(self.channel_pairs()[k] == before[k]);
                }
                assert forall|a: int, b: int|
                    0 <= a < b < self.channels@.len() implies (#[trigger] self.channels@[a]).peer
                    != (#[trigger] self.channels@[b]).peer by {
                    let a2 = if a < j { a } else { a + 1 };
                    let b2 = if b < j { b } else { b + 1 };
                    assert(self.channels@[a] == chans[a2] && self.channels@[b] == chans[b2]);
                    assert(chans[a2].peer != chans[b2].peer);
                }
            }
        }
        assert forall|n: u16| #[trigger]
            self@.channels.contains_key(n) implies live(old(self)@.channels[n].1, now) by {
            let k = index_of(self.channel_pairs(), n);
            lemma_entry(self.channel_pairs(), k);
        }
    }
}

/// Whether `number` is a channel number that can be bound.
pub open spec fn bindable(number: u16) -> bool {
    CHANNEL_MIN <= number <= CHANNEL_MAX
}

/// Whether `number` is a channel number that can be bound.
pub fn is_bindable(number: u16) -> (r: bool)
    ensures
        r == bindable(number),
{
    CHANNEL_MIN <= number && number <= CHANNEL_MAX
}

} // verus!
