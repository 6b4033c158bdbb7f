//! Nonces of the long-term-credential mechanism: how one is made, and the
//! store that remembers when each was issued.

use vstd::prelude::*;
use std::time::{Duration, SystemTime, SystemTimeError};
use crate::assoc::{as_map, has_key, keys_distinct, lemma_empty, lemma_entry, lemma_push, lemma_remove};
use crate::digest::{md5_digest, md5_sum, random_u64};
use crate::error::Error;
use crate::wire::bytes_eq;

verus! {

/// Bytes of a nonce: the 32 hexadecimal digits of an MD5 digest.
pub const NONCE_LEN: usize = 32;

/// An instant of the system clock. Nothing inside it is visible here.
#[verifier::external_type_specification]
#[verifier::external_body]
pub struct ExSystemTime(SystemTime);

/// `SystemTime::now` reads the system clock. Nothing is claimed of the
/// result.
pub assume_specification[ SystemTime::now ]() -> SystemTime;

/// `SystemTime::duration_since` gives the time from `earlier` to this
/// instant, or an error where `earlier` is the later one. Nothing is claimed
/// of the result.
pub assume_specification[ SystemTime::duration_since ](
    this: &SystemTime,
    earlier: SystemTime,
) -> Result<Duration, SystemTimeError>;

/// `Duration::as_nanos` gives a duration in nanoseconds. Nothing is claimed
/// of the result.
pub assume_specification[ Duration::as_nanos ](this: &Duration) -> u128;

/// `SystemTime::UNIX_EPOCH`, the instant from which the system clock counts.
/// Nothing is claimed of it.
#[verifier::external_body]
fn unix_epoch() -> SystemTime {
    SystemTime::UNIX_EPOCH
}

/// The ASCII digit for `d`.
pub open spec fn digit(d: int) -> u8 {
    (48 + d) as u8
}

/// The decimal digits of `n` in ASCII, without leading zeros.
pub open spec fn decimal(n: nat) -> Seq<u8>
    decreases n,
{
    if n < 10 {
        seq![digit(n as int)]
    } else {
        decimal(n / 10).push(digit(n as int % 10))
    }
}

/// The lowercase hexadecimal digit for `d` in ASCII.
pub open spec fn hex_digit(d: int) -> u8 {
    if d < 10 {
        (48 + d) as u8
    } else {
        (87 + d) as u8
    }
}

/// The bytes of `data` as lowercase hexadecimal digits in ASCII, two for
/// each byte.
pub open spec fn hex(data: Seq<u8>) -> Seq<u8> {
    Seq::new(
        2 * data.len(),
        |i: int|
            if i % 2 == 0 {
                hex_digit(data[i / 2] as int / 16)
            } else {
                hex_digit(data[i / 2] as int % 16)
            },
    )
}

/// What is hashed into a nonce: the clock's nanoseconds and a random number,
/// both in decimal, one behind the other.
pub open spec fn nonce_seed(nanos: u128, random: u64) -> Seq<u8> {
    decimal(nanos as nat) + decimal(random as nat)
}

/// The nonce for a reading of the clock and a random number: the MD5 digest
/// of the seed in hexadecimal.
pub open spec fn nonce_of(nanos: u128, random: u64) -> Seq<u8> {
    hex(md5_digest(nonce_seed(nanos, random)))
}

/// Whether `nonce` is the nonce for some reading of the clock and some random
/// number.
pub open spec fn made(nonce: Seq<u8>) -> bool {
    exists|nanos: u128, random: u64| nonce == #[trigger] nonce_of(nanos, random)
}

/// Appends the decimal digits of `n`.
pub fn push_decimal(out: &mut Vec<u8>, n: u128)
    ensures
        final(out)@ == old(out)@ + decimal(n as nat),
{
    let mut digits: Vec<u8> = Vec::new();
    let mut rest: u128 = n;
    // `digits` holds the digits below `rest`, least significant first.
    while rest >= 10
        invariant
            decimal(n as nat) == decimal(rest as nat) + digits@.reverse(),
        decreases rest,
    {
        let d: u8 = (rest % 10) as u8;
        let c: u8 = 48 + d;
        proof {
            let before = digits@;
            let after = before.push(c);
            assert(after.reverse() =~= seq![c] + before.reverse());
            assert(c == digit(rest as int % 10));
            assert(decimal(rest as nat) == decimal((rest / 10) as nat).push(c));
            assert(decimal(rest as nat) + before.reverse() =~= decimal((rest / 10) as nat)
                + after.reverse());
        }
        digits.push(c);
        rest = rest / 10;
    }
    let ghost before = old(out)@;
    out.push(48u8 + (rest as u8));
    assert(decimal(rest as nat) =~= seq![digit(rest as int)]);
    let mut i: usize = digits.len();
    while i > 0
        invariant
            i <= digits@.len(),
            out@ == before + decimal(rest as nat) + digits@.reverse().subrange(
                0,
                digits@.len() - i,
            ),
        decreases i,
    {
        i -= 1;
        out.push(digits[i]);
        assert(out@ =~= before + decimal(rest as nat) + digits@.reverse().subrange(
            0,
            digits@.len() - i,
        ));
    }
    assert(digits@.reverse().subrange(0, digits@.len() as int) =~= digits@.reverse());
    assert(out@ =~= before + decimal(n as nat));
}

/// The lowercase hexadecimal digit for `d`.
fn hex_digit_of(d: u8) -> (c: u8)
    requires
        d < 16,
    ensures
        c == hex_digit(d as int),
{
    if d < 10 {
        48 + d
    } else {
        87 + d
    }
}

/// The bytes of `data` as lowercase hexadecimal digits.
pub fn to_hex(data: &[u8]) -> (text: Vec<u8>)
    ensures
        text@ == hex(data@),
{
    let mut text: Vec<u8> = Vec::new();
    let mut i: usize = 0;
    while i < data.len()
        invariant
            i <= data@.len(),
            text@ == hex(data@.subrange(0, i as int)),
        decreases data@.len() - i,
    {
        let b = data[i];
        text.push(hex_digit_of(b / 16));
        text.push(hex_digit_of(b % 16));
        i += 1;
        assert(text@ =~= hex(data@.subrange(0, i as int))) by {
            let h = hex(data@.subrange(0, i as int));
            assert(text@.len() == h.len());
            assert forall|k: int| 0 <= k < h.len() implies text@[k] == h[k] by {
                if k < 2 * (i - 1) {
                    assert(text@[k] == hex(data@.subrange(0, i - 1))[k]);
                    assert(data@.subrange(0, i - 1)[k / 2] == data@.subrange(0, i as int)[k / 2]);
                }
            }
        }
    }
    assert(data@.subrange(0, i as int) =~= data@);
    text
}

/// The nonce for a reading of the clock and a random number.
pub fn nonce_from(nanos: u128, random: u64) -> (nonce: Vec<u8>)
    ensures
        nonce@ == nonce_of(nanos, random),
        nonce@.len() == NONCE_LEN,
{
    let mut seed: Vec<u8> = Vec::new();
    push_decimal(&mut seed, nanos);
    push_decimal(&mut seed, random as u128);
    assert(seed@ =~= nonce_seed(nanos, random));
    let digest = md5_sum(seed.as_slice());
    to_hex(digest.as_slice())
}

/// A fresh nonce, made from the system clock and a random number. Fails
/// where the clock stands before its own epoch.
pub fn build_nonce() -> (r: Result<Vec<u8>, Error>)
    ensures
        r is Ok ==> r->Ok_0@.len() == NONCE_LEN && made(r->Ok_0@),
        r is Err ==> r->Err_0 is Other,
{
    let now = SystemTime::now();
    match now.duration_since(unix_epoch()) {
        Err(e) => Err(Error::from(e)),
        Ok(elapsed) => {
            let nanos = elapsed.as_nanos();
            let random = random_u64();
            Ok(nonce_from(nanos, random))
        },
    }
}

/// A nonce and the time at which it was issued.
pub struct NonceEntry {
    pub nonce: Vec<u8>,
    pub issued_at: u64,
}

/// The nonces that are out, each with the time at which it was issued.
pub struct NonceStore {
    entries: Vec<NonceEntry>,
}

/// Whether a nonce issued at `issued_at` is past its lifetime at `now`.
pub open spec fn expired(issued_at: u64, now: u64, lifetime: u64) -> bool {
    issued_at + lifetime < now
}

/// Whether a nonce issued at `issued_at` is past its lifetime at `now`.
pub fn is_expired(issued_at: u64, now: u64, lifetime: u64) -> (r: bool)
    ensures
        r == expired(issued_at, now, lifetime),
{
    now > issued_at && now - issued_at > lifetime
}

impl NonceStore {
    /// The entries as pairs of nonce and time.
    pub closed spec fn pairs(&self) -> Seq<(Seq<u8>, u64)> {
        Seq::new(
            self.entries@.len(),
            |i: int| (self.entries@[i].nonce@, self.entries@[i].issued_at),
        )
    }

    /// No nonce is in the store twice.
    pub closed spec fn wf(&self) -> bool {
        keys_distinct(self.pairs())
    }

    /// The number of nonces in the store.
    pub closed spec fn spec_len(&self) -> nat {
        self.entries@.len()
    }

    /// The store holds as many different nonces as it has entries.
    pub proof fn lemma_entries_distinct(&self)
        requires
            self.wf(),
        ensures
            self@.dom().finite(),
            self@.dom().len() == self.spec_len(),
    {
        crate::assoc::lemma_len(self.pairs());
    }

    /// An empty store.
    pub fn new() -> (store: NonceStore)
        ensures
            store.wf(),
            store@ == Map::<Seq<u8>, u64>::empty(),
            store.spec_len() == 0,
    {
        let store = NonceStore { entries: Vec::new() };
        proof {
            lemma_empty::<Seq<u8>, u64>();
            assert(store.pairs() =~= Seq::<(Seq<u8>, u64)>::empty());
        }
        store
    }

    /// The number of nonces in the store.
    pub fn len(&self) -> (n: usize)
        ensures
            n == self.spec_len(),
    {
        self.entries.len()
    }

    /// Where `nonce` stands among the entries.
    fn position(&self, nonce: &[u8]) -> (r: Option<usize>)
        ensures
            r is Some == has_key(self.pairs(), nonce@),
            r is Some ==> r->0 < self.entries@.len() && self.pairs()[r->0 as int].0 == nonce@,
    {
        let mut i: usize = 0;
        while i < self.entries.len()
            invariant
                i <= self.entries@.len(),
                forall|k: int| 0 <= k < i ==> (#[trigger] self.pairs()[k]).0 != nonce@,
            decreases self.entries@.len() - i,
        {
            if bytes_eq(self.entries[i].nonce.as_slice(), nonce) {
                assert(self.pairs()[i as int].0 == nonce@);
                return Some(i);
            }
            i += 1;
        }
        None
    }

    /// When `nonce` was issued, if it is in the store.
    pub fn issued_at(&self, nonce: &[u8]) -> (r: Option<u64>)
        requires
            self.wf(),
        ensures
            r is Some == self@.contains_key(nonce@),
            r is Some ==> r->0 == self@[nonce@],
    {
        match self.position(nonce) {
            None => None,
            Some(i) => {
                proof {
                    lemma_entry(self.pairs(), i as int);
                }
                Some(self.entries[i].issued_at)
            },
        }
    }

    /// Records that `nonce` was issued at `now`. A nonce that is already in
    /// the store is refused and the store left as it is.
    pub fn insert(&mut self, nonce: Vec<u8>, now: u64) -> (r: Result<(), Error>)
        requires
            old(self).wf(),
        ensures
            final(self).wf(),
            old(self)@.contains_key(nonce@) ==> r == Err::<(), Error>(Error::ErrDuplicatedNonce)
                && final(self)@ == old(self)@ && final(self).spec_len() == old(self).spec_len(),
            !old(self)@.contains_key(nonce@) ==> r is Ok && final(self)@ == old(self)@.insert(
                nonce@,
                now,
            ) && final(self).spec_len() == old(self).spec_len() + 1,
    {
        if self.position(nonce.as_slice()).is_some() {
            return Err(Error::ErrDuplicatedNonce);
        }
        proof {
            lemma_push(self.pairs(), nonce@, now);
        }
        let ghost before = self.pairs();
        let ghost key = nonce@;
        self.entries.push(NonceEntry { nonce, issued_at: now });
        assert(self.pairs() =~= before.push((key, now)));
        Ok(())
    }

    /// Whether `nonce` is in the store and within its lifetime at `now`. A
    /// nonce that is found past its lifetime is taken out.
    pub fn check(&mut self, nonce: &[u8], now: u64, lifetime: u64) -> (ok: bool)
        requires
            old(self).wf(),
        ensures
            final(self).wf(),
            ok == (old(self)@.contains_key(nonce@) && !expired(old(self)@[nonce@], now, lifetime)),
            old(self)@.contains_key(nonce@) && expired(old(self)@[nonce@], now, lifetime)
                ==> final(self)@ == old(self)@.remove(nonce@),
            !(old(self)@.contains_key(nonce@) && expired(old(self)@[nonce@], now, lifetime))
                ==> final(self)@ == old(self)@,
    {
        match self.position(nonce) {
            None => false,
            Some(i) => {
                proof {
                    lemma_entry(self.pairs(), i as int);
                }
                if is_expired(self.entries[i].issued_at, now, lifetime) {
                    proof {
                        lemma_remove(self.pairs(), i as int);
                    }
                    let ghost before = self.pairs();
                    self.entries.remove(i);
                    assert(self.pairs() =~= before.remove(i as int));
                    false
                } else {
                    true
                }
            },
        }
    }

    /// Takes out every nonce that is past its lifetime at `now`.
    pub fn purge(&mut self, now: u64, lifetime: u64)
        requires
            old(self).wf(),
        ensures
            final(self).wf(),
            forall|n: Seq<u8>| #[trigger]
                final(self)@.contains_key(n) == (old(self)@.contains_key(n) && !expired(
                    old(self)@[n],
                    now,
                    lifetime,
                )),
            forall|n: Seq<u8>| #[trigger]
                final(self)@.contains_key(n) ==> final(self)@[n] == old(self)@[n],
    {
        let mut i: usize = 0;
        while i < self.entries.len()
            invariant
                self.wf(),
                i <= self.entries@.len(),
                forall|k: int| 0 <= k < i ==> !expired((#[trigger] self.pairs()[k]).1, now, lifetime),
                forall|n: Seq<u8>| #[trigger]
                    self@.contains_key(n) ==> old(self)@.contains_key(n) && self@[n] == old(
                        self,
                    )@[n],
                forall|n: Seq<u8>|
                    old(self)@.contains_key(n) && !expired(old(self)@[n], now, lifetime)
                        ==> #[trigger] self@.contains_key(n),
            decreases self.entries@.len() - i,
        {
            if is_expired(self.entries[i].issued_at, now, lifetime) {
                proof {
                    lemma_entry(self.pairs(), i as int);
                    lemma_remove(self.pairs(), i as int);
                }
                let ghost before = self.pairs();
                let ghost before_map = self@;
                let ghost gone = before[i as int].0;
                assert(before[i as int].1 == self.entries@[i as int].issued_at);
                self.entries.remove(i);
                assert(self.pairs() =~= before.remove(i as int));
                assert(self@ == before_map.remove(gone));
                assert(before_map.contains_key(gone) && expired(before_map[gone], now, lifetime));
                assert forall|k: int| 0 <= k < i implies !expired(
                    (#[trigger] self.pairs()[k]).1,
                    now,
                    lifetime,
                ) by {
                    assert(self.pairs()[k] == before[k]);
                }
            } else {
                assert(self.pairs()[i as int].1 == self.entries@[i as int].issued_at);
                i += 1;
            }
        }
        assert forall|n: Seq<u8>| #[trigger]
            self@.contains_key(n) implies !expired(old(self)@[n], now, lifetime) by {
            let k = crate::assoc::index_of(self.pairs(), n);
            lemma_entry(self.pairs(), k);
        }
    }
}

impl View for NonceStore {
    type V = Map<Seq<u8>, u64>;

    closed spec fn view(&self) -> Map<Seq<u8>, u64> {
        as_map(self.pairs())
    }
}

} // verus!
