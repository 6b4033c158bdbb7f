//! The long-term-credential key, MESSAGE-INTEGRITY and FINGERPRINT: how they
//! are computed over a message and how they are checked on received bytes.

use vstd::prelude::*;
use crate::attribute::{
    ATTR_FINGERPRINT, ATTR_MESSAGE_INTEGRITY, Attribute, AttributeView, INTEGRITY_LEN,
};
use crate::digest::{
    fingerprint_of, fingerprint_value, hmac_sha1, hmac_sha1_digest, md5_digest, md5_sum,
};
use crate::error::Error;
use crate::address::TransactionId;
use crate::message::{
    HEADER_LEN, MAX_BODY_LEN, Message, MessageView, encode_attrs, lemma_encode_attrs_push,
    lemma_values_fit,
};
use crate::wire::{
    copy_range, lemma_u16_round_trip, lemma_u32_round_trip, pad_len, push_bytes, read_u16,
    read_u32, u16_at, u16_be, u32_at, u32_be, with_u16_at,
};

verus! {

/// Bytes that a MESSAGE-INTEGRITY attribute takes on the wire, header
/// included.
pub const INTEGRITY_ATTR_LEN: usize = 24;

/// Bytes that a FINGERPRINT attribute takes on the wire, header included.
pub const FINGERPRINT_ATTR_LEN: usize = 8;

/// The colon between user name, realm and password.
pub const SEPARATOR: u8 = 0x3A;

/// What is hashed into the long-term key: user name, realm and password
/// with a colon between them.
pub open spec fn key_input(username: Seq<u8>, realm: Seq<u8>, password: Seq<u8>) -> Seq<u8> {
    username + seq![SEPARATOR] + realm + seq![SEPARATOR] + password
}

/// The long-term key: the MD5 digest of `username:realm:password`.
pub open spec fn long_term_key(username: Seq<u8>, realm: Seq<u8>, password: Seq<u8>) -> Seq<u8> {
    md5_digest(key_input(username, realm, password))
}

/// The long-term key of a user in a realm.
pub fn derive_key(username: &[u8], realm: &[u8], password: &[u8]) -> (key: Vec<u8>)
    ensures
        key@ == long_term_key(username@, realm@, password@),
        key@.len() == 16,
{
    let mut input: Vec<u8> = Vec::new();
    push_bytes(&mut input, username);
    input.push(SEPARATOR);
    push_bytes(&mut input, realm);
    input.push(SEPARATOR);
    push_bytes(&mut input, password);
    assert(input@ =~= key_input(username@, realm@, password@));
    md5_sum(input.as_slice())
}

/// Where the first attribute of type `typ` starts in `b`, walking the
/// attributes from `pos` on. `None` where there is none before the end or
/// before the first attribute that does not fit.
pub open spec fn locate(b: Seq<u8>, pos: int, typ: u16) -> Option<int>
    decreases b.len() - pos,
{
    if pos < 0 || pos + 4 > b.len() {
        None
    } else {
        let len = u16_at(b, pos + 2) as int;
        let end = pos + 4 + len + pad_len(len);
        if end > b.len() {
            None
        } else if u16_at(b, pos) == typ {
            Some(pos)
        } else {
            locate(b, end, typ)
        }
    }
}

/// The bytes that a digest over a message covers: those in front of the
/// attribute at `at`, with the length field of the header set as if the
/// message ended `extra` bytes behind `at`.
pub open spec fn covered(b: Seq<u8>, at: int, extra: int) -> Seq<u8> {
    with_u16_at(b.subrange(0, at), 2, (at - HEADER_LEN + extra) as u16)
}

/// Whether what follows the integrity attribute at `at` is nothing, or one
/// FINGERPRINT attribute and nothing else.
pub open spec fn integrity_is_last(b: Seq<u8>, at: int) -> bool {
    at + INTEGRITY_ATTR_LEN == b.len() || (at + INTEGRITY_ATTR_LEN + FINGERPRINT_ATTR_LEN
        == b.len() && u16_at(b, at + INTEGRITY_ATTR_LEN) == ATTR_FINGERPRINT)
}

/// Whether `b` carries a MESSAGE-INTEGRITY attribute, in the last place or
/// followed by a FINGERPRINT only, whose value is the HMAC-SHA1 under `key`
/// of the bytes in front of it, the length field counting up to its end.
pub open spec fn integrity_ok(b: Seq<u8>, key: Seq<u8>) -> bool {
    match locate(b, HEADER_LEN as int, ATTR_MESSAGE_INTEGRITY) {
        None => false,
        Some(at) => {
            &&& u16_at(b, at + 2) == INTEGRITY_LEN
            &&& at - HEADER_LEN + INTEGRITY_ATTR_LEN <= MAX_BODY_LEN
            &&& integrity_is_last(b, at)
            &&& b.subrange(at + 4, at + INTEGRITY_ATTR_LEN) == hmac_sha1_digest(
                key,
                covered(b, at, INTEGRITY_ATTR_LEN as int),
            )
        },
    }
}

/// Whether the last attribute of `b` is a FINGERPRINT whose value is the
/// fingerprint of the bytes in front of it, the length field counting up to
/// its end.
pub open spec fn fingerprint_ok(b: Seq<u8>) -> bool {
    match locate(b, HEADER_LEN as int, ATTR_FINGERPRINT) {
        None => false,
        Some(at) => {
            &&& u16_at(b, at + 2) == 4
            &&& at - HEADER_LEN + FINGERPRINT_ATTR_LEN <= MAX_BODY_LEN
            &&& at + FINGERPRINT_ATTR_LEN == b.len()
            &&& u32_at(b, at + 4) == fingerprint_of(covered(b, at, FINGERPRINT_ATTR_LEN as int))
        },
    }
}

impl MessageView {
    /// The MESSAGE-INTEGRITY value of this message under `key`: the HMAC-SHA1
    /// of its bytes, the length field counting the integrity attribute that
    /// is to follow.
    pub open spec fn integrity_tag(self, key: Seq<u8>) -> Seq<u8> {
        hmac_sha1_digest(
            key,
            with_u16_at(self.encode(), 2, (self.body().len() + INTEGRITY_ATTR_LEN) as u16),
        )
    }

    /// This message with its MESSAGE-INTEGRITY under `key` behind its
    /// attributes.
    pub open spec fn signed(self, key: Seq<u8>) -> MessageView {
        self.with(AttributeView::MessageIntegrity(self.integrity_tag(key)))
    }

    /// The FINGERPRINT value of this message: the fingerprint of its bytes,
    /// the length field counting the fingerprint attribute that is to follow.
    pub open spec fn fingerprint(self) -> u32 {
        fingerprint_of(
            with_u16_at(self.encode(), 2, (self.body().len() + FINGERPRINT_ATTR_LEN) as u16),
        )
    }

    /// This message with its FINGERPRINT behind its attributes.
    pub open spec fn fingerprinted(self) -> MessageView {
        self.with(AttributeView::Fingerprint(self.fingerprint()))
    }

    /// Whether an attribute can be added that takes `extra` bytes and must not
    /// come behind a FINGERPRINT.
    pub open spec fn can_take(self, extra: int) -> bool {
        self.valid() && !self.contains(ATTR_FINGERPRINT) && self.body().len() + extra
            <= MAX_BODY_LEN
    }

    /// Whether MESSAGE-INTEGRITY can be added: the message is valid, carries
    /// neither a MESSAGE-INTEGRITY nor a FINGERPRINT, and has room for it.
    pub open spec fn can_sign(self) -> bool {
        self.can_take(INTEGRITY_ATTR_LEN as int) && !self.contains(ATTR_MESSAGE_INTEGRITY)
    }

    /// Why MESSAGE-INTEGRITY cannot be added, where it cannot: `Malformed`
    /// where the message already carries one or a FINGERPRINT, the reason
    /// for which the message cannot be written where it is not valid, and
    /// `MessageTooLong` where the attribute no longer fits.
    pub open spec fn sign_error(self) -> Error {
        if self.contains(ATTR_MESSAGE_INTEGRITY) || self.contains(ATTR_FINGERPRINT) {
            Error::Malformed
        } else if !self.valid() {
            self.encode_error()
        } else {
            Error::MessageTooLong
        }
    }

    /// Why FINGERPRINT cannot be added, where it cannot.
    pub open spec fn fingerprint_error(self) -> Error {
        if self.contains(ATTR_FINGERPRINT) {
            Error::Malformed
        } else if !self.valid() {
            self.encode_error()
        } else {
            Error::MessageTooLong
        }
    }
}

/// XOR of two bytes is zero exactly when they are equal.
proof fn lemma_xor_zero(a: u8, b: u8)
    by (bit_vector)
    ensures
        (a ^ b == 0) == (a == b),
{
}

/// OR of two bytes is zero exactly when both are zero.
proof fn lemma_or_zero(a: u8, b: u8)
    by (bit_vector)
    ensures
        (a | b == 0) == (a == 0 && b == 0),
{
}

/// Whether two byte strings hold the same bytes. For strings of one length
/// every byte is looked at, whatever the others were.
pub fn constant_time_eq(a: &[u8], b: &[u8]) -> (same: bool)
    ensures
        same == (a@ == b@),
{
    if a.len() != b.len() {
        return false;
    }
    let mut diff: u8 = 0;
    let mut i: usize = 0;
    assert(a@.subrange(0, 0) =~= b@.subrange(0, 0));
    while i < a.len()
        invariant
            i <= a@.len(),
            a@.len() == b@.len(),
            (diff == 0) == (a@.subrange(0, i as int) == b@.subrange(0, i as int)),
        decreases a@.len() - i,
    {
        let x: u8 = a[i] ^ b[i];
        proof {
            lemma_xor_zero(a[i as int], b[i as int]);
            lemma_or_zero(diff, x);
            let pa = a@.subrange(0, i as int);
            let pb = b@.subrange(0, i as int);
            let qa = a@.subrange(0, i + 1);
            let qb = b@.subrange(0, i + 1);
            if pa == pb && a[i as int] == b[i as int] {
                assert forall|k: int| 0 <= k < i + 1 implies qa[k] == qb[k] by {
                    if k < i {
                        assert(qa[k] == pa[k] && qb[k] == pb[k]);
                    }
                }
                assert(qa =~= qb);
            }
            if qa == qb {
                assert(qa[i as int] == qb[i as int]);
                assert forall|k: int| 0 <= k < i implies pa[k] == pb[k] by {
                    assert(qa[k] == qb[k]);
                }
                assert(pa =~= pb);
            }
        }
        diff = diff | x;
        i += 1;
    }
    assert(a@.subrange(0, i as int) =~= a@ && b@.subrange(0, i as int) =~= b@);
    diff == 0
}

/// Where the first attribute of type `typ` starts in `packet`.
pub fn find_attribute(packet: &[u8], typ: u16) -> (r: Option<usize>)
    ensures
        r is Some == locate(packet@, HEADER_LEN as int, typ) is Some,
        r is Some ==> locate(packet@, HEADER_LEN as int, typ) == Some(r->0 as int),
        r is Some ==> HEADER_LEN <= r->0 && r->0 + 4 + u16_at(packet@, r->0 + 2) <= packet@.len(),
{
    let n = packet.len();
    let mut pos: usize = HEADER_LEN;
    while pos < n
        invariant
            HEADER_LEN <= pos,
            n == packet@.len(),
            locate(packet@, pos as int, typ) == locate(packet@, HEADER_LEN as int, typ),
        decreases n - pos,
    {
        if n - pos < 4 {
            return None;
        }
        let len = read_u16(packet, pos + 2) as usize;
        let padded = len + (4 - len % 4) % 4;
        if n - pos - 4 < padded {
            return None;
        }
        if read_u16(packet, pos) == typ {
            return Some(pos);
        }
        pos = pos + 4 + padded;
    }
    None
}

/// The bytes in front of `at`, with the length field set as if the message
/// ended `extra` bytes behind `at`.
fn covered_bytes(packet: &[u8], at: usize, extra: usize) -> (region: Vec<u8>)
    requires
        HEADER_LEN <= at <= packet@.len(),
        at - HEADER_LEN + extra <= MAX_BODY_LEN,
    ensures
        region@ == covered(packet@, at as int, extra as int),
{
    let mut region = copy_range(packet, 0, at);
    let declared: usize = at - HEADER_LEN + extra;
    region.set(2, (declared / 256) as u8);
    region.set(3, (declared % 256) as u8);
    assert(region@ =~= covered(packet@, at as int, extra as int));
    region
}

/// Whether `packet` carries the MESSAGE-INTEGRITY that `key` gives it. The
/// values are compared in constant time.
pub fn check_integrity(packet: &[u8], key: &[u8]) -> (ok: bool)
    ensures
        ok == integrity_ok(packet@, key@),
{
    match find_attribute(packet, ATTR_MESSAGE_INTEGRITY) {
        None => false,
        Some(at) => {
            let n = packet.len();
            if read_u16(packet, at + 2) as usize != INTEGRITY_LEN {
                return false;
            }
            if at - HEADER_LEN + INTEGRITY_ATTR_LEN > MAX_BODY_LEN {
                return false;
            }
            let last = n - at == INTEGRITY_ATTR_LEN || (n - at == INTEGRITY_ATTR_LEN
                + FINGERPRINT_ATTR_LEN && read_u16(packet, at + INTEGRITY_ATTR_LEN)
                == ATTR_FINGERPRINT);
            if !last {
                return false;
            }
            let region = covered_bytes(packet, at, INTEGRITY_ATTR_LEN);
            let expected = hmac_sha1(key, region.as_slice());
            let carried = vstd::slice::slice_subrange(packet, at + 4, at + INTEGRITY_ATTR_LEN);
            constant_time_eq(carried, expected.as_slice())
        },
    }
}

/// Whether `packet` carries the MESSAGE-INTEGRITY that the long-term key of
/// `username` with `password` in `realm` gives it.
pub fn verify(packet: &[u8], username: &[u8], realm: &[u8], password: &[u8]) -> (ok: bool)
    ensures
        ok == integrity_ok(packet@, long_term_key(username@, realm@, password@)),
{
    let key = derive_key(username, realm, password);
    check_integrity(packet, key.as_slice())
}

/// Whether `packet` ends in the FINGERPRINT that its bytes give it.
pub fn check_fingerprint(packet: &[u8]) -> (ok: bool)
    ensures
        ok == fingerprint_ok(packet@),
{
    match find_attribute(packet, ATTR_FINGERPRINT) {
        None => false,
        Some(at) => {
            let n = packet.len();
            if read_u16(packet, at + 2) != 4 {
                return false;
            }
            if at - HEADER_LEN + FINGERPRINT_ATTR_LEN > MAX_BODY_LEN {
                return false;
            }
            if n - at != FINGERPRINT_ATTR_LEN {
                return false;
            }
            let region = covered_bytes(packet, at, FINGERPRINT_ATTR_LEN);
            read_u32(packet, at + 4) == fingerprint_value(region.as_slice())
        },
    }
}

/// Adding an attribute of `extra` bytes to a valid message that has room
/// for it leaves a valid message.
proof fn lemma_with_valid(m: MessageView, a: AttributeView, extra: int)
    requires
        m.valid(),
        a.valid(),
        a.encode(m.transaction_id).len() == extra,
        m.body().len() + extra <= MAX_BODY_LEN,
    ensures
        m.with(a).valid(),
        m.with(a).body() == m.body() + a.encode(m.transaction_id),
{
    lemma_encode_attrs_push(m.attributes, a, m.transaction_id);
    let w = m.with(a);
    assert forall|i: int| 0 <= i < w.attributes.len() implies (#[trigger] w.attributes[i]).valid() by {
        if i < m.attributes.len() {
            assert(w.attributes[i] == m.attributes[i]);
        }
    }
}

impl Message {
    /// Puts the MESSAGE-INTEGRITY under `key` behind the attributes, unless
    /// the message is not valid, already carries one or a FINGERPRINT, or
    /// has no room for it.
    pub fn add_integrity(&mut self, key: &[u8]) -> (r: Result<(), Error>)
        ensures
            old(self)@.can_sign() ==> {
                &&& r is Ok
                &&& final(self)@ == old(self)@.signed(key@)
                &&& final(self)@.valid()
                &&& integrity_ok(final(self)@.encode(), key@)
            },
            !old(self)@.can_sign() ==> {
                &&& r == Err::<(), Error>(old(self)@.sign_error())
                &&& final(self)@ == old(self)@
            },
    {
        if self.contains(ATTR_MESSAGE_INTEGRITY) || self.contains(ATTR_FINGERPRINT) {
            return Err(Error::Malformed);
        }
        let bytes = match self.encode() {
            Ok(bytes) => bytes,
            Err(e) => {
                return Err(e);
            },
        };
        if bytes.len() - HEADER_LEN + INTEGRITY_ATTR_LEN > MAX_BODY_LEN {
            return Err(Error::MessageTooLong);
        }
        let region = with_declared(bytes, INTEGRITY_ATTR_LEN);
        let tag = hmac_sha1(key, region.as_slice());
        let ghost before = self@;
        proof {
            let a = AttributeView::MessageIntegrity(tag@);
            assert(a.encode(before.transaction_id).len() == INTEGRITY_ATTR_LEN);
            lemma_with_valid(before, a, INTEGRITY_ATTR_LEN as int);
            lemma_signed_verifies(before, key@);
        }
        self.attributes.push(Attribute::MessageIntegrity(tag));
        assert(self@.attributes =~= before.attributes.push(AttributeView::MessageIntegrity(tag@)));
        Ok(())
    }

    /// Puts the FINGERPRINT behind the attributes, unless the message is not
    /// valid, already carries one, or has no room for it.
    pub fn add_fingerprint(&mut self) -> (r: Result<(), Error>)
        ensures
            old(self)@.can_take(FINGERPRINT_ATTR_LEN as int) ==> {
                &&& r is Ok
                &&& final(self)@ == old(self)@.fingerprinted()
                &&& final(self)@.valid()
                &&& fingerprint_ok(final(self)@.encode())
            },
            !old(self)@.can_take(FINGERPRINT_ATTR_LEN as int) ==> r == Err::<(), Error>(
                old(self)@.fingerprint_error(),
            ) && final(self)@ == old(self)@,
    {
        if self.contains(ATTR_FINGERPRINT) {
            return Err(Error::Malformed);
        }
        let bytes = match self.encode() {
            Ok(bytes) => bytes,
            Err(e) => {
                return Err(e);
            },
        };
        if bytes.len() - HEADER_LEN + FINGERPRINT_ATTR_LEN > MAX_BODY_LEN {
            return Err(Error::MessageTooLong);
        }
        let region = with_declared(bytes, FINGERPRINT_ATTR_LEN);
        let value = fingerprint_value(region.as_slice());
        let ghost before = self@;
        proof {
            let a = AttributeView::Fingerprint(value);
            assert(a.encode(before.transaction_id).len() == FINGERPRINT_ATTR_LEN);
            lemma_with_valid(before, a, FINGERPRINT_ATTR_LEN as int);
            lemma_fingerprinted_verifies(before);
        }
        self.attributes.push(Attribute::Fingerprint(value));
        assert(self@.attributes =~= before.attributes.push(AttributeView::Fingerprint(value)));
        Ok(())
    }
}

/// The bytes of a message with the length field set as if `extra` more bytes
/// followed.
fn with_declared(bytes: Vec<u8>, extra: usize) -> (region: Vec<u8>)
    requires
        bytes@.len() >= HEADER_LEN,
        bytes@.len() - HEADER_LEN + extra <= MAX_BODY_LEN,
    ensures
        region@ == with_u16_at(bytes@, 2, (bytes@.len() - HEADER_LEN + extra) as u16),
{
    let mut region = bytes;
    let declared: usize = region.len() - HEADER_LEN + extra;
    region.set(2, (declared / 256) as u8);
    region.set(3, (declared % 256) as u8);
    assert(region@ =~= with_u16_at(bytes@, 2, declared as u16));
    region
}

/// The header of the attribute whose bytes stand at `pos` in `b`.
proof fn lemma_attr_at(b: Seq<u8>, pos: int, a: AttributeView, tid: TransactionId)
    requires
        0 <= pos,
        pos + a.encode(tid).len() <= b.len(),
        b.subrange(pos, pos + a.encode(tid).len()) == a.encode(tid),
        a.value(tid).len() <= 65535,
    ensures
        u16_at(b, pos) == a.code(),
        u16_at(b, pos + 2) == a.value(tid).len(),
        a.encode(tid).len() == 4 + a.value(tid).len() + pad_len(a.value(tid).len() as int),
        b.subrange(pos + 4, pos + 4 + a.value(tid).len()) == a.value(tid),
{
    let e = a.encode(tid);
    let v = a.value(tid);
    let part = b.subrange(pos, pos + e.len());
    assert forall|k: int| 0 <= k < e.len() implies b[pos + k] == e[k] by {
        assert(part[k] == b[pos + k]);
    }
    lemma_u16_round_trip(a.code());
    lemma_u16_round_trip(v.len() as u16);
    assert(b[pos] == e[0] && b[pos + 1] == e[1] && b[pos + 2] == e[2] && b[pos + 3] == e[3]);
    assert(e[0] == u16_be(a.code())[0] && e[1] == u16_be(a.code())[1]);
    assert(e[2] == u16_be(v.len() as u16)[0] && e[3] == u16_be(v.len() as u16)[1]);
    assert(b.subrange(pos + 4, pos + 4 + v.len()) =~= v) by {
        assert forall|k: int| 0 <= k < v.len() implies b.subrange(pos + 4, pos + 4 + v.len())[k]
            == v[k] by {
            assert(b[pos + 4 + k] == e[4 + k]);
        }
    }
}

/// Walking over the bytes of attributes none of which has type `typ` leads to
/// what stands behind them.
proof fn lemma_locate_skips(
    b: Seq<u8>,
    pos: int,
    attrs: Seq<AttributeView>,
    tid: TransactionId,
    typ: u16,
)
    requires
        0 <= pos,
        pos + encode_attrs(attrs, tid).len() <= b.len(),
        b.subrange(pos, pos + encode_attrs(attrs, tid).len()) == encode_attrs(attrs, tid),
        forall|i: int| 0 <= i < attrs.len() ==> (#[trigger] attrs[i]).value(tid).len() <= 65535,
        forall|i: int| 0 <= i < attrs.len() ==> (#[trigger] attrs[i]).code() != typ,
    ensures
        locate(b, pos, typ) == locate(b, pos + encode_attrs(attrs, tid).len(), typ),
    decreases attrs.len(),
{
    if attrs.len() > 0 {
        let a = attrs[0];
        let rest = attrs.drop_first();
        let e = a.encode(tid);
        let all = encode_attrs(attrs, tid);
        let tail = encode_attrs(rest, tid);
        assert(all =~= e + tail);
        let part = b.subrange(pos, pos + all.len());
        assert(b.subrange(pos, pos + e.len()) =~= e) by {
            assert forall|k: int| 0 <= k < e.len() implies b.subrange(pos, pos + e.len())[k]
                == e[k] by {
                assert(part[k] == b[pos + k]);
                assert(all[k] == e[k]);
            }
        }
        assert(a.value(tid).len() <= 65535);
        lemma_attr_at(b, pos, a, tid);
        assert(a.code() != typ);
        let end = pos + e.len();
        assert(b.subrange(end, end + tail.len()) =~= tail) by {
            assert forall|k: int| 0 <= k < tail.len() implies b.subrange(end, end + tail.len())[k]
                == tail[k] by {
                assert(part[e.len() + k] == b[end + k]);
                assert(all[e.len() + k] == tail[k]);
            }
        }
        assert forall|i: int| 0 <= i < rest.len() implies (#[trigger] rest[i]).value(tid).len()
            <= 65535 by {
            assert(rest[i] == attrs[i + 1]);
        }
        assert forall|i: int| 0 <= i < rest.len() implies (#[trigger] rest[i]).code() != typ by {
            assert(rest[i] == attrs[i + 1]);
        }
        lemma_locate_skips(b, end, rest, tid, typ);
    }
}

/// The bytes of a message with one more attribute begin with the bytes of
/// the message, but for the length field.
proof fn lemma_with_prefix(m: MessageView, a: AttributeView, extra: int)
    requires
        m.valid(),
        a.valid(),
        a.encode(m.transaction_id).len() == extra,
        m.body().len() + extra <= MAX_BODY_LEN,
    ensures
        m.with(a).encode().len() == m.encode().len() + extra,
        m.encode().len() == HEADER_LEN + m.body().len(),
        covered(m.with(a).encode(), m.encode().len() as int, extra) == with_u16_at(
            m.encode(),
            2,
            (m.body().len() + extra) as u16,
        ),
        m.with(a).encode().subrange(m.encode().len() as int, m.encode().len() + extra)
            == a.encode(m.transaction_id),
        m.with(a).encode().subrange(HEADER_LEN as int, m.encode().len() as int) == m.body(),
{
    lemma_with_valid(m, a, extra);
    let w = m.with(a);
    let e = m.encode();
    let we = w.encode();
    let n = e.len() as int;
    assert(we.subrange(n, n + extra) =~= a.encode(m.transaction_id));
    assert(we.subrange(HEADER_LEN as int, n) =~= m.body());
    let left = covered(we, n, extra);
    let right = with_u16_at(e, 2, (m.body().len() + extra) as u16);
    assert(left.len() == right.len());
    assert forall|k: int| 0 <= k < left.len() implies left[k] == right[k] by {
        if k != 2 && k != 3 {
            assert(we.subrange(0, n)[k] == we[k]);
            if k < 20 {
                assert(we[k] == w.header(w.body().len() as u16)[k]);
                assert(e[k] == m.header(m.body().len() as u16)[k]);
            } else {
                assert(we[k] == w.body()[k - 20]);
                assert(e[k] == m.body()[k - 20]);
            }
        }
    }
    assert(left =~= right);
}

/// A message that was given its MESSAGE-INTEGRITY under a key verifies under
/// that key, the tag having the 20 bytes of an HMAC-SHA1.
pub proof fn lemma_signed_verifies(m: MessageView, key: Seq<u8>)
    requires
        m.can_sign(),
    ensures
        m.integrity_tag(key).len() == INTEGRITY_LEN ==> integrity_ok(m.signed(key).encode(), key),
{
    if m.integrity_tag(key).len() == INTEGRITY_LEN {
        let tid = m.transaction_id;
        let a = AttributeView::MessageIntegrity(m.integrity_tag(key));
        let b = m.signed(key).encode();
        let at = m.encode().len() as int;
        assert(a.encode(tid).len() == INTEGRITY_ATTR_LEN);
        lemma_with_prefix(m, a, INTEGRITY_ATTR_LEN as int);
        lemma_values_fit(m.attributes, tid);
        assert forall|i: int| 0 <= i < m.attributes.len() implies (#[trigger] m.attributes[i]).code()
            != ATTR_MESSAGE_INTEGRITY by {
            if m.attributes[i].code() == ATTR_MESSAGE_INTEGRITY {
                assert(m.contains(ATTR_MESSAGE_INTEGRITY));
            }
        }
        lemma_locate_skips(b, HEADER_LEN as int, m.attributes, tid, ATTR_MESSAGE_INTEGRITY);
        lemma_attr_at(b, at, a, tid);
        assert(locate(b, at, ATTR_MESSAGE_INTEGRITY) == Some(at));
        assert(b.subrange(at + 4, at + INTEGRITY_ATTR_LEN) =~= m.integrity_tag(key));
    }
}

/// A message that was given its FINGERPRINT passes the fingerprint check.
pub proof fn lemma_fingerprinted_verifies(m: MessageView)
    requires
        m.can_take(FINGERPRINT_ATTR_LEN as int),
    ensures
        fingerprint_ok(m.fingerprinted().encode()),
{
    let tid = m.transaction_id;
    let a = AttributeView::Fingerprint(m.fingerprint());
    let b = m.fingerprinted().encode();
    let at = m.encode().len() as int;
    assert(a.encode(tid).len() == FINGERPRINT_ATTR_LEN);
    lemma_with_prefix(m, a, FINGERPRINT_ATTR_LEN as int);
    lemma_values_fit(m.attributes, tid);
    assert forall|i: int| 0 <= i < m.attributes.len() implies (#[trigger] m.attributes[i]).code()
        != ATTR_FINGERPRINT by {
        if m.attributes[i].code() == ATTR_FINGERPRINT {
            assert(m.contains(ATTR_FINGERPRINT));
        }
    }
    lemma_locate_skips(b, HEADER_LEN as int, m.attributes, tid, ATTR_FINGERPRINT);
    lemma_attr_at(b, at, a, tid);
    assert(locate(b, at, ATTR_FINGERPRINT) == Some(at));
    lemma_u32_round_trip(m.fingerprint());
    let v = b.subrange(at + 4, at + 8);
    assert(v == u32_be(m.fingerprint()));
    assert(b[at + 4] == v[0] && b[at + 5] == v[1] && b[at + 6] == v[2] && b[at + 7] == v[3]);
    assert(u32_at(b, at + 4) == u32_at(v, 0));
}

/// Changing one byte in front of the integrity attribute, other than the two
/// bytes of the length field, changes the bytes that the HMAC covers. So the
/// changed bytes can verify, with the attribute still in its place, only
/// where HMAC-SHA1 gives two different inputs the same tag.
pub proof fn lemma_tampering_detected(b: Seq<u8>, key: Seq<u8>, i: int, x: u8)
    requires
        integrity_ok(b, key),
        0 <= i < locate(b, HEADER_LEN as int, ATTR_MESSAGE_INTEGRITY)->0,
        i != 2 && i != 3,
        x != b[i],
    ensures
        covered(
            b.update(i, x),
            locate(b, HEADER_LEN as int, ATTR_MESSAGE_INTEGRITY)->0,
            INTEGRITY_ATTR_LEN as int,
        ) != covered(
            b,
            locate(b, HEADER_LEN as int, ATTR_MESSAGE_INTEGRITY)->0,
            INTEGRITY_ATTR_LEN as int,
        ),
        integrity_ok(b.update(i, x), key) && locate(
            b.update(i, x),
            HEADER_LEN as int,
            ATTR_MESSAGE_INTEGRITY,
        ) == locate(b, HEADER_LEN as int, ATTR_MESSAGE_INTEGRITY) ==> hmac_sha1_digest(
            key,
            covered(
                b.update(i, x),
                locate(b, HEADER_LEN as int, ATTR_MESSAGE_INTEGRITY)->0,
                INTEGRITY_ATTR_LEN as int,
            ),
        ) == hmac_sha1_digest(
            key,
            covered(
                b,
                locate(b, HEADER_LEN as int, ATTR_MESSAGE_INTEGRITY)->0,
                INTEGRITY_ATTR_LEN as int,
            ),
        ),
{
    let at = locate(b, HEADER_LEN as int, ATTR_MESSAGE_INTEGRITY)->0;
    let b2 = b.update(i, x);
    lemma_located_in_range(b, HEADER_LEN as int, ATTR_MESSAGE_INTEGRITY);
    assert(covered(b2, at, INTEGRITY_ATTR_LEN as int)[i] == x);
    assert(covered(b, at, INTEGRITY_ATTR_LEN as int)[i] == b[i]);
    assert(b2.subrange(at + 4, at + INTEGRITY_ATTR_LEN) =~= b.subrange(
        at + 4,
        at + INTEGRITY_ATTR_LEN,
    ));
}

/// An attribute that is found lies within the bytes, behind where the walk
/// began.
pub proof fn lemma_located_in_range(b: Seq<u8>, pos: int, typ: u16)
    requires
        locate(b, pos, typ) is Some,
    ensures
        pos <= locate(b, pos, typ)->0,
        locate(b, pos, typ)->0 + 4 + u16_at(b, locate(b, pos, typ)->0 + 2) <= b.len(),
        u16_at(b, locate(b, pos, typ)->0) == typ,
    decreases b.len() - pos,
{
    let len = u16_at(b, pos + 2) as int;
    let end = pos + 4 + len + pad_len(len);
    if u16_at(b, pos) != typ {
        lemma_located_in_range(b, end, typ);
    }
}

} // verus!
