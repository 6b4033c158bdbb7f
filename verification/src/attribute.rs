//! STUN and TURN attributes: one variant per known type and one for what is
//! not known, each with its value on the wire.

use vstd::prelude::*;
use crate::address::{TransactionId, TransportAddress, lemma_xor_address_round_trip};
use crate::wire::{
    copy_range, lemma_u16_round_trip, lemma_u32_round_trip, pad_len, push_bytes, push_u16,
    push_u32, read_u16, read_u32, u16_at, u16_be, u32_at, u32_be, zeros,
};

verus! {

pub const ATTR_USERNAME: u16 = 0x0006;

pub const ATTR_MESSAGE_INTEGRITY: u16 = 0x0008;

pub const ATTR_ERROR_CODE: u16 = 0x0009;

pub const ATTR_CHANNEL_NUMBER: u16 = 0x000C;

pub const ATTR_LIFETIME: u16 = 0x000D;

pub const ATTR_XOR_PEER_ADDRESS: u16 = 0x0012;

pub const ATTR_DATA: u16 = 0x0013;

pub const ATTR_REALM: u16 = 0x0014;

pub const ATTR_NONCE: u16 = 0x0015;

pub const ATTR_XOR_RELAYED_ADDRESS: u16 = 0x0016;

pub const ATTR_REQUESTED_TRANSPORT: u16 = 0x0019;

pub const ATTR_XOR_MAPPED_ADDRESS: u16 = 0x0020;

pub const ATTR_FINGERPRINT: u16 = 0x8028;

/// Attribute types from here on may be ignored by a receiver that does not
/// know them; those below must be understood.
pub const COMPREHENSION_OPTIONAL: u16 = 0x8000;

/// Bytes that a MESSAGE-INTEGRITY value holds.
pub const INTEGRITY_LEN: usize = 20;

/// One attribute of a message.
#[derive(Debug, Clone, PartialEq, Eq)]
pub enum Attribute {
    Username(Vec<u8>),
    MessageIntegrity(Vec<u8>),
    ErrorCode { code: u16, reason: Vec<u8> },
    ChannelNumber(u16),
    Lifetime(u32),
    XorPeerAddress(TransportAddress),
    Data(Vec<u8>),
    Realm(Vec<u8>),
    Nonce(Vec<u8>),
    XorRelayedAddress(TransportAddress),
    RequestedTransport(u8),
    XorMappedAddress(TransportAddress),
    Fingerprint(u32),
    /// An attribute of a type that this library does not know, kept as it
    /// came.
    Unknown { typ: u16, value: Vec<u8> },
}

/// What an attribute holds, as mathematical values.
pub enum AttributeView {
    Username(Seq<u8>),
    MessageIntegrity(Seq<u8>),
    ErrorCode { code: u16, reason: Seq<u8> },
    ChannelNumber(u16),
    Lifetime(u32),
    XorPeerAddress(TransportAddress),
    Data(Seq<u8>),
    Realm(Seq<u8>),
    Nonce(Seq<u8>),
    XorRelayedAddress(TransportAddress),
    RequestedTransport(u8),
    XorMappedAddress(TransportAddress),
    Fingerprint(u32),
    Unknown { typ: u16, value: Seq<u8> },
}

impl View for Attribute {
    type V = AttributeView;

    open spec fn view(&self) -> AttributeView {
        match *self {
            Attribute::Username(v) => AttributeView::Username(v@),
            Attribute::MessageIntegrity(v) => AttributeView::MessageIntegrity(v@),
            Attribute::ErrorCode { code, reason } => AttributeView::ErrorCode {
                code,
                reason: reason@,
            },
            Attribute::ChannelNumber(n) => AttributeView::ChannelNumber(n),
            Attribute::Lifetime(n) => AttributeView::Lifetime(n),
            Attribute::XorPeerAddress(a) => AttributeView::XorPeerAddress(a),
            Attribute::Data(v) => AttributeView::Data(v@),
            Attribute::Realm(v) => AttributeView::Realm(v@),
            Attribute::Nonce(v) => AttributeView::Nonce(v@),
            Attribute::XorRelayedAddress(a) => AttributeView::XorRelayedAddress(a),
            Attribute::RequestedTransport(p) => AttributeView::RequestedTransport(p),
            Attribute::XorMappedAddress(a) => AttributeView::XorMappedAddress(a),
            Attribute::Fingerprint(n) => AttributeView::Fingerprint(n),
            Attribute::Unknown { typ, value } => AttributeView::Unknown { typ, value: value@ },
        }
    }
}

/// Whether `typ` is one of the attribute types that have a variant of their
/// own.
pub open spec fn known_type(typ: u16) -> bool {
    typ == ATTR_USERNAME || typ == ATTR_MESSAGE_INTEGRITY || typ == ATTR_ERROR_CODE || typ
        == ATTR_CHANNEL_NUMBER || typ == ATTR_LIFETIME || typ == ATTR_XOR_PEER_ADDRESS || typ
        == ATTR_DATA || typ == ATTR_REALM || typ == ATTR_NONCE || typ == ATTR_XOR_RELAYED_ADDRESS
        || typ == ATTR_REQUESTED_TRANSPORT || typ == ATTR_XOR_MAPPED_ADDRESS || typ
        == ATTR_FINGERPRINT
}

impl AttributeView {
    /// The type code on the wire.
    pub open spec fn code(self) -> u16 {
        match self {
            AttributeView::Username(_) => ATTR_USERNAME,
            AttributeView::MessageIntegrity(_) => ATTR_MESSAGE_INTEGRITY,
            AttributeView::ErrorCode { .. } => ATTR_ERROR_CODE,
            AttributeView::ChannelNumber(_) => ATTR_CHANNEL_NUMBER,
            AttributeView::Lifetime(_) => ATTR_LIFETIME,
            AttributeView::XorPeerAddress(_) => ATTR_XOR_PEER_ADDRESS,
            AttributeView::Data(_) => ATTR_DATA,
            AttributeView::Realm(_) => ATTR_REALM,
            AttributeView::Nonce(_) => ATTR_NONCE,
            AttributeView::XorRelayedAddress(_) => ATTR_XOR_RELAYED_ADDRESS,
            AttributeView::RequestedTransport(_) => ATTR_REQUESTED_TRANSPORT,
            AttributeView::XorMappedAddress(_) => ATTR_XOR_MAPPED_ADDRESS,
            AttributeView::Fingerprint(_) => ATTR_FINGERPRINT,
            AttributeView::Unknown { typ, .. } => typ,
        }
    }

    /// The value on the wire, without padding. Addresses are masked with the
    /// cookie and the transaction id `tid`.
    pub open spec fn value(self, tid: TransactionId) -> Seq<u8> {
        match self {
            AttributeView::Username(v) => v,
            AttributeView::MessageIntegrity(v) => v,
            AttributeView::ErrorCode { code, reason } => seq![
                0u8,
                0u8,
                (code / 100) as u8,
                (code % 100) as u8,
            ] + reason,
            AttributeView::ChannelNumber(n) => u16_be(n) + seq![0u8, 0u8],
            AttributeView::Lifetime(n) => u32_be(n),
            AttributeView::XorPeerAddress(a) => a.xor_value(tid),
            AttributeView::Data(v) => v,
            AttributeView::Realm(v) => v,
            AttributeView::Nonce(v) => v,
            AttributeView::XorRelayedAddress(a) => a.xor_value(tid),
            AttributeView::RequestedTransport(p) => seq![p, 0u8, 0u8, 0u8],
            AttributeView::XorMappedAddress(a) => a.xor_value(tid),
            AttributeView::Fingerprint(n) => u32_be(n),
            AttributeView::Unknown { value, .. } => value,
        }
    }

    /// What must hold of an attribute for its value to stand for it: an
    /// integrity value has 20 bytes, an error code is below 800, and an unknown
    /// attribute has a comprehension-optional type that is not a known one.
    pub open spec fn valid(self) -> bool {
        match self {
            AttributeView::MessageIntegrity(v) => v.len() == INTEGRITY_LEN,
            AttributeView::ErrorCode { code, .. } => code < 800,
            AttributeView::Unknown { typ, .. } => typ >= COMPREHENSION_OPTIONAL && !known_type(typ),
            _ => true,
        }
    }

    /// The attribute on the wire: type, length of the value, the value, and
    /// zero bytes up to a multiple of four.
    pub open spec fn encode(self, tid: TransactionId) -> Seq<u8> {
        u16_be(self.code()) + u16_be(self.value(tid).len() as u16) + self.value(tid) + zeros(
            pad_len(self.value(tid).len() as int),
        )
    }
}

/// The attribute that a type code and a value stand for. `None` where the
/// value does not have the form of its type, and where the type is unknown
/// and comprehension-required.
pub open spec fn parse_value(typ: u16, v: Seq<u8>, tid: TransactionId) -> Option<AttributeView> {
    if typ == ATTR_USERNAME {
        Some(AttributeView::Username(v))
    } else if typ == ATTR_MESSAGE_INTEGRITY {
        if v.len() == INTEGRITY_LEN {
            Some(AttributeView::MessageIntegrity(v))
        } else {
            None
        }
    } else if typ == ATTR_ERROR_CODE {
        if v.len() >= 4 && v[3] < 100 {
            Some(
                AttributeView::ErrorCode {
                    code: ((v[2] % 8) * 100 + v[3]) as u16,
                    reason: v.subrange(4, v.len() as int),
                },
            )
        } else {
            None
        }
    } else if typ == ATTR_CHANNEL_NUMBER {
        if v.len() == 4 {
            Some(AttributeView::ChannelNumber(u16_at(v, 0)))
        } else {
            None
        }
    } else if typ == ATTR_LIFETIME {
        if v.len() == 4 {
            Some(AttributeView::Lifetime(u32_at(v, 0)))
        } else {
            None
        }
    } else if typ == ATTR_XOR_PEER_ADDRESS {
        match TransportAddress::parse_xor(v, tid) {
            Some(a) => Some(AttributeView::XorPeerAddress(a)),
            None => None,
        }
    } else if typ == ATTR_DATA {
        Some(AttributeView::Data(v))
    } else if typ == ATTR_REALM {
        Some(AttributeView::Realm(v))
    } else if typ == ATTR_NONCE {
        Some(AttributeView::Nonce(v))
    } else if typ == ATTR_XOR_RELAYED_ADDRESS {
        match TransportAddress::parse_xor(v, tid) {
            Some(a) => Some(AttributeView::XorRelayedAddress(a)),
            None => None,
        }
    } else if typ == ATTR_REQUESTED_TRANSPORT {
        if v.len() == 4 {
            Some(AttributeView::RequestedTransport(v[0]))
        } else {
            None
        }
    } else if typ == ATTR_XOR_MAPPED_ADDRESS {
        match TransportAddress::parse_xor(v, tid) {
            Some(a) => Some(AttributeView::XorMappedAddress(a)),
            None => None,
        }
    } else if typ == ATTR_FINGERPRINT {
        if v.len() == 4 {
            Some(AttributeView::Fingerprint(u32_at(v, 0)))
        } else {
            None
        }
    } else if typ >= COMPREHENSION_OPTIONAL {
        Some(AttributeView::Unknown { typ, value: v })
    } else {
        None
    }
}

/// Parsing the value of a valid attribute under its own type gives the
/// attribute back.
pub proof fn lemma_value_round_trip(a: AttributeView, tid: TransactionId)
    requires
        a.valid(),
    ensures
        parse_value(a.code(), a.value(tid), tid) == Some(a),
{
    let v = a.value(tid);
    match a {
        AttributeView::ErrorCode { code, reason } => {
            assert(v.subrange(4, v.len() as int) =~= reason);
            assert(v[2] == (code / 100) as u8);
            assert(v[3] == (code % 100) as u8);
        },
        AttributeView::ChannelNumber(n) => {
            lemma_u16_round_trip(n);
            assert(u16_at(v, 0) == u16_at(u16_be(n), 0));
        },
        AttributeView::Lifetime(n) => {
            lemma_u32_round_trip(n);
        },
        AttributeView::Fingerprint(n) => {
            lemma_u32_round_trip(n);
        },
        AttributeView::XorPeerAddress(addr) => {
            lemma_xor_address_round_trip(addr, tid);
        },
        AttributeView::XorRelayedAddress(addr) => {
            lemma_xor_address_round_trip(addr, tid);
        },
        AttributeView::XorMappedAddress(addr) => {
            lemma_xor_address_round_trip(addr, tid);
        },
        _ => {},
    }
}

/// What parsing gives is valid and has the type that was parsed.
pub proof fn lemma_parsed_is_valid(typ: u16, v: Seq<u8>, tid: TransactionId)
    requires
        parse_value(typ, v, tid) is Some,
    ensures
        parse_value(typ, v, tid)->0.valid(),
        parse_value(typ, v, tid)->0.code() == typ,
{
}

/// The value of what parsing gives has as many bytes as the value that was
/// parsed.
pub proof fn lemma_parsed_value_len(typ: u16, v: Seq<u8>, tid: TransactionId)
    requires
        parse_value(typ, v, tid) is Some,
    ensures
        parse_value(typ, v, tid)->0.value(tid).len() == v.len(),
{
}

impl Attribute {
    /// The type code on the wire.
    pub fn code(&self) -> (c: u16)
        ensures
            c == self@.code(),
    {
        match self {
            Attribute::Username(_) => ATTR_USERNAME,
            Attribute::MessageIntegrity(_) => ATTR_MESSAGE_INTEGRITY,
            Attribute::ErrorCode { .. } => ATTR_ERROR_CODE,
            Attribute::ChannelNumber(_) => ATTR_CHANNEL_NUMBER,
            Attribute::Lifetime(_) => ATTR_LIFETIME,
            Attribute::XorPeerAddress(_) => ATTR_XOR_PEER_ADDRESS,
            Attribute::Data(_) => ATTR_DATA,
            Attribute::Realm(_) => ATTR_REALM,
            Attribute::Nonce(_) => ATTR_NONCE,
            Attribute::XorRelayedAddress(_) => ATTR_XOR_RELAYED_ADDRESS,
            Attribute::RequestedTransport(_) => ATTR_REQUESTED_TRANSPORT,
            Attribute::XorMappedAddress(_) => ATTR_XOR_MAPPED_ADDRESS,
            Attribute::Fingerprint(_) => ATTR_FINGERPRINT,
            Attribute::Unknown { typ, .. } => *typ,
        }
    }

    /// Whether the attribute can be written and read back.
    pub fn is_valid(&self) -> (ok: bool)
        ensures
            ok == self@.valid(),
    {
        match self {
            Attribute::MessageIntegrity(v) => v.len() == INTEGRITY_LEN,
            Attribute::ErrorCode { code, .. } => *code < 800,
            Attribute::Unknown { typ, .. } => *typ >= COMPREHENSION_OPTIONAL && !is_known_type(
                *typ,
            ),
            _ => true,
        }
    }

    /// A copy of this attribute.
    pub fn duplicate(&self) -> (copy: Attribute)
        ensures
            copy@ == self@,
    {
        match self {
            Attribute::Username(v) => Attribute::Username(v.clone()),
            Attribute::MessageIntegrity(v) => Attribute::MessageIntegrity(v.clone()),
            Attribute::ErrorCode { code, reason } => Attribute::ErrorCode {
                code: *code,
                reason: reason.clone(),
            },
            Attribute::ChannelNumber(n) => Attribute::ChannelNumber(*n),
            Attribute::Lifetime(n) => Attribute::Lifetime(*n),
            Attribute::XorPeerAddress(a) => Attribute::XorPeerAddress(*a),
            Attribute::Data(v) => Attribute::Data(v.clone()),
            Attribute::Realm(v) => Attribute::Realm(v.clone()),
            Attribute::Nonce(v) => Attribute::Nonce(v.clone()),
            Attribute::XorRelayedAddress(a) => Attribute::XorRelayedAddress(*a),
            Attribute::RequestedTransport(p) => Attribute::RequestedTransport(*p),
            Attribute::XorMappedAddress(a) => Attribute::XorMappedAddress(*a),
            Attribute::Fingerprint(n) => Attribute::Fingerprint(*n),
            Attribute::Unknown { typ, value } => Attribute::Unknown {
                typ: *typ,
                value: value.clone(),
            },
        }
    }

    /// Appends the value of this attribute, without padding.
    pub fn push_value(&self, tid: &TransactionId, out: &mut Vec<u8>)
        ensures
            final(out)@ == old(out)@ + self@.value(*tid),
    {
        let ghost before = out@;
        match self {
            Attribute::Username(v) => push_bytes(out, v.as_slice()),
            Attribute::MessageIntegrity(v) => push_bytes(out, v.as_slice()),
            Attribute::ErrorCode { code, reason } => {
                out.push(0u8);
                out.push(0u8);
                out.push((*code / 100) as u8);
                out.push((*code % 100) as u8);
                push_bytes(out, reason.as_slice());
            },
            Attribute::ChannelNumber(n) => {
                push_u16(out, *n);
                out.push(0u8);
                out.push(0u8);
            },
            Attribute::Lifetime(n) => push_u32(out, *n),
            Attribute::XorPeerAddress(a) => a.push_xor(tid, out),
            Attribute::Data(v) => push_bytes(out, v.as_slice()),
            Attribute::Realm(v) => push_bytes(out, v.as_slice()),
            Attribute::Nonce(v) => push_bytes(out, v.as_slice()),
            Attribute::XorRelayedAddress(a) => a.push_xor(tid, out),
            Attribute::RequestedTransport(p) => {
                out.push(*p);
                out.push(0u8);
                out.push(0u8);
                out.push(0u8);
            },
            Attribute::XorMappedAddress(a) => a.push_xor(tid, out),
            Attribute::Fingerprint(n) => push_u32(out, *n),
            Attribute::Unknown { value, .. } => push_bytes(out, value.as_slice()),
        }
        assert(out@ =~= before + self@.value(*tid));
    }

    /// Reads the value `v` of an attribute of type `typ`.
    pub fn read_value(typ: u16, v: &[u8], tid: &TransactionId) -> (r: Option<Attribute>)
        ensures
            r is Some == parse_value(typ, v@, *tid) is Some,
            r is Some ==> parse_value(typ, v@, *tid) == Some(r->0@),
    {
        if typ == ATTR_USERNAME {
            Some(Attribute::Username(whole(v)))
        } else if typ == ATTR_MESSAGE_INTEGRITY {
            if v.len() == INTEGRITY_LEN {
                Some(Attribute::MessageIntegrity(whole(v)))
            } else {
                None
            }
        } else if typ == ATTR_ERROR_CODE {
            if v.len() >= 4 && v[3] < 100 {
                let class: u16 = (v[2] % 8) as u16;
                let number: u16 = v[3] as u16;
                Some(
                    Attribute::ErrorCode {
                        code: class * 100 + number,
                        reason: copy_range(v, 4, v.len()),
                    },
                )
            } else {
                None
            }
        } else if typ == ATTR_CHANNEL_NUMBER {
            if v.len() == 4 {
                Some(Attribute::ChannelNumber(read_u16(v, 0)))
            } else {
                None
            }
        } else if typ == ATTR_LIFETIME {
            if v.len() == 4 {
                Some(Attribute::Lifetime(read_u32(v, 0)))
            } else {
                None
            }
        } else if typ == ATTR_XOR_PEER_ADDRESS {
            match TransportAddress::read_xor(v, tid) {
                Some(a) => Some(Attribute::XorPeerAddress(a)),
                None => None,
            }
        } else if typ == ATTR_DATA {
            Some(Attribute::Data(whole(v)))
        } else if typ == ATTR_REALM {
            Some(Attribute::Realm(whole(v)))
        } else if typ == ATTR_NONCE {
            Some(Attribute::Nonce(whole(v)))
        } else if typ == ATTR_XOR_RELAYED_ADDRESS {
            match TransportAddress::read_xor(v, tid) {
                Some(a) => Some(Attribute::XorRelayedAddress(a)),
                None => None,
            }
        } else if typ == ATTR_REQUESTED_TRANSPORT {
            if v.len() == 4 {
                Some(Attribute::RequestedTransport(v[0]))
            } else {
                None
            }
        } else if typ == ATTR_XOR_MAPPED_ADDRESS {
            match TransportAddress::read_xor(v, tid) {
                Some(a) => Some(Attribute::XorMappedAddress(a)),
                None => None,
            }
        } else if typ == ATTR_FINGERPRINT {
            if v.len() == 4 {
                Some(Attribute::Fingerprint(read_u32(v, 0)))
            } else {
                None
            }
        } else if typ >= COMPREHENSION_OPTIONAL {
            Some(Attribute::Unknown { typ, value: whole(v) })
        } else {
            None
        }
    }
}

/// Whether `typ` is one of the attribute types that have a variant of their
/// own.
pub fn is_known_type(typ: u16) -> (known: bool)
    ensures
        known == known_type(typ),
{
    typ == ATTR_USERNAME || typ == ATTR_MESSAGE_INTEGRITY || typ == ATTR_ERROR_CODE || typ
        == ATTR_CHANNEL_NUMBER || typ == ATTR_LIFETIME || typ == ATTR_XOR_PEER_ADDRESS || typ
        == ATTR_DATA || typ == ATTR_REALM || typ == ATTR_NONCE || typ == ATTR_XOR_RELAYED_ADDRESS
        || typ == ATTR_REQUESTED_TRANSPORT || typ == ATTR_XOR_MAPPED_ADDRESS || typ
        == ATTR_FINGERPRINT
}

/// A fresh vector holding all of `v`.
fn whole(v: &[u8]) -> (r: Vec<u8>)
    ensures
        r@ == v@,
{
    let r = copy_range(v, 0, v.len());
    assert(v@.subrange(0, v@.len() as int) =~= v@);
    r
}

} // verus!
