//! Transport addresses and the XOR obfuscation that STUN applies to them.

use vstd::prelude::*;
use crate::wire::{u16_at, u16_be};

verus! {

/// The fixed value in bytes 4..8 of every STUN header.
pub const MAGIC_COOKIE: u32 = 0x2112A442;

/// Family tag of an IPv4 address inside an address attribute.
pub const FAMILY_IPV4: u8 = 1;

/// Family tag of an IPv6 address inside an address attribute.
pub const FAMILY_IPV6: u8 = 2;

/// The 96-bit identifier that ties a response to its request.
#[derive(Debug, Clone, Copy, PartialEq, Eq)]
pub struct TransactionId(pub [u8; 12]);

/// An IP address, as the bytes that go on the wire.
#[derive(Debug, Clone, Copy, PartialEq, Eq)]
pub enum IpAddress {
    V4([u8; 4]),
    V6([u8; 16]),
}

/// An IP address and a port.
#[derive(Debug, Clone, Copy, PartialEq, Eq)]
pub struct TransportAddress {
    pub ip: IpAddress,
    pub port: u16,
}

/// The array made of the first four bytes of `s`.
pub open spec fn four(s: Seq<u8>) -> [u8; 4] {
    [s[0], s[1], s[2], s[3]]
}

/// The array made of the first twelve bytes of `s`.
pub open spec fn twelve(s: Seq<u8>) -> [u8; 12] {
    [s[0], s[1], s[2], s[3], s[4], s[5], s[6], s[7], s[8], s[9], s[10], s[11]]
}

/// The array made of the first sixteen bytes of `s`.
pub open spec fn sixteen(s: Seq<u8>) -> [u8; 16] {
    [
        s[0], s[1], s[2], s[3], s[4], s[5], s[6], s[7],
        s[8], s[9], s[10], s[11], s[12], s[13], s[14], s[15],
    ]
}

/// Byte `i` of the XOR mask: the magic cookie, then the transaction id.
pub open spec fn mask(tid: TransactionId, i: int) -> u8 {
    if i == 0 {
        0x21u8
    } else if i == 1 {
        0x12u8
    } else if i == 2 {
        0xA4u8
    } else if i == 3 {
        0x42u8
    } else {
        tid.0@[i - 4]
    }
}

/// `data` with each byte XORed with the mask byte at its position.
pub open spec fn masked(data: Seq<u8>, tid: TransactionId) -> Seq<u8> {
    Seq::new(data.len(), |i: int| data[i] ^ mask(tid, i))
}

impl IpAddress {
    /// The address bytes, in network order.
    pub open spec fn octets(self) -> Seq<u8> {
        match self {
            IpAddress::V4(a) => a@,
            IpAddress::V6(a) => a@,
        }
    }

    /// The family tag that an address attribute carries for this address.
    pub open spec fn family(self) -> u8 {
        match self {
            IpAddress::V4(_) => FAMILY_IPV4,
            IpAddress::V6(_) => FAMILY_IPV6,
        }
    }

    /// Whether both are the same address.
    pub fn same(&self, other: &IpAddress) -> (r: bool)
        ensures
            r == (*self == *other),
    {
        match (self, other) {
            (IpAddress::V4(a), IpAddress::V4(b)) => {
                let r = crate::wire::bytes_eq(a.as_slice(), b.as_slice());
                proof {
                    if r {
                        assert(a@ =~= b@);
                        assert(*a =~= *b);
                    }
                }
                r
            },
            (IpAddress::V6(a), IpAddress::V6(b)) => {
                let r = crate::wire::bytes_eq(a.as_slice(), b.as_slice());
                proof {
                    if r {
                        assert(a@ =~= b@);
                        assert(*a =~= *b);
                    }
                }
                r
            },
            _ => false,
        }
    }
}

/// The eight bytes of `v`, most significant first.
pub open spec fn u64_be(v: u64) -> Seq<u8> {
    seq![
        (v / 0x100000000000000) as u8,
        ((v / 0x1000000000000) % 256) as u8,
        ((v / 0x10000000000) % 256) as u8,
        ((v / 0x100000000) % 256) as u8,
        ((v / 0x1000000) % 256) as u8,
        ((v / 0x10000) % 256) as u8,
        ((v / 0x100) % 256) as u8,
        (v % 256) as u8,
    ]
}

impl TransactionId {
    /// The identifier made of the eight bytes of `a` and the first four of
    /// `b`.
    pub open spec fn spec_from_numbers(a: u64, b: u64) -> TransactionId {
        TransactionId(twelve(u64_be(a) + u64_be(b)))
    }

    /// The identifier made of the eight bytes of `a` and the first four of
    /// `b`.
    pub fn from_numbers(a: u64, b: u64) -> (id: TransactionId)
        ensures
            id == TransactionId::spec_from_numbers(a, b),
    {
        let bytes: [u8; 12] = [
            (a / 0x100000000000000) as u8,
            ((a / 0x1000000000000) % 256) as u8,
            ((a / 0x10000000000) % 256) as u8,
            ((a / 0x100000000) % 256) as u8,
            ((a / 0x1000000) % 256) as u8,
            ((a / 0x10000) % 256) as u8,
            ((a / 0x100) % 256) as u8,
            (a % 256) as u8,
            (b / 0x100000000000000) as u8,
            ((b / 0x1000000000000) % 256) as u8,
            ((b / 0x10000000000) % 256) as u8,
            ((b / 0x100000000) % 256) as u8,
        ];
        assert(bytes =~= twelve(u64_be(a) + u64_be(b)));
        TransactionId(bytes)
    }

    /// An identifier drawn at random.
    pub fn fresh() -> TransactionId {
        let a = crate::digest::random_u64();
        let b = crate::digest::random_u64();
        TransactionId::from_numbers(a, b)
    }

    /// Whether both are the same identifier.
    pub fn same(&self, other: &TransactionId) -> (r: bool)
        ensures
            r == (*self == *other),
    {
        let r = crate::wire::bytes_eq(self.0.as_slice(), other.0.as_slice());
        proof {
            if r {
                assert(self.0@ =~= other.0@);
                assert(self.0 =~= other.0);
            }
        }
        r
    }
}

impl TransportAddress {
    /// Whether both are the same address and port.
    pub fn same(&self, other: &TransportAddress) -> (r: bool)
        ensures
            r == (*self == *other),
    {
        self.port == other.port && self.ip.same(&other.ip)
    }

    /// The value of an XOR-obfuscated address attribute: a reserved byte, the
    /// family, the masked port and the masked address.
    pub open spec fn xor_value(self, tid: TransactionId) -> Seq<u8> {
        seq![0u8, self.ip.family()] + masked(u16_be(self.port), tid) + masked(
            self.ip.octets(),
            tid,
        )
    }

    /// The address that an XOR-obfuscated attribute value stands for, if the
    /// value has the length that its family calls for.
    pub open spec fn parse_xor(v: Seq<u8>, tid: TransactionId) -> Option<TransportAddress> {
        if v.len() == 8 && v[1] == FAMILY_IPV4 {
            Some(
                TransportAddress {
                    ip: IpAddress::V4(four(masked(v.subrange(4, 8), tid))),
                    port: u16_at(masked(v.subrange(2, 4), tid), 0),
                },
            )
        } else if v.len() == 20 && v[1] == FAMILY_IPV6 {
            Some(
                TransportAddress {
                    ip: IpAddress::V6(sixteen(masked(v.subrange(4, 20), tid))),
                    port: u16_at(masked(v.subrange(2, 4), tid), 0),
                },
            )
        } else {
            None
        }
    }

    /// Appends the XOR-obfuscated attribute value of this address.
    pub fn push_xor(&self, tid: &TransactionId, out: &mut Vec<u8>)
        ensures
            final(out)@ == old(out)@ + self.xor_value(*tid),
    {
        let ghost before = out@;
        out.push(0u8);
        let mut port: Vec<u8> = Vec::new();
        crate::wire::push_u16(&mut port, self.port);
        assert(port@ =~= u16_be(self.port));
        match &self.ip {
            IpAddress::V4(a) => {
                out.push(FAMILY_IPV4);
                push_masked(out, port.as_slice(), tid);
                push_masked(out, a.as_slice(), tid);
            },
            IpAddress::V6(a) => {
                out.push(FAMILY_IPV6);
                push_masked(out, port.as_slice(), tid);
                push_masked(out, a.as_slice(), tid);
            },
        }
        assert(out@ =~= before + self.xor_value(*tid));
    }

    /// Reads an XOR-obfuscated attribute value.
    pub fn read_xor(v: &[u8], tid: &TransactionId) -> (r: Option<TransportAddress>)
        ensures
            r == TransportAddress::parse_xor(v@, *tid),
    {
        if v.len() == 8 && v[1] == FAMILY_IPV4 {
            let p = unmask(v, 2, 4, tid);
            let a = unmask(v, 4, 8, tid);
            let ip = [a[0], a[1], a[2], a[3]];
            assert(ip =~= four(a@));
            Some(TransportAddress { ip: IpAddress::V4(ip), port: crate::wire::read_u16(p.as_slice(), 0) })
        } else if v.len() == 20 && v[1] == FAMILY_IPV6 {
            let p = unmask(v, 2, 4, tid);
            let a = unmask(v, 4, 20, tid);
            let ip = [
                a[0], a[1], a[2], a[3], a[4], a[5], a[6], a[7],
                a[8], a[9], a[10], a[11], a[12], a[13], a[14], a[15],
            ];
            assert(ip =~= sixteen(a@));
            Some(TransportAddress { ip: IpAddress::V6(ip), port: crate::wire::read_u16(p.as_slice(), 0) })
        } else {
            None
        }
    }
}

/// Byte `i` of the XOR mask.
pub fn mask_at(tid: &TransactionId, i: usize) -> (m: u8)
    requires
        i < 16,
    ensures
        m == mask(*tid, i as int),
{
    if i == 0 {
        0x21
    } else if i == 1 {
        0x12
    } else if i == 2 {
        0xA4
    } else if i == 3 {
        0x42
    } else {
        tid.0[i - 4]
    }
}

/// Appends `data`, each byte XORed with the mask byte at its position.
pub fn push_masked(out: &mut Vec<u8>, data: &[u8], tid: &TransactionId)
    requires
        data@.len() <= 16,
    ensures
        final(out)@ == old(out)@ + masked(data@, *tid),
{
    let mut i: usize = 0;
    while i < data.len()
        invariant
            i <= data@.len() <= 16,
            out@ == old(out)@ + masked(data@, *tid).subrange(0, i as int),
        decreases data@.len() - i,
    {
        let m = mask_at(tid, i);
        out.push(data[i] ^ m);
        i += 1;
        assert(out@ =~= old(out)@ + masked(data@, *tid).subrange(0, i as int));
    }
    assert(masked(data@, *tid).subrange(0, i as int) =~= masked(data@, *tid));
}

/// The bytes `v[from..to]`, each XORed with the mask byte at its position in
/// that range.
pub fn unmask(v: &[u8], from: usize, to: usize, tid: &TransactionId) -> (r: Vec<u8>)
    requires
        from <= to <= v@.len(),
        to - from <= 16,
    ensures
        r@ == masked(v@.subrange(from as int, to as int), *tid),
{
    let part = crate::wire::copy_range(v, from, to);
    let mut r: Vec<u8> = Vec::new();
    push_masked(&mut r, part.as_slice(), tid);
    assert(r@ =~= masked(part@, *tid));
    r
}

/// XOR with the same byte twice gives the byte back.
pub proof fn lemma_xor_twice(a: u8, k: u8)
    ensures
        (a ^ k) ^ k == a,
{
    assert((a ^ k) ^ k == a) by (bit_vector);
}

/// Masking twice gives the data back.
pub proof fn lemma_masked_twice(data: Seq<u8>, tid: TransactionId)
    ensures
        masked(masked(data, tid), tid) == data,
{
    assert forall|i: int| 0 <= i < data.len() implies #[trigger] masked(masked(data, tid), tid)[i]
        == data[i] by {
        lemma_xor_twice(data[i], mask(tid, i));
    }
    assert(masked(masked(data, tid), tid) =~= data);
}

/// Reading what `xor_value` wrote gives the address back.
pub proof fn lemma_xor_address_round_trip(addr: TransportAddress, tid: TransactionId)
    ensures
        TransportAddress::parse_xor(addr.xor_value(tid), tid) == Some(addr),
{
    let v = addr.xor_value(tid);
    let port = u16_be(addr.port);
    let oct = addr.ip.octets();
    assert(v.subrange(2, 4) =~= masked(port, tid));
    lemma_masked_twice(port, tid);
    crate::wire::lemma_u16_round_trip(addr.port);
    match addr.ip {
        IpAddress::V4(a) => {
            assert(v.len() == 8);
            assert(v.subrange(4, 8) =~= masked(oct, tid));
            lemma_masked_twice(oct, tid);
            assert(four(oct) =~= a);
        },
        IpAddress::V6(a) => {
            assert(v.len() == 20);
            assert(v.subrange(4, 20) =~= masked(oct, tid));
            lemma_masked_twice(oct, tid);
            assert(sixteen(oct) =~= a);
        },
    }
}

} // verus!
