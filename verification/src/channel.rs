//! Telling STUN messages from ChannelData frames, and the ChannelData frame
//! itself.

use vstd::prelude::*;
use crate::error::Error;
use crate::wire::{copy_range, pad_len, push_bytes, push_padding, push_u16, read_u16, u16_at, u16_be, zeros};

verus! {

/// Kind of a datagram that holds a STUN message.
pub const STUN_PACKET: u8 = 0x00;

/// Kind of a datagram that holds a ChannelData frame.
pub const CHANNEL_DATA: u8 = 0x01;

/// Kind of a datagram that holds neither.
pub const UNKNOWN_PACKET: u8 = 0x77;

/// The lowest channel number.
pub const CHANNEL_MIN: u16 = 0x4000;

/// The highest channel number that can be bound.
pub const CHANNEL_MAX: u16 = 0x7FFE;

/// Bytes of the channel number and the length in front of the data.
pub const CHANNEL_HEADER_LEN: usize = 4;

/// The two most significant bits of the first byte of a datagram.
pub open spec fn top_bits(b: Seq<u8>) -> int {
    b[0] as int / 64
}

/// The kind of a datagram, read off the two most significant bits of its
/// first two bytes: `01` is ChannelData, `00` is STUN, and everything else,
/// a datagram of less than two bytes too, is unknown.
pub open spec fn kind_of(b: Seq<u8>) -> u8 {
    if b.len() < 2 {
        UNKNOWN_PACKET
    } else if top_bits(b) == 1 {
        CHANNEL_DATA
    } else if top_bits(b) == 0 {
        STUN_PACKET
    } else {
        UNKNOWN_PACKET
    }
}

/// The kind of a datagram.
pub fn classify(packet: &[u8]) -> (kind: u8)
    ensures
        kind == kind_of(packet@),
{
    if packet.len() < 2 {
        UNKNOWN_PACKET
    } else if packet[0] / 64 == 1 {
        CHANNEL_DATA
    } else if packet[0] / 64 == 0 {
        STUN_PACKET
    } else {
        UNKNOWN_PACKET
    }
}

/// A buffer whose first two bits are `01` is ChannelData whatever follows, and
/// one whose first two bits are `00` is STUN, with or without the magic
/// cookie in its place.
pub proof fn lemma_kind_by_top_bits(b: Seq<u8>)
    requires
        b.len() >= 2,
    ensures
        64 <= u16_at(b, 0) / 256 < 128 ==> kind_of(b) == CHANNEL_DATA,
        0x4000 <= u16_at(b, 0) < 0x8000 <==> kind_of(b) == CHANNEL_DATA,
        u16_at(b, 0) < 0x4000 <==> kind_of(b) == STUN_PACKET,
        u16_at(b, 0) >= 0x8000 <==> kind_of(b) == UNKNOWN_PACKET,
{
}

/// Whatever comes behind the first byte does not change the kind.
pub proof fn lemma_kind_ignores_rest(a: Seq<u8>, b: Seq<u8>)
    requires
        a.len() >= 2,
        b.len() >= 2,
        a[0] == b[0],
    ensures
        kind_of(a) == kind_of(b),
{
}

/// A ChannelData frame: data for, or from, the peer that a channel is bound
/// to.
#[derive(Debug, Clone, PartialEq, Eq)]
pub struct ChannelData {
    pub number: u16,
    pub data: Vec<u8>,
}

/// What a ChannelData frame holds, as mathematical values.
pub struct ChannelDataView {
    pub number: u16,
    pub data: Seq<u8>,
}

impl View for ChannelData {
    type V = ChannelDataView;

    open spec fn view(&self) -> ChannelDataView {
        ChannelDataView { number: self.number, data: self.data@ }
    }
}

impl ChannelDataView {
    /// What must hold of a frame for its bytes to stand for it: the number
    /// has `01` as its first two bits and the data fits the length field.
    pub open spec fn valid(self) -> bool {
        CHANNEL_MIN <= self.number < 0x8000 && self.data.len() <= 65535
    }

    /// The frame on the wire: number, length, data, and zero bytes up to a
    /// multiple of four.
    pub open spec fn encode(self) -> Seq<u8> {
        u16_be(self.number) + u16_be(self.data.len() as u16) + self.data + zeros(
            pad_len(self.data.len() as int),
        )
    }
}

/// The frame that `b` holds. `None` where `b` is shorter than the frame
/// header, where its first two bits are not `01`, and where the declared
/// length is more than what follows the header.
pub open spec fn parse_channel_data(b: Seq<u8>) -> Option<ChannelDataView> {
    if b.len() < CHANNEL_HEADER_LEN || !(CHANNEL_MIN <= u16_at(b, 0) < 0x8000) || u16_at(b, 2)
        > b.len() - CHANNEL_HEADER_LEN {
        None
    } else {
        Some(ChannelDataView { number: u16_at(b, 0), data: b.subrange(4, 4 + u16_at(b, 2)) })
    }
}

/// Reading the bytes of a valid frame gives the frame back.
pub proof fn lemma_channel_data_round_trip(f: ChannelDataView)
    requires
        f.valid(),
    ensures
        parse_channel_data(f.encode()) == Some(f),
{
    let b = f.encode();
    crate::wire::lemma_u16_round_trip(f.number);
    crate::wire::lemma_u16_round_trip(f.data.len() as u16);
    assert(b[0] == u16_be(f.number)[0] && b[1] == u16_be(f.number)[1]);
    assert(b[2] == u16_be(f.data.len() as u16)[0] && b[3] == u16_be(f.data.len() as u16)[1]);
    assert(u16_at(b, 0) == f.number);
    assert(u16_at(b, 2) == f.data.len());
    assert(b.subrange(4, 4 + f.data.len() as int) =~= f.data);
}

/// A frame whose declared length is more than what follows its header does
/// not parse.
pub proof fn lemma_overlong_frame_rejected(b: Seq<u8>)
    requires
        b.len() >= CHANNEL_HEADER_LEN,
        u16_at(b, 2) > b.len() - CHANNEL_HEADER_LEN,
    ensures
        parse_channel_data(b) is None,
{
}

impl ChannelData {
    /// Whether the frame can be written and read back.
    pub fn is_valid(&self) -> (ok: bool)
        ensures
            ok == self@.valid(),
    {
        CHANNEL_MIN <= self.number && self.number < 0x8000 && self.data.len() <= 65535
    }

    /// The frame on the wire.
    pub fn encode(&self) -> (packet: Vec<u8>)
        requires
            self@.valid(),
        ensures
            packet@ == self@.encode(),
    {
        let mut out: Vec<u8> = Vec::new();
        push_u16(&mut out, self.number);
        push_u16(&mut out, self.data.len() as u16);
        push_bytes(&mut out, self.data.as_slice());
        push_padding(&mut out, self.data.len());
        out
    }

    /// The frame that `packet` holds, or `Malformed`.
    pub fn decode(packet: &[u8]) -> (r: Result<ChannelData, Error>)
        ensures
            parse_channel_data(packet@) is Some ==> r is Ok && r->Ok_0@ == parse_channel_data(
                packet@,
            )->0,
            parse_channel_data(packet@) is None ==> r == Err::<ChannelData, Error>(
                Error::Malformed,
            ),
            r is Ok ==> r->Ok_0@.valid(),
    {
        if packet.len() < CHANNEL_HEADER_LEN {
            return Err(Error::Malformed);
        }
        let number = read_u16(packet, 0);
        let len = read_u16(packet, 2) as usize;
        if number < CHANNEL_MIN || number >= 0x8000 || len > packet.len() - CHANNEL_HEADER_LEN {
            return Err(Error::Malformed);
        }
        Ok(ChannelData { number, data: copy_range(packet, 4, 4 + len) })
    }
}

} // verus!
