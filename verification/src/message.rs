//! STUN messages: the 20-byte header, the attributes behind it, and the two
//! directions between a message and its bytes.

use vstd::prelude::*;
use crate::address::{MAGIC_COOKIE, TransactionId, twelve};
use crate::attribute::{
    Attribute, AttributeView, lemma_parsed_is_valid, lemma_value_round_trip, parse_value,
};
use crate::error::Error;
use crate::wire::{
    lemma_u16_round_trip, lemma_u32_round_trip, pad_len, push_bytes, push_padding, push_u16,
    push_u32, read_u16, read_u32, u16_at, u16_be, u32_at, u32_be, zeros,
};

verus! {

pub const METHOD_BINDING: u16 = 0x001;

pub const METHOD_ALLOCATE: u16 = 0x003;

pub const METHOD_REFRESH: u16 = 0x004;

pub const METHOD_SEND: u16 = 0x006;

pub const METHOD_DATA: u16 = 0x007;

pub const METHOD_CREATE_PERMISSION: u16 = 0x008;

pub const METHOD_CHANNEL_BIND: u16 = 0x009;

/// Bytes of the header in front of the attributes.
pub const HEADER_LEN: usize = 20;

/// A method is a 12-bit number: this is the first value that is none.
pub const METHOD_LIMIT: u16 = 0x1000;

/// The largest number of attribute bytes that the header's length field can
/// state.
pub const MAX_BODY_LEN: usize = 65535;

/// The class of a message.
#[derive(Debug, Clone, Copy, PartialEq, Eq, Structural)]
pub enum Class {
    Request,
    Indication,
    SuccessResponse,
    ErrorResponse,
}

pub const CLASS_REQUEST: Class = Class::Request;

pub const CLASS_INDICATION: Class = Class::Indication;

pub const CLASS_SUCCESS: Class = Class::SuccessResponse;

pub const CLASS_ERROR: Class = Class::ErrorResponse;

/// A STUN message.
#[derive(Debug, Clone, PartialEq, Eq)]
pub struct Message {
    pub method: u16,
    pub class: Class,
    pub transaction_id: TransactionId,
    pub attributes: Vec<Attribute>,
}

/// What a message holds, as mathematical values.
pub struct MessageView {
    pub method: u16,
    pub class: Class,
    pub transaction_id: TransactionId,
    pub attributes: Seq<AttributeView>,
}

/// The views of a sequence of attributes, in the same order.
pub open spec fn views(s: Seq<Attribute>) -> Seq<AttributeView> {
    Seq::new(s.len(), |i: int| s[i]@)
}

impl View for Message {
    type V = MessageView;

    open spec fn view(&self) -> MessageView {
        MessageView {
            method: self.method,
            class: self.class,
            transaction_id: self.transaction_id,
            attributes: views(self.attributes@),
        }
    }
}

/// The two class bits as a number.
pub open spec fn class_bits(c: Class) -> u16 {
    match c {
        Class::Request => 0,
        Class::Indication => 1,
        Class::SuccessResponse => 2,
        Class::ErrorResponse => 3,
    }
}

/// The twelve bits of `method` with the two bits of `c` set in between them:
/// five bits of the method, the higher class bit, three bits of the method,
/// the lower class bit, four bits of the method.
pub open spec fn pack_type(method: u16, c: u16) -> u16 {
    ((method / 128) * 512 + (c / 2) * 256 + ((method / 16) % 8) * 32 + (c % 2) * 16 + method % 16) as u16
}

/// The first 16 bits of the header: the method's twelve bits with the two
/// class bits set in between them, below two zero bits.
pub open spec fn message_type(method: u16, class: Class) -> u16 {
    pack_type(method, class_bits(class))
}

/// The method in a message type.
pub open spec fn method_of(t: u16) -> u16 {
    (((t / 512) % 32) * 128 + ((t / 32) % 8) * 16 + t % 16) as u16
}

/// The two class bits in a message type, as a number.
pub open spec fn class_bits_of(t: u16) -> u16 {
    (((t / 256) % 2) * 2 + (t / 16) % 2) as u16
}

/// The class in a message type.
pub open spec fn class_of(t: u16) -> Class {
    let c = class_bits_of(t);
    if c == 0 {
        Class::Request
    } else if c == 1 {
        Class::Indication
    } else if c == 2 {
        Class::SuccessResponse
    } else {
        Class::ErrorResponse
    }
}

/// The attributes on the wire, one after the other.
pub open spec fn encode_attrs(attrs: Seq<AttributeView>, tid: TransactionId) -> Seq<u8>
    decreases attrs.len(),
{
    if attrs.len() == 0 {
        Seq::<u8>::empty()
    } else {
        attrs[0].encode(tid) + encode_attrs(attrs.drop_first(), tid)
    }
}

/// The attributes that the bytes of `b` from `pos` on hold. `None` where an
/// attribute header is cut short, where a declared length runs past the end,
/// and where a value does not parse.
pub open spec fn parse_attrs(b: Seq<u8>, pos: int, tid: TransactionId) -> Option<
    Seq<AttributeView>,
>
    decreases b.len() - pos,
{
    if pos >= b.len() {
        if pos == b.len() {
            Some(Seq::<AttributeView>::empty())
        } else {
            None
        }
    } else if pos < 0 || pos + 4 > b.len() {
        None
    } else {
        let typ = u16_at(b, pos);
        let len = u16_at(b, pos + 2) as int;
        let end = pos + 4 + len + pad_len(len);
        if end > b.len() {
            None
        } else {
            match parse_value(typ, b.subrange(pos + 4, pos + 4 + len), tid) {
                None => None,
                Some(a) => match parse_attrs(b, end, tid) {
                    None => None,
                    Some(rest) => Some(seq![a] + rest),
                },
            }
        }
    }
}

/// `acc` in front of what `rest` holds, if it holds anything.
pub open spec fn prepend(acc: Seq<AttributeView>, rest: Option<Seq<AttributeView>>) -> Option<
    Seq<AttributeView>,
> {
    match rest {
        Some(r) => Some(acc + r),
        None => None,
    }
}

impl MessageView {
    /// The attributes on the wire.
    pub open spec fn body(self) -> Seq<u8> {
        encode_attrs(self.attributes, self.transaction_id)
    }

    /// What must hold of a message for its bytes to stand for it: the method
    /// has twelve bits, every attribute is valid, and the attributes fit the
    /// length field.
    pub open spec fn valid(self) -> bool {
        &&& self.method < METHOD_LIMIT
        &&& forall|i: int| 0 <= i < self.attributes.len() ==> (#[trigger] self.attributes[i]).valid()
        &&& self.body().len() <= MAX_BODY_LEN
    }

    /// The header in front of `body_len` bytes of attributes.
    pub open spec fn header(self, body_len: u16) -> Seq<u8> {
        u16_be(message_type(self.method, self.class)) + u16_be(body_len) + u32_be(MAGIC_COOKIE)
            + self.transaction_id.0@
    }

    /// The message on the wire.
    pub open spec fn encode(self) -> Seq<u8> {
        self.header(self.body().len() as u16) + self.body()
    }

    /// Why a message that is not valid cannot be written: `MessageTooLong`
    /// where the method and every attribute are valid, and so only the length
    /// is in the way, `Malformed` otherwise.
    pub open spec fn encode_error(self) -> Error {
        if self.method < METHOD_LIMIT && forall|i: int|
            0 <= i < self.attributes.len() ==> (#[trigger] self.attributes[i]).valid() {
            Error::MessageTooLong
        } else {
            Error::Malformed
        }
    }

    /// The message with `a` behind its attributes.
    pub open spec fn with(self, a: AttributeView) -> MessageView {
        MessageView { attributes: self.attributes.push(a), ..self }
    }

    /// Whether the message holds an attribute of type `typ`.
    pub open spec fn contains(self, typ: u16) -> bool {
        exists|i: int| 0 <= i < self.attributes.len() && (#[trigger] self.attributes[i]).code() == typ
    }
}

/// The message that `b` holds. `None` where `b` is shorter than a header,
/// where one of its first two bits is set, where the magic cookie is not in
/// its place, where the declared length is not the number of bytes behind the
/// header, and where the attributes do not parse.
pub open spec fn parse_message(b: Seq<u8>) -> Option<MessageView> {
    if b.len() < HEADER_LEN || u16_at(b, 0) >= 0x4000 || u32_at(b, 4) != MAGIC_COOKIE || u16_at(b, 2)
        != b.len() - HEADER_LEN {
        None
    } else {
        let tid = TransactionId(twelve(b.subrange(8, 20)));
        match parse_attrs(b, HEADER_LEN as int, tid) {
            None => None,
            Some(attrs) => Some(
                MessageView {
                    method: method_of(u16_at(b, 0)),
                    class: class_of(u16_at(b, 0)),
                    transaction_id: tid,
                    attributes: attrs,
                },
            ),
        }
    }
}

/// The encoding of two runs of attributes is the encoding of the first followed
/// by that of the second.
pub proof fn lemma_encode_attrs_concat(
    a: Seq<AttributeView>,
    b: Seq<AttributeView>,
    tid: TransactionId,
)
    ensures
        encode_attrs(a + b, tid) == encode_attrs(a, tid) + encode_attrs(b, tid),
    decreases a.len(),
{
    if a.len() == 0 {
        assert(a + b =~= b);
        assert(encode_attrs(a, tid) + encode_attrs(b, tid) =~= encode_attrs(b, tid));
    } else {
        lemma_encode_attrs_concat(a.drop_first(), b, tid);
        assert((a + b).drop_first() =~= a.drop_first() + b);
        assert((a + b)[0] == a[0]);
        assert(encode_attrs(a + b, tid) =~= encode_attrs(a, tid) + encode_attrs(b, tid));
    }
}

/// Adding one attribute at the end adds its bytes at the end.
pub proof fn lemma_encode_attrs_push(attrs: Seq<AttributeView>, a: AttributeView, tid: TransactionId)
    ensures
        encode_attrs(attrs.push(a), tid) == encode_attrs(attrs, tid) + a.encode(tid),
{
    lemma_encode_attrs_concat(attrs, seq![a], tid);
    assert(attrs.push(a) =~= attrs + seq![a]);
    assert(seq![a].drop_first() =~= Seq::<AttributeView>::empty());
    assert(encode_attrs(seq![a].drop_first(), tid) =~= Seq::<u8>::empty());
    assert(seq![a][0] == a);
    assert(encode_attrs(seq![a], tid) =~= a.encode(tid));
}

/// The first `i` attributes take no more bytes than all of them.
pub proof fn lemma_encode_attrs_prefix(attrs: Seq<AttributeView>, i: int, tid: TransactionId)
    requires
        0 <= i <= attrs.len(),
    ensures
        encode_attrs(attrs, tid) == encode_attrs(attrs.take(i), tid) + encode_attrs(
            attrs.skip(i),
            tid,
        ),
        encode_attrs(attrs.take(i), tid).len() <= encode_attrs(attrs, tid).len(),
{
    lemma_encode_attrs_concat(attrs.take(i), attrs.skip(i), tid);
    assert(attrs.take(i) + attrs.skip(i) =~= attrs);
}

/// Packing a method and two class bits loses neither.
proof fn lemma_pack_type(method: u16, c: u16)
    by (bit_vector)
    requires
        method < 0x1000,
        c < 4,
    ensures
        pack_type(method, c) < 0x4000,
        method_of(pack_type(method, c)) == method,
        class_bits_of(pack_type(method, c)) == c,
{
}

/// A message type holds its method and its class, below two zero bits.
pub proof fn lemma_type_round_trip(method: u16, class: Class)
    requires
        method < METHOD_LIMIT,
    ensures
        message_type(method, class) < 0x4000,
        method_of(message_type(method, class)) == method,
        class_of(message_type(method, class)) == class,
{
    lemma_pack_type(method, class_bits(class));
}

/// The method in any message type has twelve bits.
pub proof fn lemma_method_of_bound(t: u16)
    by (bit_vector)
    ensures
        method_of(t) < 0x1000,
{
}

/// The bytes that the attributes take: for each one four bytes of header and
/// its value padded to a multiple of four.
pub open spec fn total_len(attrs: Seq<AttributeView>, tid: TransactionId) -> int
    decreases attrs.len(),
{
    if attrs.len() == 0 {
        0
    } else {
        4 + attrs[0].value(tid).len() + pad_len(attrs[0].value(tid).len() as int) + total_len(
            attrs.drop_first(),
            tid,
        )
    }
}

/// The attributes on the wire take, each, its header and its padded value,
/// and so a multiple of four bytes in all.
pub proof fn lemma_body_len(attrs: Seq<AttributeView>, tid: TransactionId)
    ensures
        encode_attrs(attrs, tid).len() == total_len(attrs, tid),
        encode_attrs(attrs, tid).len() % 4 == 0,
    decreases attrs.len(),
{
    if attrs.len() > 0 {
        lemma_body_len(attrs.drop_first(), tid);
        let n = attrs[0].value(tid).len() as int;
        assert(attrs[0].encode(tid).len() == 4 + n + pad_len(n));
        assert((n + pad_len(n)) % 4 == 0);
    }
}

/// A message on the wire takes the 20 bytes of the header and the bytes of
/// its attributes, which are what the length field states.
pub proof fn lemma_encoded_len(m: MessageView)
    requires
        m.valid(),
    ensures
        m.encode().len() == HEADER_LEN + total_len(m.attributes, m.transaction_id),
        m.encode().len() % 4 == 0,
        u16_at(m.encode(), 2) == total_len(m.attributes, m.transaction_id),
{
    lemma_body_len(m.attributes, m.transaction_id);
    let body = m.body();
    let declared = body.len() as u16;
    let h = m.header(declared);
    let b = m.encode();
    lemma_u16_round_trip(declared);
    assert(h.len() == 20);
    assert(b[2] == h[2] && b[3] == h[3]);
    assert(h[2] == u16_be(declared)[0] && h[3] == u16_be(declared)[1]);
}

/// Parsing the bytes of valid attributes gives the attributes back.
pub proof fn lemma_parse_encoded_attrs(
    b: Seq<u8>,
    pos: int,
    attrs: Seq<AttributeView>,
    tid: TransactionId,
)
    requires
        0 <= pos <= b.len(),
        b.subrange(pos, b.len() as int) == encode_attrs(attrs, tid),
        forall|i: int| 0 <= i < attrs.len() ==> (#[trigger] attrs[i]).valid(),
        forall|i: int| 0 <= i < attrs.len() ==> (#[trigger] attrs[i]).value(tid).len() <= 65535,
    ensures
        parse_attrs(b, pos, tid) == Some(attrs),
    decreases attrs.len(),
{
    let tail = b.subrange(pos, b.len() as int);
    if attrs.len() == 0 {
        assert(tail.len() == 0);
        assert(attrs =~= Seq::<AttributeView>::empty());
    } else {
        let a = attrs[0];
        let rest = attrs.drop_first();
        let v = a.value(tid);
        let e = a.encode(tid);
        let len = v.len() as int;
        assert(a.valid());
        assert(len <= 65535);
        assert(e.len() == 4 + len + pad_len(len));
        assert(tail =~= e + encode_attrs(rest, tid));
        assert(tail.len() >= e.len());
        assert forall|k: int| 0 <= k < e.len() implies b[pos + k] == e[k] by {
            assert(b[pos + k] == tail[k]);
        }
        lemma_u16_round_trip(a.code());
        lemma_u16_round_trip(len as u16);
        assert(b[pos] == e[0] && b[pos + 1] == e[1] && b[pos + 2] == e[2] && b[pos + 3] == e[3]);
        assert(e[0] == u16_be(a.code())[0] && e[1] == u16_be(a.code())[1]);
        assert(e[2] == u16_be(len as u16)[0] && e[3] == u16_be(len as u16)[1]);
        assert(u16_at(b, pos) == a.code());
        assert(u16_at(b, pos + 2) == len);
        let end = pos + 4 + len + pad_len(len);
        assert(end == pos + e.len());
        assert(b.subrange(pos + 4, pos + 4 + len) =~= v) by {
            assert forall|k: int| 0 <= k < len implies b.subrange(pos + 4, pos + 4 + len)[k]
                == v[k] by {
                assert(b[pos + 4 + k] == e[4 + k]);
            }
        }
        lemma_value_round_trip(a, tid);
        assert(b.subrange(end, b.len() as int) =~= encode_attrs(rest, tid)) by {
            assert forall|k: int| 0 <= k < b.len() - end implies b.subrange(end, b.len() as int)[k]
                == encode_attrs(rest, tid)[k] by {
                assert(b[end + k] == tail[e.len() + k]);
            }
        }
        assert forall|i: int| 0 <= i < rest.len() implies (#[trigger] rest[i]).valid() by {
            assert(rest[i] == attrs[i + 1]);
        }
        assert forall|i: int| 0 <= i < rest.len() implies (#[trigger] rest[i]).value(tid).len()
            <= 65535 by {
            assert(rest[i] == attrs[i + 1]);
        }
        lemma_parse_encoded_attrs(b, end, rest, tid);
        assert(seq![a] + rest =~= attrs);
    }
}

/// Each attribute of a message that fits the length field has a value that
/// fits it too.
pub proof fn lemma_values_fit(attrs: Seq<AttributeView>, tid: TransactionId)
    requires
        encode_attrs(attrs, tid).len() <= MAX_BODY_LEN,
    ensures
        forall|i: int| 0 <= i < attrs.len() ==> (#[trigger] attrs[i]).value(tid).len() <= 65535,
    decreases attrs.len(),
{
    if attrs.len() > 0 {
        let rest = attrs.drop_first();
        lemma_values_fit(rest, tid);
        assert forall|i: int| 0 <= i < attrs.len() implies (#[trigger] attrs[i]).value(tid).len()
            <= 65535 by {
            if i > 0 {
                assert(attrs[i] == rest[i - 1]);
            }
        }
    }
}

/// Decoding the bytes of a valid message gives the message back, with its
/// attributes in their order.
pub proof fn lemma_round_trip(m: MessageView)
    requires
        m.valid(),
    ensures
        parse_message(m.encode()) == Some(m),
{
    let b = m.encode();
    let body = m.body();
    let t = message_type(m.method, m.class);
    let h = m.header(body.len() as u16);
    lemma_type_round_trip(m.method, m.class);
    lemma_u16_round_trip(t);
    lemma_u16_round_trip(body.len() as u16);
    lemma_u32_round_trip(MAGIC_COOKIE);
    assert(h.len() == 20);
    assert(b.len() == 20 + body.len());
    assert forall|k: int| 0 <= k < 20 implies b[k] == h[k] by {}
    assert(h[0] == u16_be(t)[0] && h[1] == u16_be(t)[1]);
    assert(h[2] == u16_be(body.len() as u16)[0] && h[3] == u16_be(body.len() as u16)[1]);
    assert(h[4] == u32_be(MAGIC_COOKIE)[0] && h[5] == u32_be(MAGIC_COOKIE)[1] && h[6] == u32_be(
        MAGIC_COOKIE,
    )[2] && h[7] == u32_be(MAGIC_COOKIE)[3]);
    assert(u16_at(b, 0) == t);
    assert(u16_at(b, 2) == body.len());
    assert(u32_at(b, 4) == MAGIC_COOKIE);
    assert(b.subrange(8, 20) =~= m.transaction_id.0@);
    assert(twelve(b.subrange(8, 20)) =~= m.transaction_id.0);
    let tid = TransactionId(twelve(b.subrange(8, 20)));
    assert(tid == m.transaction_id);
    assert(b.subrange(20, b.len() as int) =~= body);
    lemma_values_fit(m.attributes, tid);
    lemma_parse_encoded_attrs(b, 20, m.attributes, tid);
}

/// A buffer that is shorter than a header, or shorter than the header and the
/// length that it declares, holds no message.
pub proof fn lemma_truncated_is_malformed(b: Seq<u8>)
    requires
        b.len() < HEADER_LEN || b.len() - HEADER_LEN < u16_at(b, 2),
    ensures
        parse_message(b) is None,
{
}

/// The attributes that parse from a buffer are valid and take, encoded again,
/// as many bytes as they took in the buffer.
pub proof fn lemma_parsed_attrs_valid(b: Seq<u8>, pos: int, tid: TransactionId)
    requires
        0 <= pos <= b.len(),
        parse_attrs(b, pos, tid) is Some,
    ensures
        forall|i: int|
            0 <= i < parse_attrs(b, pos, tid)->0.len() ==> (#[trigger] parse_attrs(
                b,
                pos,
                tid,
            )->0[i]).valid(),
        encode_attrs(parse_attrs(b, pos, tid)->0, tid).len() == b.len() - pos,
    decreases b.len() - pos,
{
    if pos < b.len() {
        let typ = u16_at(b, pos);
        let len = u16_at(b, pos + 2) as int;
        let end = pos + 4 + len + pad_len(len);
        let v = b.subrange(pos + 4, pos + 4 + len);
        let a = parse_value(typ, v, tid)->0;
        let rest = parse_attrs(b, end, tid)->0;
        let all = parse_attrs(b, pos, tid)->0;
        lemma_parsed_is_valid(typ, v, tid);
        crate::attribute::lemma_parsed_value_len(typ, v, tid);
        lemma_parsed_attrs_valid(b, end, tid);
        assert(all =~= seq![a] + rest);
        assert(all.drop_first() =~= rest);
        assert forall|i: int| 0 <= i < all.len() implies (#[trigger] all[i]).valid() by {
            if i > 0 {
                assert(all[i] == rest[i - 1]);
            }
        }
    } else {
        assert(parse_attrs(b, pos, tid)->0 =~= Seq::<AttributeView>::empty());
    }
}

/// What parses from a buffer is a valid message.
pub proof fn lemma_parsed_message_valid(b: Seq<u8>)
    requires
        parse_message(b) is Some,
    ensures
        parse_message(b)->0.valid(),
{
    let tid = TransactionId(twelve(b.subrange(8, 20)));
    lemma_parsed_attrs_valid(b, 20, tid);
    lemma_method_of_bound(u16_at(b, 0));
}

/// The first 16 bits of the header for `method` and `class`.
pub fn type_code(method: u16, class: Class) -> (t: u16)
    requires
        method < METHOD_LIMIT,
    ensures
        t == message_type(method, class),
{
    let c: u16 = match class {
        Class::Request => 0,
        Class::Indication => 1,
        Class::SuccessResponse => 2,
        Class::ErrorResponse => 3,
    };
    (method / 128) * 512 + (c / 2) * 256 + ((method / 16) % 8) * 32 + (c % 2) * 16 + method % 16
}

/// The method and the class in a message type.
pub fn split_type(t: u16) -> (r: (u16, Class))
    ensures
        r.0 == method_of(t),
        r.1 == class_of(t),
{
    let method: u16 = ((t / 512) % 32) * 128 + ((t / 32) % 8) * 16 + t % 16;
    let c: u16 = ((t / 256) % 2) * 2 + (t / 16) % 2;
    let class = if c == 0 {
        Class::Request
    } else if c == 1 {
        Class::Indication
    } else if c == 2 {
        Class::SuccessResponse
    } else {
        Class::ErrorResponse
    };
    (method, class)
}

impl Message {
    /// A message of the given method and class with an all-zero transaction
    /// id and no attributes.
    pub fn new(method: u16, class: Class) -> (m: Message)
        ensures
            m@.method == method,
            m@.class == class,
            m@.transaction_id.0@ == zeros(12),
            m@.attributes == Seq::<AttributeView>::empty(),
    {
        let m = Message {
            method,
            class,
            transaction_id: TransactionId([0u8; 12]),
            attributes: Vec::new(),
        };
        assert(m.transaction_id.0@ =~= zeros(12));
        assert(m@.attributes =~= Seq::<AttributeView>::empty());
        m
    }

    /// Whether the message holds an attribute of type `typ`.
    pub fn contains(&self, typ: u16) -> (found: bool)
        ensures
            found == self@.contains(typ),
    {
        let mut i: usize = 0;
        while i < self.attributes.len()
            invariant
                i <= self.attributes@.len(),
                forall|k: int| 0 <= k < i ==> (#[trigger] self@.attributes[k]).code() != typ,
            decreases self.attributes@.len() - i,
        {
            if self.attributes[i].code() == typ {
                assert(self@.attributes[i as int].code() == typ);
                return true;
            }
            i += 1;
        }
        false
    }

    /// The attributes on the wire, or `None` where they are invalid or do not
    /// fit the length field.
    fn encode_body(&self) -> (r: Option<Vec<u8>>)
        ensures
            r is Some == ((forall|i: int|
                0 <= i < self@.attributes.len() ==> (#[trigger] self@.attributes[i]).valid())
                && self@.body().len() <= MAX_BODY_LEN),
            r is Some ==> r->0@ == self@.body(),
    {
        let tid = self.transaction_id;
        let ghost attrs = self@.attributes;
        let mut out: Vec<u8> = Vec::new();
        let mut i: usize = 0;
        while i < self.attributes.len()
            invariant
                i <= self.attributes@.len(),
                attrs == self@.attributes,
                tid == self.transaction_id,
                out@ == encode_attrs(attrs.take(i as int), tid),
                out@.len() <= MAX_BODY_LEN,
                forall|k: int| 0 <= k < i ==> (#[trigger] attrs[k]).valid(),
            decreases self.attributes@.len() - i,
        {
            let a = &self.attributes[i];
            assert(a@ == attrs[i as int]);
            proof {
                lemma_encode_attrs_push(attrs.take(i as int), a@, tid);
                assert(attrs.take(i as int).push(a@) =~= attrs.take(i + 1));
                lemma_encode_attrs_prefix(attrs, i + 1, tid);
            }
            if !a.is_valid() {
                return None;
            }
            let mut value: Vec<u8> = Vec::new();
            a.push_value(&tid, &mut value);
            assert(value@ =~= a@.value(tid));
            let len = value.len();
            if len > MAX_BODY_LEN {
                return None;
            }
            let padded = 4 + len + (4 - len % 4) % 4;
            if padded > MAX_BODY_LEN - out.len() {
                return None;
            }
            push_u16(&mut out, a.code());
            push_u16(&mut out, len as u16);
            push_bytes(&mut out, value.as_slice());
            push_padding(&mut out, len);
            assert(out@ =~= encode_attrs(attrs.take(i as int), tid) + a@.encode(tid));
            i += 1;
        }
        assert(attrs.take(i as int) =~= attrs);
        Some(out)
    }

    /// Whether the message can be written and read back.
    pub fn is_valid(&self) -> (ok: bool)
        ensures
            ok == self@.valid(),
    {
        self.method < METHOD_LIMIT && self.encode_body().is_some()
    }

    /// The message on the wire.
    pub fn encode_to_packet(&self) -> (packet: Vec<u8>)
        requires
            self@.valid(),
        ensures
            packet@ == self@.encode(),
    {
        let body = match self.encode_body() {
            Some(b) => b,
            None => Vec::new(),
        };
        let mut out: Vec<u8> = Vec::new();
        push_u16(&mut out, type_code(self.method, self.class));
        push_u16(&mut out, body.len() as u16);
        push_u32(&mut out, MAGIC_COOKIE);
        push_bytes(&mut out, self.transaction_id.0.as_slice());
        push_bytes(&mut out, body.as_slice());
        assert(out@ =~= self@.encode());
        out
    }

    /// The message on the wire, for any message: `Malformed` where the method
    /// or an attribute is invalid, `MessageTooLong` where the attributes do
    /// not fit the length field.
    pub fn encode(&self) -> (r: Result<Vec<u8>, Error>)
        ensures
            self@.valid() ==> r is Ok && r->Ok_0@ == self@.encode(),
            !self@.valid() ==> r == Err::<Vec<u8>, Error>(self@.encode_error()),
    {
        if self.method >= METHOD_LIMIT {
            return Err(Error::Malformed);
        }
        if self.is_valid() {
            return Ok(self.encode_to_packet());
        }
        let mut i: usize = 0;
        while i < self.attributes.len()
            invariant
                i <= self.attributes@.len(),
                forall|k: int| 0 <= k < i ==> (#[trigger] self@.attributes[k]).valid(),
            decreases self.attributes@.len() - i,
        {
            if !self.attributes[i].is_valid() {
                assert(!self@.attributes[i as int].valid());
                return Err(Error::Malformed);
            }
            i += 1;
        }
        Err(Error::MessageTooLong)
    }

    /// Adds `attr` behind the attributes that the message has, unless the
    /// message would then no longer be valid.
    pub fn set_extra_attribute(&mut self, attr: Attribute) -> (r: Result<(), Error>)
        ensures
            old(self)@.with(attr@).valid() ==> r is Ok && final(self)@ == old(self)@.with(attr@),
            !old(self)@.with(attr@).valid() ==> r == Err::<(), Error>(
                old(self)@.with(attr@).encode_error(),
            ) && final(self)@ == old(self)@,
    {
        let ghost before = self@;
        let ghost pushed = before.with(attr@);
        let ghost a = attr@;
        self.attributes.push(attr);
        assert(self@.attributes =~= before.attributes.push(a));
        assert(self@ == pushed);
        match self.encode() {
            Ok(_) => Ok(()),
            Err(e) => {
                self.attributes.pop();
                assert(self@.attributes =~= before.attributes);
                Err(e)
            },
        }
    }

    /// The message that `packet` holds, or `Malformed`.
    pub fn decode_from_packet(packet: &[u8]) -> (r: Result<Message, Error>)
        ensures
            parse_message(packet@) is Some ==> r is Ok && r->Ok_0@ == parse_message(packet@)->0,
            parse_message(packet@) is None ==> r == Err::<Message, Error>(Error::Malformed),
            r is Ok ==> r->Ok_0@.valid(),
    {
        let n = packet.len();
        if n < HEADER_LEN {
            return Err(Error::Malformed);
        }
        let t = read_u16(packet, 0);
        let declared = read_u16(packet, 2);
        if t >= 0x4000 || read_u32(packet, 4) != MAGIC_COOKIE || declared as usize != n
            - HEADER_LEN {
            return Err(Error::Malformed);
        }
        let tid = TransactionId(
            [
                packet[8],
                packet[9],
                packet[10],
                packet[11],
                packet[12],
                packet[13],
                packet[14],
                packet[15],
                packet[16],
                packet[17],
                packet[18],
                packet[19],
            ],
        );
        assert(tid.0 =~= twelve(packet@.subrange(8, 20)));
        let ghost b = packet@;
        let mut attrs: Vec<Attribute> = Vec::new();
        let mut pos: usize = HEADER_LEN;
        assert(views(attrs@) =~= Seq::<AttributeView>::empty());
        assert(prepend(views(attrs@), parse_attrs(b, pos as int, tid)) == parse_attrs(
            b,
            20,
            tid,
        )) by {
            if parse_attrs(b, 20, tid) is Some {
                assert(views(attrs@) + parse_attrs(b, 20, tid)->0 =~= parse_attrs(b, 20, tid)->0);
            }
        }
        while pos < n
            invariant
                HEADER_LEN <= pos <= n,
                n == packet@.len(),
                n <= HEADER_LEN + 65535,
                b == packet@,
                t == u16_at(b, 0),
                t < 0x4000,
                u32_at(b, 4) == MAGIC_COOKIE,
                u16_at(b, 2) == n - HEADER_LEN,
                tid == TransactionId(twelve(b.subrange(8, 20))),
                prepend(views(attrs@), parse_attrs(b, pos as int, tid)) == parse_attrs(b, 20, tid),
            decreases n - pos,
        {
            if n - pos < 4 {
                return Err(Error::Malformed);
            }
            let typ = read_u16(packet, pos);
            let len = read_u16(packet, pos + 2) as usize;
            let padded = len + (4 - len % 4) % 4;
            if n - pos - 4 < padded {
                return Err(Error::Malformed);
            }
            let value = vstd::slice::slice_subrange(packet, pos + 4, pos + 4 + len);
            let ghost end = pos + 4 + padded;
            match Attribute::read_value(typ, value, &tid) {
                None => {
                    return Err(Error::Malformed);
                },
                Some(a) => {
                    proof {
                        let acc = views(attrs@);
                        assert(views(attrs@.push(a)) =~= acc.push(a@));
                        match parse_attrs(b, end as int, tid) {
                            Some(rest) => {
                                assert(acc + (seq![a@] + rest) =~= acc.push(a@) + rest);
                            },
                            None => {},
                        }
                    }
                    attrs.push(a);
                    pos = pos + 4 + padded;
                },
            }
        }
        proof {
            let acc = views(attrs@);
            assert(acc + Seq::<AttributeView>::empty() =~= acc);
            lemma_parsed_message_valid(b);
        }
        let (method, class) = split_type(t);
        Ok(Message { method, class, transaction_id: tid, attributes: attrs })
    }
}

} // verus!
