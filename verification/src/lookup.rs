//! Reading single attributes out of a message.

use vstd::prelude::*;
use crate::address::TransportAddress;
use crate::attribute::{
    ATTR_CHANNEL_NUMBER, ATTR_DATA, ATTR_ERROR_CODE, ATTR_LIFETIME, ATTR_NONCE, ATTR_REALM,
    ATTR_REQUESTED_TRANSPORT, ATTR_USERNAME, ATTR_XOR_MAPPED_ADDRESS, ATTR_XOR_PEER_ADDRESS,
    ATTR_XOR_RELAYED_ADDRESS, Attribute, AttributeView,
};
use crate::message::{Message, MessageView};

verus! {

/// The first attribute of type `typ` among `attrs`.
pub open spec fn first_of(attrs: Seq<AttributeView>, typ: u16) -> Option<AttributeView>
    decreases attrs.len(),
{
    if attrs.len() == 0 {
        None
    } else if attrs[0].code() == typ {
        Some(attrs[0])
    } else {
        first_of(attrs.drop_first(), typ)
    }
}

impl MessageView {
    /// The first attribute of type `typ`.
    pub open spec fn first(self, typ: u16) -> Option<AttributeView> {
        first_of(self.attributes, typ)
    }

    /// The bytes of the first attribute of type `typ`, where that is one of
    /// the attributes that hold plain bytes under this type.
    pub open spec fn bytes_of(self, typ: u16) -> Option<Seq<u8>> {
        match self.first(typ) {
            Some(AttributeView::Username(v)) => Some(v),
            Some(AttributeView::Realm(v)) => Some(v),
            Some(AttributeView::Nonce(v)) => Some(v),
            Some(AttributeView::Data(v)) => Some(v),
            _ => None,
        }
    }

    /// The address of the first attribute of type `typ`, where that is an
    /// address attribute.
    pub open spec fn address_of(self, typ: u16) -> Option<TransportAddress> {
        match self.first(typ) {
            Some(AttributeView::XorPeerAddress(a)) => Some(a),
            Some(AttributeView::XorRelayedAddress(a)) => Some(a),
            Some(AttributeView::XorMappedAddress(a)) => Some(a),
            _ => None,
        }
    }

    /// The user name that the message carries.
    pub open spec fn username(self) -> Option<Seq<u8>> {
        self.bytes_of(ATTR_USERNAME)
    }

    /// The realm that the message carries.
    pub open spec fn realm(self) -> Option<Seq<u8>> {
        self.bytes_of(ATTR_REALM)
    }

    /// The nonce that the message carries.
    pub open spec fn nonce(self) -> Option<Seq<u8>> {
        self.bytes_of(ATTR_NONCE)
    }

    /// The data that the message carries.
    pub open spec fn data(self) -> Option<Seq<u8>> {
        self.bytes_of(ATTR_DATA)
    }

    /// The peer address that the message carries.
    pub open spec fn peer_address(self) -> Option<TransportAddress> {
        self.address_of(ATTR_XOR_PEER_ADDRESS)
    }

    /// The relayed address that the message carries.
    pub open spec fn relayed_address(self) -> Option<TransportAddress> {
        self.address_of(ATTR_XOR_RELAYED_ADDRESS)
    }

    /// The mapped address that the message carries.
    pub open spec fn mapped_address(self) -> Option<TransportAddress> {
        self.address_of(ATTR_XOR_MAPPED_ADDRESS)
    }

    /// The lifetime that the message carries, in seconds.
    pub open spec fn lifetime(self) -> Option<u32> {
        match self.first(ATTR_LIFETIME) {
            Some(AttributeView::Lifetime(l)) => Some(l),
            _ => None,
        }
    }

    /// The protocol number that the message asks for.
    pub open spec fn requested_transport(self) -> Option<u8> {
        match self.first(ATTR_REQUESTED_TRANSPORT) {
            Some(AttributeView::RequestedTransport(p)) => Some(p),
            _ => None,
        }
    }

    /// The channel number that the message carries.
    pub open spec fn channel_number(self) -> Option<u16> {
        match self.first(ATTR_CHANNEL_NUMBER) {
            Some(AttributeView::ChannelNumber(n)) => Some(n),
            _ => None,
        }
    }

    /// The error code that the message carries.
    pub open spec fn error_code(self) -> Option<u16> {
        match self.first(ATTR_ERROR_CODE) {
            Some(AttributeView::ErrorCode { code, .. }) => Some(code),
            _ => None,
        }
    }
}

impl Message {
    /// The first attribute of type `typ`.
    pub fn first(&self, typ: u16) -> (r: Option<&Attribute>)
        ensures
            r is Some == self@.first(typ) is Some,
            r is Some ==> r->0@ == self@.first(typ)->0,
    {
        let ghost attrs = self@.attributes;
        let mut i: usize = 0;
        assert(attrs.skip(0) =~= attrs);
        while i < self.attributes.len()
            invariant
                i <= self.attributes@.len(),
                attrs == self@.attributes,
                first_of(attrs, typ) == first_of(attrs.skip(i as int), typ),
            decreases self.attributes@.len() - i,
        {
            let a = &self.attributes[i];
            assert(attrs.skip(i as int)[0] == a@);
            if a.code() == typ {
                return Some(a);
            }
            assert(attrs.skip(i as int).drop_first() =~= attrs.skip(i + 1));
            i += 1;
        }
        None
    }

    /// The bytes of the first attribute of type `typ`.
    pub fn bytes_of(&self, typ: u16) -> (r: Option<&Vec<u8>>)
        ensures
            r is Some == self@.bytes_of(typ) is Some,
            r is Some ==> r->0@ == self@.bytes_of(typ)->0,
    {
        match self.first(typ) {
            Some(Attribute::Username(v)) => Some(v),
            Some(Attribute::Realm(v)) => Some(v),
            Some(Attribute::Nonce(v)) => Some(v),
            Some(Attribute::Data(v)) => Some(v),
            _ => None,
        }
    }

    /// The address of the first attribute of type `typ`.
    pub fn address_of(&self, typ: u16) -> (r: Option<TransportAddress>)
        ensures
            r == self@.address_of(typ),
    {
        match self.first(typ) {
            Some(Attribute::XorPeerAddress(a)) => Some(*a),
            Some(Attribute::XorRelayedAddress(a)) => Some(*a),
            Some(Attribute::XorMappedAddress(a)) => Some(*a),
            _ => None,
        }
    }

    /// The lifetime that the message carries, in seconds.
    pub fn lifetime(&self) -> (r: Option<u32>)
        ensures
            r == self@.lifetime(),
    {
        match self.first(ATTR_LIFETIME) {
            Some(Attribute::Lifetime(l)) => Some(*l),
            _ => None,
        }
    }

    /// The protocol number that the message asks for.
    pub fn requested_transport(&self) -> (r: Option<u8>)
        ensures
            r == self@.requested_transport(),
    {
        match self.first(ATTR_REQUESTED_TRANSPORT) {
            Some(Attribute::RequestedTransport(p)) => Some(*p),
            _ => None,
        }
    }

    /// The channel number that the message carries.
    pub fn channel_number(&self) -> (r: Option<u16>)
        ensures
            r == self@.channel_number(),
    {
        match self.first(ATTR_CHANNEL_NUMBER) {
            Some(Attribute::ChannelNumber(n)) => Some(*n),
            _ => None,
        }
    }

    /// The error code that the message carries.
    pub fn error_code(&self) -> (r: Option<u16>)
        ensures
            r == self@.error_code(),
    {
        match self.first(ATTR_ERROR_CODE) {
            Some(Attribute::ErrorCode { code, .. }) => Some(*code),
            _ => None,
        }
    }
}

} // verus!
