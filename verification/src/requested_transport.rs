//! The REQUESTED-TRANSPORT attribute: the protocol that a client asks the
//! relay to use towards its peers.

use vstd::prelude::*;
use crate::attribute::{Attribute, AttributeView};
use crate::error::Error;
use crate::message::Message;

verus! {

/// Protocol number of TCP.
pub const PROTO_TCP: u8 = 6;

/// Protocol number of UDP.
pub const PROTO_UDP: u8 = 17;

/// A transport protocol, by its IANA number.
#[derive(Debug, Clone, Copy, PartialEq, Eq, Structural)]
pub struct Protocol(pub u8);

/// What a client sends to ask for a transport protocol.
#[derive(Debug, Clone, Copy, PartialEq, Eq, Structural)]
pub struct RequestedTransport {
    pub protocol: Protocol,
}

impl RequestedTransport {
    /// The attribute that carries this request.
    pub open spec fn attribute(self) -> AttributeView {
        AttributeView::RequestedTransport(self.protocol.0)
    }

    /// Adds the REQUESTED-TRANSPORT attribute behind the attributes of `m`,
    /// unless `m` would then no longer be valid; `m` then stays as it is.
    pub fn set_extra_attribute(&self, m: &mut Message) -> (r: Result<(), Error>)
        ensures
            old(m)@.with(self.attribute()).valid() ==> r is Ok && final(m)@ == old(m)@.with(
                self.attribute(),
            ),
            !old(m)@.with(self.attribute()).valid() ==> r == Err::<(), Error>(
                old(m)@.with(self.attribute()).encode_error(),
            ) && final(m)@ == old(m)@,
    {
        m.set_extra_attribute(Attribute::RequestedTransport(self.protocol.0))
    }
}

} // verus!
