//! The errors of the relay and of its client.

use vstd::prelude::*;
use std::time::SystemTimeError;

verus! {

/// The error of `SystemTime::duration_since`: the clock stands before the
/// instant it is compared with. Nothing inside it is visible here.
#[verifier::external_type_specification]
#[verifier::external_body]
pub struct ExSystemTimeError(SystemTimeError);

/// STUN error code: the request was malformed or names an unknown method.
pub const CODE_BAD_REQUEST: u16 = 400;

/// STUN error code: the request carries no valid credential.
pub const CODE_UNAUTHORIZED: u16 = 401;

/// STUN error code: the request does not fit the state of the allocation.
pub const CODE_ALLOCATION_MISMATCH: u16 = 437;

/// STUN error code: the requested transport protocol is not offered.
pub const CODE_UNSUPPORTED_TRANSPORT: u16 = 442;

/// Everything that can go wrong in the relay or in its client.
#[derive(Debug, Clone, PartialEq, Eq)]
#[non_exhaustive]
pub enum Error {
    /// A response to Allocate carries no ERROR-CODE attribute.
    ErrAllocateResponseIncludeNoErrorCodeAttribute,
    /// The datagram is neither a STUN message nor a ChannelData frame.
    ErrRequestTypeUnknown,
    /// The channel on which a result was awaited is closed.
    ErrReceiverClosed,
    /// A freshly generated nonce is already in the store.
    ErrDuplicatedNonce,
    /// The bytes do not form a STUN message or ChannelData frame.
    Malformed,
    /// A credential is missing, wrong or stale.
    Unauthorized,
    /// The owner holds no allocation.
    NoSuchAllocation,
    /// The owner already holds an allocation.
    AllocationExists,
    /// The channel number or the peer is already bound otherwise.
    ChannelAlreadyBound,
    /// A transport other than UDP was requested.
    UnsupportedTransport,
    /// The request lacks an attribute, holds one that is out of range, or
    /// names a method that is not served.
    BadRequest,
    /// The attributes do not fit the 16-bit length field of the header.
    MessageTooLong,
    /// Every retransmission went unanswered.
    Timeout,
    /// The transport was closed.
    TransportClosed,
    /// The server rejected the credentials a second time.
    AuthenticationFailed,
    /// An error of the surroundings, by its text.
    Other(String),
}

impl Error {
    /// The code that a STUN error response carries for this error, if the
    /// error is one that is answered with such a response.
    pub open spec fn spec_stun_code(self) -> Option<u16> {
        match self {
            Error::Unauthorized => Some(CODE_UNAUTHORIZED),
            Error::NoSuchAllocation => Some(CODE_ALLOCATION_MISMATCH),
            Error::AllocationExists => Some(CODE_ALLOCATION_MISMATCH),
            Error::ChannelAlreadyBound => Some(CODE_BAD_REQUEST),
            Error::BadRequest => Some(CODE_BAD_REQUEST),
            Error::UnsupportedTransport => Some(CODE_UNSUPPORTED_TRANSPORT),
            _ => None,
        }
    }

    /// The code that a STUN error response carries for this error.
    pub fn stun_code(&self) -> (code: Option<u16>)
        ensures
            code == self.spec_stun_code(),
    {
        match self {
            Error::Unauthorized => Some(CODE_UNAUTHORIZED),
            Error::NoSuchAllocation => Some(CODE_ALLOCATION_MISMATCH),
            Error::AllocationExists => Some(CODE_ALLOCATION_MISMATCH),
            Error::ChannelAlreadyBound => Some(CODE_BAD_REQUEST),
            Error::BadRequest => Some(CODE_BAD_REQUEST),
            Error::UnsupportedTransport => Some(CODE_UNSUPPORTED_TRANSPORT),
            _ => None,
        }
    }

    /// The text of this error.
    pub open spec fn spec_message(self) -> Seq<char> {
        match self {
            Error::ErrAllocateResponseIncludeNoErrorCodeAttribute =>
                "turn: AllocateResponse has not ATTR_ERROR_CODE"@,
            Error::ErrRequestTypeUnknown => "turn: RequestType is UNKNOWN"@,
            Error::ErrReceiverClosed => "turn: Receiver is closed"@,
            Error::ErrDuplicatedNonce => "turn: duplicated NONCE generated, discarding request"@,
            Error::Malformed => "turn: malformed message"@,
            Error::Unauthorized => "turn: unauthorized"@,
            Error::NoSuchAllocation => "turn: no such allocation"@,
            Error::AllocationExists => "turn: allocation exists"@,
            Error::ChannelAlreadyBound => "turn: channel already bound"@,
            Error::UnsupportedTransport => "turn: unsupported transport"@,
            Error::BadRequest => "turn: bad request"@,
            Error::MessageTooLong => "turn: message too long"@,
            Error::Timeout => "turn: all retransmissions failed"@,
            Error::TransportClosed => "turn: transport closed"@,
            Error::AuthenticationFailed => "turn: authentication failed"@,
            Error::Other(s) => s@,
        }
    }

    /// The text of this error.
    pub fn message(&self) -> (text: String)
        ensures
            text@ == self.spec_message(),
    {
        match self {
            Error::ErrAllocateResponseIncludeNoErrorCodeAttribute =>
                "turn: AllocateResponse has not ATTR_ERROR_CODE".to_owned(),
            Error::ErrRequestTypeUnknown => "turn: RequestType is UNKNOWN".to_owned(),
            Error::ErrReceiverClosed => "turn: Receiver is closed".to_owned(),
            Error::ErrDuplicatedNonce =>
                "turn: duplicated NONCE generated, discarding request".to_owned(),
            Error::Malformed => "turn: malformed message".to_owned(),
            Error::Unauthorized => "turn: unauthorized".to_owned(),
            Error::NoSuchAllocation => "turn: no such allocation".to_owned(),
            Error::AllocationExists => "turn: allocation exists".to_owned(),
            Error::ChannelAlreadyBound => "turn: channel already bound".to_owned(),
            Error::UnsupportedTransport => "turn: unsupported transport".to_owned(),
            Error::BadRequest => "turn: bad request".to_owned(),
            Error::MessageTooLong => "turn: message too long".to_owned(),
            Error::Timeout => "turn: all retransmissions failed".to_owned(),
            Error::TransportClosed => "turn: transport closed".to_owned(),
            Error::AuthenticationFailed => "turn: authentication failed".to_owned(),
            Error::Other(s) => s.clone(),
        }
    }
}

impl From<SystemTimeError> for Error {
    /// Wraps an error of the system clock, keeping its text. The text is
    /// std's own, and nothing is stated of it.
    fn from(e: SystemTimeError) -> (r: Error)
        ensures
            r is Other,
    {
        Error::Other(e.to_string())
    }
}

impl vstd::std_specs::convert::FromSpecImpl<SystemTimeError> for Error {
    /// The conversion keeps a text that only std knows, so its result is
    /// not given as a function of the error.
    open spec fn obeys_from_spec() -> bool {
        false
    }

    open spec fn from_spec(e: SystemTimeError) -> Error {
        Error::Other(arbitrary())
    }
}

} // verus!
