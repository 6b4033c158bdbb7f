use std::time::{Duration, SystemTime};
use turn::error::Error;

#[test]
fn errors_have_their_texts() {
    assert_eq!(
        Error::ErrAllocateResponseIncludeNoErrorCodeAttribute.message(),
        "turn: AllocateResponse has not ATTR_ERROR_CODE"
    );
    assert_eq!(Error::ErrRequestTypeUnknown.message(), "turn: RequestType is UNKNOWN");
    assert_eq!(Error::ErrReceiverClosed.message(), "turn: Receiver is closed");
    assert_eq!(
        Error::ErrDuplicatedNonce.message(),
        "turn: duplicated NONCE generated, discarding request"
    );
    assert_eq!(Error::Other("disk on fire".to_owned()).message(), "disk on fire");
    assert_eq!(Error::Timeout.message(), "turn: all retransmissions failed");
    assert_eq!(Error::Malformed.message(), "turn: malformed message");
}

#[test]
fn errors_have_their_codes() {
    assert_eq!(Error::Unauthorized.stun_code(), Some(401));
    assert_eq!(Error::NoSuchAllocation.stun_code(), Some(437));
    assert_eq!(Error::AllocationExists.stun_code(), Some(437));
    assert_eq!(Error::UnsupportedTransport.stun_code(), Some(442));
    assert_eq!(Error::ChannelAlreadyBound.stun_code(), Some(400));
    assert_eq!(Error::BadRequest.stun_code(), Some(400));
    assert_eq!(Error::Malformed.stun_code(), None);
    assert_eq!(Error::ErrDuplicatedNonce.stun_code(), None);
    assert_eq!(Error::Timeout.stun_code(), None);
    assert_eq!(Error::TransportClosed.stun_code(), None);
    assert_eq!(Error::Other("x".to_owned()).stun_code(), None);
}

#[test]
fn clock_errors_are_wrapped_with_their_text() {
    let later = SystemTime::now() + Duration::from_secs(60);
    let e = SystemTime::now().duration_since(later).unwrap_err();
    let text = e.to_string();
    assert_eq!(Error::from(e), Error::Other(text));
}
