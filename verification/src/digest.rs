//! The digests that the protocol rests on, and the source of randomness. None
//! of them is computed here: each function below hands its arguments to the
//! crate that implements it, and its contract is taken on trust.

use vstd::prelude::*;
use hmac::{Hmac, Mac};
use md5::{Digest, Md5};
use sha1::Sha1;

verus! {

/// Bytes of an MD5 digest.
pub const MD5_LEN: usize = 16;

/// Bytes of an HMAC-SHA1 tag.
pub const HMAC_SHA1_LEN: usize = 20;

/// The MD5 digest of `data`.
pub uninterp spec fn md5_digest(data: Seq<u8>) -> Seq<u8>;

/// The HMAC-SHA1 tag of `data` under `key`.
pub uninterp spec fn hmac_sha1_digest(key: Seq<u8>, data: Seq<u8>) -> Seq<u8>;

/// The STUN fingerprint of `data`: its CRC-32 XORed with `0x5354554e`.
pub uninterp spec fn fingerprint_of(data: Seq<u8>) -> u32;

/// Calls `Md5::digest` of the md-5 crate. Taken on trust: the result is the
/// MD5 digest of `data`, a function of `data` alone, and has 16 bytes.
#[verifier::external_body]
pub(crate) fn md5_sum(data: &[u8]) -> (digest: Vec<u8>)
    ensures
        digest@ == md5_digest(data@),
        digest@.len() == MD5_LEN,
{
    Md5::digest(data).to_vec()
}

/// Calls `Hmac::<Sha1>` of the hmac and sha1 crates: `new_from_slice`,
/// `update`, `finalize`. Taken on trust: the result is the HMAC-SHA1 tag of
/// `data` under `key`, a function of the two alone, and has 20 bytes. The
/// crate accepts a key of any length.
#[verifier::external_body]
pub(crate) fn hmac_sha1(key: &[u8], data: &[u8]) -> (tag: Vec<u8>)
    ensures
        tag@ == hmac_sha1_digest(key@, data@),
        tag@.len() == HMAC_SHA1_LEN,
{
    let mut mac = Hmac::<Sha1>::new_from_slice(key).expect("HMAC takes a key of any size");
    mac.update(data);
    mac.finalize().into_bytes().to_vec()
}

/// Calls `fingerprint_value` of the stun crate. Taken on trust: the result is
/// a function of `data` alone (the CRC-32 of `data` XORed with a constant).
#[verifier::external_body]
pub(crate) fn fingerprint_value(data: &[u8]) -> (value: u32)
    ensures
        value == fingerprint_of(data@),
{
    stun::fingerprint::fingerprint_value(data)
}

/// Calls `rand::random`. Nothing is claimed of the result.
#[verifier::external_body]
pub(crate) fn random_u64() -> u64 {
    rand::random::<u64>()
}

} // verus!
