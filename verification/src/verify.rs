//! Checking an ECDSA signature over P-256.

use crate::certificate::{base64_bytes, decode_base64, CosignVerificationKey};
use crate::error::VerificationError;
use ecdsa::signature::Verifier;
use ecdsa::{Signature, VerifyingKey};
use p256::NistP256;
use std::convert::TryFrom;
use vstd::prelude::*;

verus! {

/// The ECDSA signature that the ASN.1 DER bytes `der` hold, as its two
/// scalars `r` and `s` one after the other, as `ecdsa` reads it; `None`
/// where `der` holds no P-256 signature.
pub uninterp spec fn p256_signature(der: Seq<u8>) -> Option<Seq<u8>>;

/// Reads a signature with `ecdsa::Signature::from_der`, and hands out its
/// bytes.
///
/// Believed of `ecdsa`: the result depends on `der` alone.
#[verifier::external_body]
pub(crate) fn read_signature(der: &[u8]) -> (r: Option<Vec<u8>>)
    ensures
        r matches Some(scalars) ==> p256_signature(der@) == Some(scalars@),
        r is None ==> p256_signature(der@) is None,
{
    Signature::<NistP256>::from_der(der).ok().map(|signature| signature.as_ref().to_vec())
}

/// Whether the key with the SEC1 point `point` accepts the signature with
/// the scalars `scalars` for the message `message`, as `ecdsa` decides it
/// with SHA-256 as the digest. A `point` that is no key, and `scalars` that
/// are no signature, are not accepted.
pub uninterp spec fn p256_accepts(point: Seq<u8>, message: Seq<u8>, scalars: Seq<u8>) -> bool;

/// Checks a signature with `ecdsa::signature::Verifier::verify`, on the key
/// that `from_sec1_bytes` reads from `point` and the signature that
/// `try_from` reads from `scalars`.
///
/// Believed of `ecdsa` and `p256`: the result depends on the three
/// arguments alone.
#[verifier::external_body]
pub(crate) fn check_signature(point: &[u8], message: &[u8], scalars: &[u8]) -> (r: bool)
    ensures
        r == p256_accepts(point@, message@, scalars@),
{
    let key = VerifyingKey::<NistP256>::from_sec1_bytes(point);
    let signature = Signature::<NistP256>::try_from(scalars);
    match (key, signature) {
        (Ok(key), Ok(signature)) => key.verify(message, &signature).is_ok(),
        _ => false,
    }
}

/// Whether `key` accepts the base64 text `sig` as a signature of `message`:
/// `sig` spells the DER form of a signature, and the key accepts that
/// signature.
pub open spec fn signature_accepted(key: Seq<u8>, sig: Seq<char>, message: Seq<u8>) -> bool {
    match base64_bytes(sig) {
        None => false,
        Some(der) => match p256_signature(der) {
            None => false,
            Some(scalars) => p256_accepts(key, message, scalars),
        },
    }
}

/// Checks that `key` made the signature `sig` over `message`. Every failure
/// looks the same.
pub fn verify(key: &CosignVerificationKey, sig: &str, message: &[u8]) -> (r: Result<
    (),
    VerificationError,
>)
    ensures
        r is Ok <==> signature_accepted(key@, sig@, message@),
{
    let der = match decode_base64(sig) {
        Some(bytes) => bytes,
        None => return Err(VerificationError),
    };
    let scalars = match read_signature(der.as_slice()) {
        Some(bytes) => bytes,
        None => return Err(VerificationError),
    };
    if check_signature(key.point.as_slice(), message, scalars.as_slice()) {
        Ok(())
    } else {
        Err(VerificationError)
    }
}

} // verus!
