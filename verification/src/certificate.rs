//! Taking the public key out of a signer's certificate.
//!
//! The certificate comes as base64 text that holds a PEM block that holds an
//! X.509 certificate. Nothing here asks whether the certificate deserves
//! trust: the result is the key that it asserts.

use crate::error::CertificateError;
use ecdsa::VerifyingKey;
use p256::pkcs8::FromPublicKey;
use p256::NistP256;
use vstd::prelude::*;
use x509_parser::parse_x509_certificate;
use x509_parser::pem::parse_x509_pem;

verus! {

/// A P-256 public key, ready to verify signatures with: the bytes of the
/// curve point in uncompressed SEC1 form.
#[derive(Clone, Debug, PartialEq, Eq, Hash)]
pub struct CosignVerificationKey {
    pub point: Vec<u8>,
}

impl View for CosignVerificationKey {
    type V = Seq<u8>;

    open spec fn view(&self) -> Seq<u8> {
        self.point@
    }
}

impl DeepView for CosignVerificationKey {
    type V = Seq<u8>;

    open spec fn deep_view(&self) -> Seq<u8> {
        self.point@
    }
}

/// The bytes that `text` spells in standard base64, as the crate `base64`
/// decodes it; `None` where `text` is not base64.
pub uninterp spec fn base64_bytes(text: Seq<char>) -> Option<Seq<u8>>;

/// Decodes base64 text with `base64::decode`.
///
/// Believed of `base64`: the result depends on the characters of `text`
/// alone.
#[verifier::external_body]
pub(crate) fn decode_base64(text: &str) -> (r: Option<Vec<u8>>)
    ensures
        r matches Some(bytes) ==> base64_bytes(text@) == Some(bytes@),
        r is None ==> base64_bytes(text@) is None,
{
    base64::decode(text).ok()
}

/// The contents of the first PEM block in `bytes`, as `x509_parser` reads
/// it; `None` where `bytes` holds no complete PEM block.
pub uninterp spec fn pem_contents(bytes: Seq<u8>) -> Option<Seq<u8>>;

/// Reads the first PEM block with `x509_parser::pem::parse_x509_pem` and
/// hands out its contents.
///
/// Believed of `x509_parser`: the result depends on `bytes` alone.
#[verifier::external_body]
pub(crate) fn read_pem(bytes: &[u8]) -> (r: Option<Vec<u8>>)
    ensures
        r matches Some(contents) ==> pem_contents(bytes@) == Some(contents@),
        r is None ==> pem_contents(bytes@) is None,
{
    parse_x509_pem(bytes).ok().map(|(_, pem)| pem.contents)
}

/// The DER bytes of the SubjectPublicKeyInfo of the X.509 certificate that
/// `der` holds, as `x509_parser` reads it; `None` where `der` does not
/// start with a certificate.
pub uninterp spec fn x509_public_key_info(der: Seq<u8>) -> Option<Seq<u8>>;

/// Reads a certificate with `x509_parser::parse_x509_certificate` and hands
/// out the raw bytes of its public key information.
///
/// Believed of `x509_parser`: the result depends on `der` alone.
#[verifier::external_body]
pub(crate) fn read_public_key_info(der: &[u8]) -> (r: Option<Vec<u8>>)
    ensures
        r matches Some(info) ==> x509_public_key_info(der@) == Some(info@),
        r is None ==> x509_public_key_info(der@) is None,
{
    parse_x509_certificate(der).ok().map(|(_, certificate)| certificate.public_key().raw.to_vec())
}

/// The point of the P-256 key that the SubjectPublicKeyInfo `info` holds,
/// in uncompressed SEC1 form, as `ecdsa` and `p256` read it; `None` where
/// `info` holds no P-256 key.
pub uninterp spec fn p256_point(info: Seq<u8>) -> Option<Seq<u8>>;

/// Reads a P-256 verifying key with `from_public_key_der`, and spells its
/// point with `to_encoded_point`.
///
/// Believed of `ecdsa` and `p256`: the result depends on `info` alone.
#[verifier::external_body]
pub(crate) fn read_p256_point(info: &[u8]) -> (r: Option<Vec<u8>>)
    ensures
        r matches Some(point) ==> p256_point(info@) == Some(point@),
        r is None ==> p256_point(info@) is None,
{
    let key = VerifyingKey::<NistP256>::from_public_key_der(info).ok()?;
    Some(key.to_encoded_point(false).as_bytes().to_vec())
}

/// The key that the certificate `cert` asserts, or the step at which
/// reading it fails: the base64 text, the PEM block, the X.509 structure,
/// or the key itself.
pub open spec fn certificate_key(cert: Seq<char>) -> Result<Seq<u8>, CertificateError> {
    match base64_bytes(cert) {
        None => Err(CertificateError::Base64),
        Some(pem) => match pem_contents(pem) {
            None => Err(CertificateError::Pem),
            Some(der) => match x509_public_key_info(der) {
                None => Err(CertificateError::X509),
                Some(info) => match p256_point(info) {
                    None => Err(CertificateError::PublicKey),
                    Some(point) => Ok(point),
                },
            },
        },
    }
}

/// Takes the public key out of the certificate `cert`.
pub fn extract_key(cert: &str) -> (r: Result<CosignVerificationKey, CertificateError>)
    ensures
        match r {
            Ok(key) => certificate_key(cert@) == Ok::<Seq<u8>, CertificateError>(key@),
            Err(e) => certificate_key(cert@) == Err::<Seq<u8>, CertificateError>(e),
        },
{
    let pem = match decode_base64(cert) {
        Some(bytes) => bytes,
        None => return Err(CertificateError::Base64),
    };
    let der = match read_pem(pem.as_slice()) {
        Some(bytes) => bytes,
        None => return Err(CertificateError::Pem),
    };
    let info = match read_public_key_info(der.as_slice()) {
        Some(bytes) => bytes,
        None => return Err(CertificateError::X509),
    };
    match read_p256_point(info.as_slice()) {
        Some(point) => Ok(CosignVerificationKey { point }),
        None => Err(CertificateError::PublicKey),
    }
}

} // verus!
