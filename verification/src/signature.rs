//! One signature over a policy, with the certificate of the key that made
//! it.

use crate::certificate::{certificate_key, extract_key, CosignVerificationKey};
use crate::decode::FromJson;
use crate::error::{CertificateError, Field, ParseError, VerificationError};
use crate::json::{json_object, modelled, read_object, read_text_member, text_member};
use crate::verify::{signature_accepted, verify};
use vstd::prelude::*;

verus! {

/// A signature, the id of the key that made it, and that key's
/// certificate.
#[derive(Clone, Debug, PartialEq, Eq, Hash)]
pub struct Signature {
    /// The id of the key that made the signature, in hex.
    pub keyid: String,
    /// The signature over the bytes of the signed body, in base64.
    pub sig: String,
    /// The certificate that was used to make the signature, in base64.
    pub cert: String,
}

/// The model of a [`Signature`].
pub struct SignatureModel {
    pub keyid: Seq<char>,
    pub sig: Seq<char>,
    pub cert: Seq<char>,
}

impl DeepView for Signature {
    type V = SignatureModel;

    open spec fn deep_view(&self) -> SignatureModel {
        SignatureModel { keyid: self.keyid@, sig: self.sig@, cert: self.cert@ }
    }
}

impl View for Signature {
    type V = SignatureModel;

    open spec fn view(&self) -> SignatureModel {
        self.deep_view()
    }
}

impl Signature {
    /// What the members of a signature entry decode to.
    pub open spec fn of_members(members: Seq<(Seq<char>, Seq<u8>)>) -> Result<
        SignatureModel,
        ParseError,
    > {
        match text_member(members, "keyid"@, Field::KeyId) {
            Err(e) => Err(e),
            Ok(keyid) => match text_member(members, "sig"@, Field::Sig) {
                Err(e) => Err(e),
                Ok(sig) => match text_member(members, "cert"@, Field::Cert) {
                    Err(e) => Err(e),
                    Ok(cert) => Ok(SignatureModel { keyid, sig, cert }),
                },
            },
        }
    }

    /// Decodes the members of a signature entry.
    pub fn from_members(members: &Vec<(String, Vec<u8>)>) -> (r: Result<Signature, ParseError>)
        ensures
            modelled(r) == Self::of_members(members.deep_view()),
    {
        let keyid = read_text_member(members, "keyid", Field::KeyId)?;
        let sig = read_text_member(members, "sig", Field::Sig)?;
        let cert = read_text_member(members, "cert", Field::Cert)?;
        Ok(Signature { keyid, sig, cert })
    }

    /// Takes the public key out of the entry's certificate.
    pub fn extract_pub_key(&self) -> (r: Result<CosignVerificationKey, CertificateError>)
        ensures
            match r {
                Ok(key) => certificate_key(self@.cert) == Ok::<Seq<u8>, CertificateError>(key@),
                Err(e) => certificate_key(self@.cert) == Err::<Seq<u8>, CertificateError>(e),
            },
    {
        extract_key(self.cert.as_str())
    }

    /// Checks that `verification_key` made the entry's signature over
    /// `msg`.
    pub fn verify_signature(&self, verification_key: &CosignVerificationKey, msg: &[u8]) -> (r:
        Result<(), VerificationError>)
        ensures
            r is Ok <==> signature_accepted(verification_key@, self@.sig, msg@),
    {
        verify(verification_key, self.sig.as_str(), msg)
    }
}

impl FromJson for Signature {
    /// What the bytes of a signature entry's JSON object decode to.
    open spec fn of_json(doc: Seq<u8>) -> Result<SignatureModel, ParseError> {
        match json_object(doc) {
            None => Err(ParseError::Invalid(Field::Signature)),
            Some(members) => Signature::of_members(members),
        }
    }

    fn decode(doc: &[u8]) -> (r: Result<Signature, ParseError>) {
        match read_object(doc) {
            None => Err(ParseError::Invalid(Field::Signature)),
            Some(members) => Signature::from_members(&members),
        }
    }
}

} // verus!
