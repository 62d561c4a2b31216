//! A signed policy document: its signatures and its signed body, as bytes
//! and as values.

use crate::certificate::{certificate_key, CosignVerificationKey};
use crate::decode::{decode_each, each_of, FromJson};
use crate::entries::lookup;
use crate::error::{CertificateError, Field, ParseError, VerificationError};
use crate::json::{
    array_member, is_span_of, json_object, member, modelled, read_array_member, read_object,
};
use crate::signature::{Signature, SignatureModel};
use crate::signed::{Signed, SignedModel};
use crate::time::{Duration, Timestamp};
use crate::verify::signature_accepted;
use vstd::prelude::*;

verus! {

/// The two halves of a policy document as they stand in it, byte for byte.
/// The signatures were made over the bytes of `signed`.
#[derive(Clone, Debug, PartialEq, Eq, Hash)]
pub struct RawPolicy {
    /// The bytes of the member `signatures`.
    pub signatures: Vec<u8>,
    /// The bytes of the member `signed`.
    pub signed: Vec<u8>,
}

/// The model of a [`RawPolicy`].
pub struct RawPolicyModel {
    pub signatures: Seq<u8>,
    pub signed: Seq<u8>,
}

impl DeepView for RawPolicy {
    type V = RawPolicyModel;

    open spec fn deep_view(&self) -> RawPolicyModel {
        RawPolicyModel { signatures: self.signatures@, signed: self.signed@ }
    }
}

impl View for RawPolicy {
    type V = RawPolicyModel;

    open spec fn view(&self) -> RawPolicyModel {
        self.deep_view()
    }
}

impl RawPolicy {
    /// The two halves of the document `doc`.
    pub open spec fn of_document(doc: Seq<u8>) -> Result<RawPolicyModel, ParseError> {
        match json_object(doc) {
            None => Err(ParseError::Invalid(Field::Document)),
            Some(members) => match lookup(members, "signatures"@) {
                None => Err(ParseError::Missing(Field::Signatures)),
                Some(signatures) => match lookup(members, "signed"@) {
                    None => Err(ParseError::Missing(Field::Signed)),
                    Some(signed) => Ok(RawPolicyModel { signatures, signed }),
                },
            },
        }
    }

    /// Splits the document `doc` into its two halves. Each half is a run of
    /// bytes of `doc`, unchanged: nothing is encoded anew.
    pub fn split(doc: &[u8]) -> (r: Result<RawPolicy, ParseError>)
        ensures
            modelled(r) == Self::of_document(doc@),
            r matches Ok(raw) ==> is_span_of(raw.signatures@, doc@) && is_span_of(
                raw.signed@,
                doc@,
            ),
    {
        let members = match read_object(doc) {
            Some(members) => members,
            None => return Err(ParseError::Invalid(Field::Document)),
        };
        let signatures = match member(&members, "signatures") {
            Some(bytes) => bytes.clone(),
            None => return Err(ParseError::Missing(Field::Signatures)),
        };
        let signed = match member(&members, "signed") {
            Some(bytes) => bytes.clone(),
            None => return Err(ParseError::Missing(Field::Signed)),
        };
        Ok(RawPolicy { signatures, signed })
    }
}

/// A signed root policy.
#[derive(Clone, Debug, PartialEq, Eq, Hash)]
pub struct Policy {
    /// The signatures over the signed body.
    pub signatures: Vec<Signature>,
    /// The root policy that is signed.
    pub signed: Signed,
}

/// The model of a [`Policy`].
pub struct PolicyModel {
    pub signatures: Seq<SignatureModel>,
    pub signed: SignedModel,
}

impl DeepView for Policy {
    type V = PolicyModel;

    open spec fn deep_view(&self) -> PolicyModel {
        PolicyModel { signatures: self.signatures.deep_view(), signed: self.signed.deep_view() }
    }
}

impl View for Policy {
    type V = PolicyModel;

    open spec fn view(&self) -> PolicyModel {
        self.deep_view()
    }
}

impl PolicyModel {
    /// The key that the certificate of the first signature asserts, or why
    /// there is none; without a signature there is no certificate.
    pub open spec fn first_key(self) -> Result<Seq<u8>, CertificateError> {
        if self.signatures.len() == 0 {
            Err(CertificateError::Missing)
        } else {
            certificate_key(self.signatures[0].cert)
        }
    }

    /// Whether there is a first signature, and `key` accepts it for
    /// `message`.
    pub open spec fn first_accepted(self, key: Seq<u8>, message: Seq<u8>) -> bool {
        self.signatures.len() > 0 && signature_accepted(key, self.signatures[0].sig, message)
    }
}

impl Policy {
    /// What the document `doc` decodes to. The signed body is decoded from
    /// the very bytes that [`RawPolicy::of_document`] hands out as `signed`.
    pub open spec fn of_document(doc: Seq<u8>) -> Result<PolicyModel, ParseError> {
        match json_object(doc) {
            None => Err(ParseError::Invalid(Field::Document)),
            Some(members) => match array_member(members, "signatures"@, Field::Signatures) {
                Err(e) => Err(e),
                Ok(items) => match each_of::<Signature>(items) {
                    Err(e) => Err(e),
                    Ok(signatures) => match lookup(members, "signed"@) {
                        None => Err(ParseError::Missing(Field::Signed)),
                        Some(raw) => match Signed::of_json(raw) {
                            Err(e) => Err(e),
                            Ok(signed) => Ok(PolicyModel { signatures, signed }),
                        },
                    },
                },
            },
        }
    }

    /// Decodes the document `doc`.
    pub fn decode(doc: &[u8]) -> (r: Result<Policy, ParseError>)
        ensures
            modelled(r) == Self::of_document(doc@),
            r matches Ok(policy) ==> policy.signed.wf(),
    {
        let members = match read_object(doc) {
            Some(members) => members,
            None => return Err(ParseError::Invalid(Field::Document)),
        };
        let items = read_array_member(&members, "signatures", Field::Signatures)?;
        let signatures = decode_each::<Signature>(&items)?;
        let signed = match member(&members, "signed") {
            Some(raw) => match read_object(raw.as_slice()) {
                Some(inner) => Signed::from_members(&inner)?,
                None => return Err(ParseError::Invalid(Field::Signed)),
            },
            None => return Err(ParseError::Missing(Field::Signed)),
        };
        Ok(Policy { signatures, signed })
    }

    /// Whatever decodes as a policy has a version of at least one, and
    /// roles with thresholds of at least one.
    pub proof fn lemma_decoded_is_wf(doc: Seq<u8>)
        ensures
            Policy::of_document(doc) matches Ok(policy) ==> policy.signed.wf(),
    {
        if let Ok(policy) = Policy::of_document(doc) {
            let raw = lookup(json_object(doc)->0, "signed"@)->0;
            Signed::lemma_decoded_is_wf(json_object(raw)->0);
        }
    }

    /// A document that decodes splits, and its signed body is what the
    /// bytes of its `signed` half decode to.
    pub proof fn lemma_signed_is_decoded_from_its_bytes(doc: Seq<u8>)
        ensures
            Policy::of_document(doc) matches Ok(policy) ==> (RawPolicy::of_document(doc) matches Ok(
                raw,
            ) && Signed::of_json(raw.signed) == Ok::<SignedModel, ParseError>(policy.signed)),
    {
    }

    /// The time that is left at `now` until the policy expires, as
    /// `chrono` gives the span from `now` to `expires`.
    pub fn validate_expires(&self, now: &Timestamp) -> (left: Duration)
        ensures
            left@ == self@.signed.expires.span_since(*now),
    {
        self.signed.expires.since(now)
    }

    /// The time left is not negative exactly when `expires` comes after
    /// `now`, but for the inputs named by
    /// [`Timestamp::span_parts_from_order`]: `now` is the very instant of
    /// expiry, where the time left is zero and the policy has expired; or a
    /// leap second at the end of a day lies between the two.
    pub proof fn lemma_time_left(policy: PolicyModel, now: Timestamp)
        requires
            policy.signed.expires.wf(),
            now.wf(),
            !policy.signed.expires.span_parts_from_order(now),
        ensures
            policy.signed.expires.span_since(now) >= 0 <==> now.is_before(policy.signed.expires),
    {
        policy.signed.expires.lemma_span_sign(now);
    }

    /// Takes the public key out of the certificate of the first signature.
    /// Without a signature there is no certificate, which is an error of
    /// its own.
    ///
    /// This looks at one entry only and is no trust decision: that is
    /// [`Policy::evaluate`], which looks at every signature.
    pub fn extract_pub_key(&self) -> (r: Result<CosignVerificationKey, CertificateError>)
        ensures
            match r {
                Ok(key) => self@.first_key() == Ok::<Seq<u8>, CertificateError>(key@),
                Err(e) => self@.first_key() == Err::<Seq<u8>, CertificateError>(e),
            },
    {
        if self.signatures.len() == 0 {
            return Err(CertificateError::Missing);
        }
        self.signatures[0].extract_pub_key()
    }

    /// Checks that `verification_key` made the first signature over `msg`.
    /// Without a signature nothing is accepted.
    ///
    /// This looks at one entry only and is no trust decision: that is
    /// [`Policy::evaluate`], which looks at every signature.
    pub fn verify_signature(&self, verification_key: &CosignVerificationKey, msg: &[u8]) -> (r:
        Result<(), VerificationError>)
        ensures
            r is Ok <==> self@.first_accepted(verification_key@, msg@),
    {
        if self.signatures.len() == 0 {
            return Err(VerificationError);
        }
        self.signatures[0].verify_signature(verification_key, msg)
    }
}

} // verus!
