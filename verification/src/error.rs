//! The failures a policy document can meet, each as a plain value.

use vstd::prelude::*;

verus! {

/// A place in a policy document, named in a [`ParseError`].
#[derive(Clone, Copy, Debug, PartialEq, Eq, Structural, Hash)]
pub enum Field {
    /// The document as a whole.
    Document,
    /// The member `signatures` of the document.
    Signatures,
    /// One entry of `signatures`.
    Signature,
    /// The member `keyid` of a signature entry.
    KeyId,
    /// The member `sig` of a signature entry.
    Sig,
    /// The member `cert` of a signature entry.
    Cert,
    /// The member `signed` of the document.
    Signed,
    /// The member `consistent_snapshot` of the signed body.
    ConsistentSnapshot,
    /// The member `expires` of the signed body.
    Expires,
    /// The member `keys` of the signed body.
    Keys,
    /// One entry of `keys`.
    Key,
    /// The member `keytype` of a key.
    KeyType,
    /// The member `keyval` of a key.
    KeyVal,
    /// The member `identity` of a key value.
    Identity,
    /// The member `issuer` of a key value.
    Issuer,
    /// The member `scheme` of a key.
    Scheme,
    /// The member `namespace` of the signed body.
    Namespace,
    /// The member `roles` of the signed body.
    Roles,
    /// One entry of `roles`.
    Role,
    /// The member `keyids` of a role.
    KeyIds,
    /// The member `threshold` of a role.
    Threshold,
    /// The member `spec_version` of the signed body.
    SpecVersion,
    /// The member `version` of the signed body.
    Version,
}

/// Why a document could not be decoded.
#[derive(Clone, Copy, Debug, PartialEq, Eq, Structural, Hash)]
pub enum ParseError {
    /// A required member is absent.
    Missing(Field),
    /// A member is present but is not JSON of the expected kind, or holds a
    /// value that the data model excludes (a zero `version` or `threshold`,
    /// an `expires` that is no instant).
    Invalid(Field),
    /// A role name other than the known ones.
    UnknownRoleType,
    /// A `keytype` other than the known ones.
    UnknownKeyType,
}

/// Why no public key could be taken from a certificate.
#[derive(Clone, Copy, Debug, PartialEq, Eq, Structural, Hash)]
pub enum CertificateError {
    /// The `cert` text is not base64.
    Base64,
    /// The decoded bytes hold no PEM block.
    Pem,
    /// The PEM block holds no X.509 certificate.
    X509,
    /// The certificate's public key is not a P-256 key.
    PublicKey,
    /// There is no signature entry, and so no certificate to read.
    Missing,
}

/// A signature was not accepted. The value says nothing of the reason: a
/// `sig` that does not decode and one that does not match look the same.
#[derive(Clone, Copy, Debug, PartialEq, Eq, Structural, Hash)]
pub struct VerificationError;

/// Every way in which a policy document fails to be trusted.
#[derive(Clone, Copy, Debug, PartialEq, Eq, Structural, Hash)]
pub enum PolicyError {
    /// The document could not be decoded.
    Parse(ParseError),
    /// A signature entry's certificate yields no key.
    Certificate(CertificateError),
    /// A signature was not accepted.
    Verification,
    /// The current time is not before `expires`.
    Expired,
    /// Fewer distinct listed keys than the role's threshold signed the
    /// document.
    Threshold,
}

} // verus!
