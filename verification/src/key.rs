//! The keys that a policy names.

use crate::decode::FromJson;
use crate::error::{Field, ParseError};
use crate::json::{
    json_object, modelled, object_member, read_object, read_object_member, read_text_member,
    text_member,
};
use crate::text::same_text;
use vstd::prelude::*;
use vstd::string::StringExecFns;

verus! {

/// The identity that a sigstore OIDC key stands for.
#[derive(Clone, Debug, PartialEq, Eq, Hash)]
pub struct SigstoreOidcKey {
    /// The identity (subject).
    pub identity: String,
    /// The issuer.
    pub issuer: String,
}

/// The model of a [`SigstoreOidcKey`].
pub struct SigstoreOidcKeyModel {
    pub identity: Seq<char>,
    pub issuer: Seq<char>,
}

impl DeepView for SigstoreOidcKey {
    type V = SigstoreOidcKeyModel;

    open spec fn deep_view(&self) -> SigstoreOidcKeyModel {
        SigstoreOidcKeyModel { identity: self.identity@, issuer: self.issuer@ }
    }
}

impl View for SigstoreOidcKey {
    type V = SigstoreOidcKeyModel;

    open spec fn view(&self) -> SigstoreOidcKeyModel {
        self.deep_view()
    }
}

impl SigstoreOidcKey {
    /// What the members of a `keyval` object decode to.
    pub open spec fn of_members(members: Seq<(Seq<char>, Seq<u8>)>) -> Result<
        SigstoreOidcKeyModel,
        ParseError,
    > {
        match text_member(members, "identity"@, Field::Identity) {
            Err(e) => Err(e),
            Ok(identity) => match text_member(members, "issuer"@, Field::Issuer) {
                Err(e) => Err(e),
                Ok(issuer) => Ok(SigstoreOidcKeyModel { identity, issuer }),
            },
        }
    }

    /// Decodes the members of a `keyval` object.
    pub fn from_members(members: &Vec<(String, Vec<u8>)>) -> (r: Result<SigstoreOidcKey, ParseError>)
        ensures
            modelled(r) == Self::of_members(members.deep_view()),
    {
        let identity = read_text_member(members, "identity", Field::Identity)?;
        let issuer = read_text_member(members, "issuer", Field::Issuer)?;
        Ok(SigstoreOidcKey { identity, issuer })
    }
}

/// A key, in one of the known kinds. The member `keytype` of its JSON form
/// says which.
#[derive(Clone, Debug, PartialEq, Eq, Hash)]
pub enum Key {
    /// A sigstore OIDC key.
    SigstoreOidc {
        /// The identity that the key stands for.
        keyval: SigstoreOidcKey,
        /// The key's scheme.
        scheme: String,
    },
}

/// The model of a [`Key`].
pub enum KeyModel {
    SigstoreOidc { keyval: SigstoreOidcKeyModel, scheme: Seq<char> },
}

impl KeyModel {
    /// The `keytype` under which a key of this kind stands in a document.
    pub open spec fn keytype(self) -> Seq<char> {
        match self {
            KeyModel::SigstoreOidc { .. } => "sigstore-oidc"@,
        }
    }
}

impl DeepView for Key {
    type V = KeyModel;

    open spec fn deep_view(&self) -> KeyModel {
        match self {
            Key::SigstoreOidc { keyval, scheme } => KeyModel::SigstoreOidc {
                keyval: keyval.deep_view(),
                scheme: scheme@,
            },
        }
    }
}

impl View for Key {
    type V = KeyModel;

    open spec fn view(&self) -> KeyModel {
        self.deep_view()
    }
}

impl Key {
    /// What the members of a key's object decode to. A `keytype` other than
    /// a known one is an error of its own.
    pub open spec fn of_members(members: Seq<(Seq<char>, Seq<u8>)>) -> Result<KeyModel, ParseError> {
        match text_member(members, "keytype"@, Field::KeyType) {
            Err(e) => Err(e),
            Ok(keytype) => if keytype == "sigstore-oidc"@ {
                match object_member(members, "keyval"@, Field::KeyVal) {
                    Err(e) => Err(e),
                    Ok(inner) => match SigstoreOidcKey::of_members(inner) {
                        Err(e) => Err(e),
                        Ok(keyval) => match text_member(members, "scheme"@, Field::Scheme) {
                            Err(e) => Err(e),
                            Ok(scheme) => Ok(KeyModel::SigstoreOidc { keyval, scheme }),
                        },
                    },
                }
            } else {
                Err(ParseError::UnknownKeyType)
            },
        }
    }

    /// Decodes the members of a key's object.
    pub fn from_members(members: &Vec<(String, Vec<u8>)>) -> (r: Result<Key, ParseError>)
        ensures
            modelled(r) == Self::of_members(members.deep_view()),
    {
        let keytype = read_text_member(members, "keytype", Field::KeyType)?;
        if same_text(keytype.as_str(), "sigstore-oidc") {
            let inner = read_object_member(members, "keyval", Field::KeyVal)?;
            let keyval = SigstoreOidcKey::from_members(&inner)?;
            let scheme = read_text_member(members, "scheme", Field::Scheme)?;
            Ok(Key::SigstoreOidc { keyval, scheme })
        } else {
            Err(ParseError::UnknownKeyType)
        }
    }

    /// The `keytype` under which the key stands in a document.
    pub fn keytype(&self) -> (r: String)
        ensures
            r@ == self@.keytype(),
    {
        match self {
            Key::SigstoreOidc { .. } => String::from_str("sigstore-oidc"),
        }
    }

    /// A key decodes only under a known `keytype`, and then is of the kind
    /// that stands under that very `keytype`.
    pub proof fn lemma_keytype_round_trip(members: Seq<(Seq<char>, Seq<u8>)>)
        ensures
            Key::of_members(members) matches Ok(key) ==> text_member(
                members,
                "keytype"@,
                Field::KeyType,
            ) == Ok::<Seq<char>, ParseError>(key.keytype()),
            text_member(members, "keytype"@, Field::KeyType) matches Ok(keytype) ==> (keytype
                != "sigstore-oidc"@ ==> Key::of_members(members) == Err::<KeyModel, ParseError>(
                ParseError::UnknownKeyType,
            )),
    {
    }
}

impl FromJson for Key {
    /// What the bytes of a key's JSON object decode to.
    open spec fn of_json(doc: Seq<u8>) -> Result<KeyModel, ParseError> {
        match json_object(doc) {
            None => Err(ParseError::Invalid(Field::Key)),
            Some(members) => Key::of_members(members),
        }
    }

    fn decode(doc: &[u8]) -> (r: Result<Key, ParseError>) {
        match read_object(doc) {
            None => Err(ParseError::Invalid(Field::Key)),
            Some(members) => Key::from_members(&members),
        }
    }
}

} // verus!
