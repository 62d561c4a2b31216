//! The signed body of a policy: which keys hold which roles, and until
//! when.

use crate::count::NonZeroU64;
use crate::decode::{decode_entries, entries_of, FromJson};
use crate::entries::{
    as_map, distinct_names, find, lemma_lookup_absent, lemma_lookup_first, lemma_lookup_is_entry,
    lookup,
};
use crate::error::{Field, ParseError};
use crate::json::{
    bool_member, count_member, json_object, json_u64, modelled, object_member, read_bool_member,
    read_count_member, read_object, read_object_member, read_text_member, text_member,
};
use crate::key::{Key, KeyModel};
use crate::role::{RoleKeys, RoleKeysModel};
use crate::time::{instant_member, read_instant_member, Timestamp};
use vstd::prelude::*;

verus! {

/// The root policy: the keys that are trusted, and the roles they hold.
#[derive(Clone, Debug, PartialEq, Eq, Hash)]
pub struct Signed {
    pub consistent_snapshot: bool,
    /// The instant from which the policy no longer holds.
    pub expires: Timestamp,
    /// The keys, each under its id. A decoded body holds each id once;
    /// where an id occurs twice the first entry counts.
    pub keys: Vec<(String, Key)>,
    pub namespace: String,
    /// The roles, each under its name. A decoded body holds each name
    /// once; where a name occurs twice the first entry counts.
    pub roles: Vec<(String, RoleKeys)>,
    pub spec_version: String,
    /// The policy's version; at least one.
    pub version: NonZeroU64,
}

/// The model of a [`Signed`].
pub struct SignedModel {
    pub consistent_snapshot: bool,
    pub expires: Timestamp,
    pub keys: Map<Seq<char>, KeyModel>,
    pub namespace: Seq<char>,
    pub roles: Map<Seq<char>, RoleKeysModel>,
    pub spec_version: Seq<char>,
    pub version: nat,
}

impl SignedModel {
    /// The version is at least one, and so is the threshold of every role.
    pub open spec fn wf(self) -> bool {
        &&& self.version >= 1
        &&& forall|name: Seq<char>| self.roles.contains_key(name) ==> (#[trigger] self.roles[name]).wf()
    }
}

impl DeepView for Signed {
    type V = SignedModel;

    open spec fn deep_view(&self) -> SignedModel {
        SignedModel {
            consistent_snapshot: self.consistent_snapshot,
            expires: self.expires,
            keys: as_map(self.keys.deep_view()),
            namespace: self.namespace@,
            roles: as_map(self.roles.deep_view()),
            spec_version: self.spec_version@,
            version: self.version@ as nat,
        }
    }
}

impl View for Signed {
    type V = SignedModel;

    open spec fn view(&self) -> SignedModel {
        self.deep_view()
    }
}

impl Signed {
    /// What holds of every signed body that was decoded: the version and
    /// every threshold are at least one, `expires` is an instant, and no
    /// key id and no role name occurs twice.
    pub open spec fn wf(&self) -> bool {
        &&& self@.wf()
        &&& self.expires.wf()
        &&& distinct_names(self.keys.deep_view())
        &&& distinct_names(self.roles.deep_view())
    }

    /// What the members of a signed body decode to. A `version` of zero is
    /// an error, as is a role with a `threshold` of zero and a key of an
    /// unknown `keytype`.
    pub open spec fn of_members(members: Seq<(Seq<char>, Seq<u8>)>) -> Result<SignedModel, ParseError> {
        match bool_member(members, "consistent_snapshot"@, Field::ConsistentSnapshot) {
            Err(e) => Err(e),
            Ok(consistent_snapshot) => match instant_member(members, "expires"@, Field::Expires) {
                Err(e) => Err(e),
                Ok(expires) => match object_member(members, "keys"@, Field::Keys) {
                    Err(e) => Err(e),
                    Ok(raw_keys) => match entries_of::<Key>(raw_keys) {
                        Err(e) => Err(e),
                        Ok(keys) => match text_member(members, "namespace"@, Field::Namespace) {
                            Err(e) => Err(e),
                            Ok(namespace) => match object_member(members, "roles"@, Field::Roles) {
                                Err(e) => Err(e),
                                Ok(raw_roles) => match entries_of::<RoleKeys>(raw_roles) {
                                    Err(e) => Err(e),
                                    Ok(roles) => match text_member(
                                        members,
                                        "spec_version"@,
                                        Field::SpecVersion,
                                    ) {
                                        Err(e) => Err(e),
                                        Ok(spec_version) => match count_member(
                                            members,
                                            "version"@,
                                            Field::Version,
                                        ) {
                                            Err(e) => Err(e),
                                            Ok(version) => Ok(
                                                SignedModel {
                                                    consistent_snapshot,
                                                    expires,
                                                    keys: as_map(keys),
                                                    namespace,
                                                    roles: as_map(roles),
                                                    spec_version,
                                                    version: version as nat,
                                                },
                                            ),
                                        },
                                    },
                                },
                            },
                        },
                    },
                },
            },
        }
    }

    /// Whatever decodes as a signed body has a version of at least one, and
    /// roles with thresholds of at least one.
    pub proof fn lemma_decoded_is_wf(members: Seq<(Seq<char>, Seq<u8>)>)
        ensures
            Signed::of_members(members) matches Ok(signed) ==> signed.wf(),
    {
        if let Ok(signed) = Signed::of_members(members) {
            let raw_roles = object_member(members, "roles"@, Field::Roles)->Ok_0;
            let roles = entries_of::<RoleKeys>(raw_roles)->Ok_0;
            assert(signed.roles == as_map(roles));
            assert forall|name: Seq<char>| signed.roles.contains_key(name) implies (
            #[trigger] signed.roles[name]).wf() by {
                lemma_lookup_is_entry(roles, name);
                let i = choose|i: int|
                    0 <= i < roles.len() && (#[trigger] roles[i]).0 == name && roles[i].1 == lookup(
                        roles,
                        name,
                    )->0;
                assert(RoleKeys::of_json(raw_roles[i].1) is Ok);
                assert(roles[i].1 == RoleKeys::of_json(raw_roles[i].1)->Ok_0);
            }
        }
    }

    /// A signed body whose `version` reads as zero does not decode.
    pub proof fn lemma_zero_version_is_rejected(members: Seq<(Seq<char>, Seq<u8>)>)
        requires
            lookup(members, "version"@) matches Some(raw) && json_u64(raw) == Some(0u64),
        ensures
            Signed::of_members(members) is Err,
    {
    }

    /// A signed body with a role that does not decode, as one whose
    /// `threshold` reads as zero, does not decode.
    pub proof fn lemma_bad_role_is_rejected(members: Seq<(Seq<char>, Seq<u8>)>, at: int)
        requires
            object_member(members, "roles"@, Field::Roles) matches Ok(roles) && 0 <= at
                < roles.len() && RoleKeys::of_json(roles[at].1) is Err,
        ensures
            Signed::of_members(members) is Err,
    {
        let roles = object_member(members, "roles"@, Field::Roles)->Ok_0;
        assert(RoleKeys::of_json(roles[at].1) is Err);
        assert(entries_of::<RoleKeys>(roles) is Err);
    }

    /// Decodes the members of a signed body.
    pub fn from_members(members: &Vec<(String, Vec<u8>)>) -> (r: Result<Signed, ParseError>)
        ensures
            modelled(r) == Self::of_members(members.deep_view()),
            r matches Ok(signed) ==> signed.wf(),
    {
        let consistent_snapshot = read_bool_member(
            members,
            "consistent_snapshot",
            Field::ConsistentSnapshot,
        )?;
        let expires = read_instant_member(members, "expires", Field::Expires)?;
        let raw_keys = read_object_member(members, "keys", Field::Keys)?;
        let keys = decode_entries::<Key>(&raw_keys)?;
        let namespace = read_text_member(members, "namespace", Field::Namespace)?;
        let raw_roles = read_object_member(members, "roles", Field::Roles)?;
        let roles = decode_entries::<RoleKeys>(&raw_roles)?;
        let spec_version = read_text_member(members, "spec_version", Field::SpecVersion)?;
        let version = read_count_member(members, "version", Field::Version)?;
        proof {
            Self::lemma_decoded_is_wf(members.deep_view());
        }
        Ok(Signed { consistent_snapshot, expires, keys, namespace, roles, spec_version, version })
    }

    /// The key that stands under `id`.
    pub fn key(&self, id: &str) -> (r: Option<&Key>)
        ensures
            match r {
                Some(key) => self@.keys.contains_key(id@) && self@.keys[id@] == key@,
                None => !self@.keys.contains_key(id@),
            },
    {
        proof {
            assert forall|j: int| 0 <= j < self.keys.len() implies #[trigger] self.keys.deep_view()[j]
                == (self.keys[j].0@, self.keys[j].1.deep_view()) by {}
        }
        match find(&self.keys, id) {
            Some(at) => {
                proof {
                    lemma_lookup_first(self.keys.deep_view(), id@, at as int);
                }
                Some(&self.keys[at].1)
            },
            None => {
                proof {
                    lemma_lookup_absent(self.keys.deep_view(), id@);
                }
                None
            },
        }
    }

    /// The keys and threshold of the role called `name`.
    pub fn role(&self, name: &str) -> (r: Option<&RoleKeys>)
        ensures
            match r {
                Some(role) => self@.roles.contains_key(name@) && self@.roles[name@] == role@,
                None => !self@.roles.contains_key(name@),
            },
    {
        proof {
            assert forall|j: int| 0 <= j < self.roles.len() implies #[trigger] self.roles.deep_view()[j]
                == (self.roles[j].0@, self.roles[j].1.deep_view()) by {}
        }
        match find(&self.roles, name) {
            Some(at) => {
                proof {
                    lemma_lookup_first(self.roles.deep_view(), name@, at as int);
                }
                Some(&self.roles[at].1)
            },
            None => {
                proof {
                    lemma_lookup_absent(self.roles.deep_view(), name@);
                }
                None
            },
        }
    }
}

impl FromJson for Signed {
    /// What the bytes of a signed body's JSON object decode to.
    open spec fn of_json(doc: Seq<u8>) -> Result<SignedModel, ParseError> {
        match json_object(doc) {
            None => Err(ParseError::Invalid(Field::Signed)),
            Some(members) => Signed::of_members(members),
        }
    }

    fn decode(doc: &[u8]) -> (r: Result<Signed, ParseError>) {
        match read_object(doc) {
            None => Err(ParseError::Invalid(Field::Signed)),
            Some(members) => Signed::from_members(&members),
        }
    }
}

} // verus!
