//! Roles: their names, and the keys and threshold that each one names.

use crate::count::NonZeroU64;
use crate::decode::FromJson;
use crate::entries::lookup;
use crate::error::{Field, ParseError};
use crate::json::{
    array_member, count_member, json_object, json_string, json_u64, lemma_bytes_model, modelled,
    read_array_member, read_count_member, read_object, read_string,
};
use crate::text::same_text;
use std::convert::TryFrom;
use vstd::prelude::*;
use vstd::std_specs::convert::TryFromSpecImpl;
use vstd::string::StringExecFns;

verus! {

/// The kind of metadata role a key may hold.
#[derive(Clone, Copy, Debug, PartialEq, Eq, Structural, Hash)]
pub enum RoleType {
    /// The role whose keys bootstrap all other trust.
    Root,
}

impl RoleType {
    /// The name under which the role stands in a document.
    pub open spec fn name(self) -> Seq<char> {
        match self {
            RoleType::Root => "Root"@,
        }
    }

    /// The role that `name` names; any name but a known one is an error.
    pub open spec fn named(name: Seq<char>) -> Result<RoleType, ParseError> {
        if name == "Root"@ {
            Ok(RoleType::Root)
        } else {
            Err(ParseError::UnknownRoleType)
        }
    }

    /// The name under which the role stands in a document.
    pub fn to_string(&self) -> (r: String)
        ensures
            r@ == self.name(),
    {
        match self {
            RoleType::Root => String::from_str("Root"),
        }
    }

    /// A role's name reads back as the role, and a name that reads as a
    /// role is that role's name.
    pub proof fn lemma_name_round_trip(role: RoleType, name: Seq<char>)
        ensures
            RoleType::named(role.name()) == Ok::<RoleType, ParseError>(role),
            RoleType::named(name) == Ok::<RoleType, ParseError>(role) ==> role.name() == name,
            RoleType::named(name) is Ok <==> name == "Root"@,
    {
    }
}

/// The error of reading a role's name: the text names no role.
#[derive(Clone, Copy, Debug, PartialEq, Eq, Hash)]
pub struct UnknownRoleType<'a> {
    /// The text that was read.
    pub name: &'a str,
}

impl<'a> UnknownRoleType<'a> {
    /// The message for a text `name` that names no role.
    pub open spec fn message(name: Seq<char>) -> Seq<char> {
        "Unknown RoleType: "@ + name
    }

    /// The message of the error: it ends with the text that was read.
    pub fn to_string(&self) -> (r: String)
        ensures
            r@ == Self::message(self.name@),
    {
        String::from_str("Unknown RoleType: ").concat(self.name)
    }

    /// The error as one of decoding.
    pub fn kind(&self) -> (r: ParseError)
        ensures
            r == ParseError::UnknownRoleType,
    {
        ParseError::UnknownRoleType
    }
}

impl<'a> TryFrom<&'a str> for RoleType {
    type Error = UnknownRoleType<'a>;

    /// Reads a role's name. The error holds the text that was read.
    fn try_from(name: &'a str) -> (r: Result<RoleType, UnknownRoleType<'a>>) {
        if same_text(name, "Root") {
            Ok(RoleType::Root)
        } else {
            Err(UnknownRoleType { name })
        }
    }
}

impl<'a> TryFromSpecImpl<&'a str> for RoleType {
    open spec fn obeys_try_from_spec() -> bool {
        true
    }

    open spec fn try_from_spec(name: &'a str) -> Result<RoleType, UnknownRoleType<'a>> {
        if name@ == "Root"@ {
            Ok(RoleType::Root)
        } else {
            Err(UnknownRoleType { name })
        }
    }
}

/// The keys of a role, and how many of them must sign.
#[derive(Clone, Debug, PartialEq, Eq, Hash)]
pub struct RoleKeys {
    /// The ids of the keys that may sign for the role.
    pub keyids: Vec<String>,
    /// The number of distinct keys that must sign; at least one.
    pub threshold: NonZeroU64,
}

/// The model of a [`RoleKeys`].
pub struct RoleKeysModel {
    pub keyids: Seq<Seq<char>>,
    pub threshold: nat,
}

impl RoleKeysModel {
    /// The threshold is at least one.
    pub open spec fn wf(self) -> bool {
        self.threshold >= 1
    }
}

impl DeepView for RoleKeys {
    type V = RoleKeysModel;

    open spec fn deep_view(&self) -> RoleKeysModel {
        RoleKeysModel { keyids: self.keyids.deep_view(), threshold: self.threshold@ as nat }
    }
}

impl View for RoleKeys {
    type V = RoleKeysModel;

    open spec fn view(&self) -> RoleKeysModel {
        self.deep_view()
    }
}

/// The key ids that a list of JSON values spells: the text of each, in
/// order, where every one is a JSON string.
pub open spec fn key_ids_of(items: Seq<Seq<u8>>) -> Result<Seq<Seq<char>>, ParseError> {
    if forall|i: int| 0 <= i < items.len() ==> json_string(#[trigger] items[i]) is Some {
        Ok(Seq::new(items.len(), |i: int| json_string(items[i])->0))
    } else {
        Err(ParseError::Invalid(Field::KeyIds))
    }
}

/// Reads each of `items` as a key id.
pub fn read_key_ids(items: &Vec<Vec<u8>>) -> (r: Result<Vec<String>, ParseError>)
    ensures
        modelled(r) == key_ids_of(items.deep_view()),
{
    let ghost raw = items.deep_view();
    proof {
        assert forall|j: int| 0 <= j < items.len() implies #[trigger] raw[j] == items[j]@ by {
            lemma_bytes_model(items[j]);
        }
    }
    let mut out: Vec<String> = Vec::new();
    let mut i: usize = 0;
    while i < items.len()
        invariant
            i <= items.len(),
            raw == items.deep_view(),
            raw.len() == items.len(),
            forall|j: int| 0 <= j < items.len() ==> #[trigger] raw[j] == items[j]@,
            out.len() == i,
            forall|j: int| 0 <= j < i ==> json_string(#[trigger] raw[j]) == Some(out[j]@),
        decreases items.len() - i,
    {
        match read_string(items[i].as_slice()) {
            Some(text) => {
                out.push(text);
            },
            None => {
                proof {
                    assert(json_string(raw[i as int]) is None);
                }
                return Err(ParseError::Invalid(Field::KeyIds));
            },
        }
        i += 1;
    }
    proof {
        assert(out.deep_view() =~= Seq::new(raw.len(), |i: int| json_string(raw[i])->0));
    }
    Ok(out)
}

impl RoleKeys {
    /// What the members of a role's object decode to. A `threshold` of zero
    /// is an error.
    pub open spec fn of_members(members: Seq<(Seq<char>, Seq<u8>)>) -> Result<
        RoleKeysModel,
        ParseError,
    > {
        match array_member(members, "keyids"@, Field::KeyIds) {
            Err(e) => Err(e),
            Ok(items) => match key_ids_of(items) {
                Err(e) => Err(e),
                Ok(keyids) => match count_member(members, "threshold"@, Field::Threshold) {
                    Err(e) => Err(e),
                    Ok(threshold) => Ok(RoleKeysModel { keyids, threshold: threshold as nat }),
                },
            },
        }
    }

    /// Decodes the members of a role's object.
    pub fn from_members(members: &Vec<(String, Vec<u8>)>) -> (r: Result<RoleKeys, ParseError>)
        ensures
            modelled(r) == Self::of_members(members.deep_view()),
            r matches Ok(role) ==> role@.wf(),
    {
        let items = read_array_member(members, "keyids", Field::KeyIds)?;
        let keyids = read_key_ids(&items)?;
        let threshold = read_count_member(members, "threshold", Field::Threshold)?;
        Ok(RoleKeys { keyids, threshold })
    }

    /// Whatever decodes as a role has a threshold of at least one.
    pub proof fn lemma_threshold_is_positive(members: Seq<(Seq<char>, Seq<u8>)>)
        ensures
            RoleKeys::of_members(members) matches Ok(role) ==> role.wf(),
    {
    }

    /// A role whose `threshold` reads as zero does not decode.
    pub proof fn lemma_zero_threshold_is_rejected(members: Seq<(Seq<char>, Seq<u8>)>)
        requires
            lookup(members, "threshold"@) matches Some(raw) && json_u64(raw) == Some(0u64),
        ensures
            RoleKeys::of_members(members) is Err,
    {
    }
}

impl FromJson for RoleKeys {
    /// What the bytes of a role's JSON object decode to.
    open spec fn of_json(doc: Seq<u8>) -> Result<RoleKeysModel, ParseError> {
        match json_object(doc) {
            None => Err(ParseError::Invalid(Field::Role)),
            Some(members) => RoleKeys::of_members(members),
        }
    }

    fn decode(doc: &[u8]) -> (r: Result<RoleKeys, ParseError>) {
        match read_object(doc) {
            None => Err(ParseError::Invalid(Field::Role)),
            Some(members) => RoleKeys::from_members(&members),
        }
    }
}

} // verus!
