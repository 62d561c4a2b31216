//! JSON read one level at a time.
//!
//! A JSON value is handled as the bytes that spell it. Reading an object or
//! an array hands out the bytes of each member as they stand in the input, so
//! that a fragment can be decoded and checked against a signature alike.

use crate::count::NonZeroU64;
use crate::entries::{distinct_names, find, lemma_lookup_absent, lemma_lookup_first, lookup};
use crate::error::{Field, ParseError};
use serde_json::value::RawValue;
use std::collections::BTreeMap;
use vstd::prelude::*;

verus! {

/// The members of the JSON object that `doc` spells, each with its name and
/// the bytes of its value, as `serde_json` reads them into a map ordered by
/// name; `None` where `doc` is not one JSON object. The members stand in
/// the order of their names, not in that of the input, and a name that the
/// input holds more than once stands once, with the last of its values: a
/// repeated member is not an error.
pub uninterp spec fn json_object(doc: Seq<u8>) -> Option<Seq<(Seq<char>, Seq<u8>)>>;

/// `part` stands in `whole` as a run of consecutive bytes.
pub open spec fn is_span_of(part: Seq<u8>, whole: Seq<u8>) -> bool {
    exists|from: int, to: int|
        0 <= from <= to <= whole.len() && #[trigger] whole.subrange(from, to) == part
}

/// Reads a JSON object with `serde_json::from_slice`, into a `BTreeMap` from
/// each name to the raw bytes of its value.
///
/// Believed of `serde_json` and of `BTreeMap`: the result depends on the
/// bytes of `doc` alone; each value handed out is a range of bytes of
/// `doc`, unchanged; and the map hands out each name once.
#[verifier::external_body]
pub(crate) fn read_object(doc: &[u8]) -> (r: Option<Vec<(String, Vec<u8>)>>)
    ensures
        r.deep_view() == json_object(doc@),
        r matches Some(members) ==> forall|i: int|
            0 <= i < members.len() ==> is_span_of(#[trigger] members[i].1@, doc@),
        r matches Some(members) ==> distinct_names(members.deep_view()),
{
    let members = serde_json::from_slice::<BTreeMap<String, &RawValue>>(doc).ok()?;
    Some(members.into_iter().map(|(name, value)| (name, value.get().as_bytes().to_vec())).collect())
}

/// The items of the JSON array that `doc` spells, each as the bytes of its
/// value, as `serde_json` reads them; `None` where `doc` is not one JSON
/// array.
pub uninterp spec fn json_array(doc: Seq<u8>) -> Option<Seq<Seq<u8>>>;

/// Reads a JSON array with `serde_json::from_slice`, its items left
/// undecoded.
///
/// Believed of `serde_json`: the result depends on the bytes of `doc` alone.
#[verifier::external_body]
pub(crate) fn read_array(doc: &[u8]) -> (r: Option<Vec<Vec<u8>>>)
    ensures
        r.deep_view() == json_array(doc@),
{
    let items = serde_json::from_slice::<Vec<&RawValue>>(doc).ok()?;
    Some(items.into_iter().map(|value| value.get().as_bytes().to_vec()).collect())
}

/// The text of the JSON string that `doc` spells, escapes resolved, as
/// `serde_json` reads it; `None` where `doc` is not one JSON string.
pub uninterp spec fn json_string(doc: Seq<u8>) -> Option<Seq<char>>;

/// Reads a JSON string with `serde_json::from_slice`.
///
/// Believed of `serde_json`: the result depends on the bytes of `doc` alone.
#[verifier::external_body]
pub(crate) fn read_string(doc: &[u8]) -> (r: Option<String>)
    ensures
        r.deep_view() == json_string(doc@),
{
    serde_json::from_slice::<String>(doc).ok()
}

/// The JSON number that `doc` spells, as `serde_json` reads it into a `u64`;
/// `None` where `doc` is not one JSON number, or the number is negative,
/// has a fraction or an exponent, or is too large.
pub uninterp spec fn json_u64(doc: Seq<u8>) -> Option<u64>;

/// Reads an unsigned JSON number with `serde_json::from_slice`.
///
/// Believed of `serde_json`: the result depends on the bytes of `doc` alone.
#[verifier::external_body]
pub(crate) fn read_u64(doc: &[u8]) -> (r: Option<u64>)
    ensures
        r == json_u64(doc@),
{
    serde_json::from_slice::<u64>(doc).ok()
}

/// Whether `byte` is JSON whitespace: a space, a tab, a line feed or a
/// carriage return.
pub open spec fn is_json_space(byte: u8) -> bool {
    byte == 0x20 || byte == 0x09 || byte == 0x0a || byte == 0x0d
}

/// `doc` holds `word` from the place `from` on, and nothing but JSON
/// whitespace before and after it.
pub open spec fn spells_at(doc: Seq<u8>, word: Seq<u8>, from: int) -> bool {
    &&& 0 <= from
    &&& from + word.len() <= doc.len()
    &&& doc.subrange(from, from + word.len()) == word
    &&& forall|i: int| 0 <= i < from ==> is_json_space(#[trigger] doc[i])
    &&& forall|i: int| from + word.len() <= i < doc.len() ==> is_json_space(#[trigger] doc[i])
}

/// `doc` is `word` between JSON whitespace.
pub open spec fn spells(doc: Seq<u8>, word: Seq<u8>) -> bool {
    exists|from: int| spells_at(doc, word, from)
}

/// The bytes of the word `true`.
pub open spec fn word_true() -> Seq<u8> {
    seq![0x74u8, 0x72u8, 0x75u8, 0x65u8]
}

/// The bytes of the word `false`.
pub open spec fn word_false() -> Seq<u8> {
    seq![0x66u8, 0x61u8, 0x6cu8, 0x73u8, 0x65u8]
}

/// The JSON boolean that `doc` spells: the word `true` or the word `false`
/// between JSON whitespace; `None` where `doc` is neither.
pub open spec fn json_bool(doc: Seq<u8>) -> Option<bool> {
    if spells(doc, word_true()) {
        Some(true)
    } else if spells(doc, word_false()) {
        Some(false)
    } else {
        None
    }
}

/// Whether `byte` is JSON whitespace.
fn is_space(byte: u8) -> (r: bool)
    ensures
        r == is_json_space(byte),
{
    byte == 0x20 || byte == 0x09 || byte == 0x0a || byte == 0x0d
}

/// A word without whitespace that `doc` spells is what is left of `doc`
/// when the whitespace at both ends is taken away.
proof fn lemma_spelled_word_is_the_rest(doc: Seq<u8>, word: Seq<u8>, at: int, from: int, to: int)
    requires
        spells_at(doc, word, at),
        word.len() > 0,
        forall|i: int| 0 <= i < word.len() ==> !is_json_space(#[trigger] word[i]),
        0 <= from <= to <= doc.len(),
        forall|i: int| 0 <= i < from ==> is_json_space(#[trigger] doc[i]),
        forall|i: int| to <= i < doc.len() ==> is_json_space(#[trigger] doc[i]),
        from < to ==> !is_json_space(doc[from]) && !is_json_space(doc[to - 1]),
    ensures
        from < to,
        at == from,
        at + word.len() == to,
{
    let inner = doc.subrange(at, at + word.len());
    assert(inner[0] == doc[at]);
    assert(!is_json_space(word[0]));
    let last = word.len() - 1;
    assert(inner[last] == doc[at + last]);
    assert(!is_json_space(word[last]));
    if from == to {
        assert(is_json_space(doc[at]));
    } else {
        if at < from {
            assert(is_json_space(doc[at]));
        }
        if at > from {
            assert(is_json_space(doc[from]));
        }
        if at + word.len() < to {
            assert(is_json_space(doc[to - 1]));
        }
        if at + word.len() > to {
            assert(is_json_space(doc[at + last]));
        }
    }
}

/// Reads a JSON boolean: the word `true` or the word `false` between JSON
/// whitespace, as `serde_json` reads one.
pub fn read_bool(doc: &[u8]) -> (r: Option<bool>)
    ensures
        r == json_bool(doc@),
{
    let mut from: usize = 0;
    while from < doc.len() && is_space(doc[from])
        invariant
            from <= doc.len(),
            forall|i: int| 0 <= i < from ==> is_json_space(#[trigger] doc@[i]),
        decreases doc.len() - from,
    {
        from += 1;
    }
    let mut to: usize = doc.len();
    while to > from && is_space(doc[to - 1])
        invariant
            from <= to <= doc.len(),
            forall|i: int| to <= i < doc.len() ==> is_json_space(#[trigger] doc@[i]),
        decreases to,
    {
        to -= 1;
    }
    let is_true = to - from == 4 && doc[from] == 0x74 && doc[from + 1] == 0x72 && doc[from + 2]
        == 0x75 && doc[from + 3] == 0x65;
    let is_false = to - from == 5 && doc[from] == 0x66 && doc[from + 1] == 0x61 && doc[from + 2]
        == 0x6c && doc[from + 3] == 0x73 && doc[from + 4] == 0x65;
    proof {
        let rest = doc@.subrange(from as int, to as int);
        assert forall|at: int| spells_at(doc@, word_true(), at) implies is_true by {
            lemma_spelled_word_is_the_rest(doc@, word_true(), at, from as int, to as int);
            let inner = doc@.subrange(at, at + 4);
            assert(inner[0] == doc@[at] && inner[1] == doc@[at + 1] && inner[2] == doc@[at + 2]
                && inner[3] == doc@[at + 3]);
        }
        assert forall|at: int| spells_at(doc@, word_false(), at) implies is_false by {
            lemma_spelled_word_is_the_rest(doc@, word_false(), at, from as int, to as int);
            let inner = doc@.subrange(at, at + 5);
            assert(inner[0] == doc@[at] && inner[1] == doc@[at + 1] && inner[2] == doc@[at + 2]
                && inner[3] == doc@[at + 3] && inner[4] == doc@[at + 4]);
        }
        if is_true {
            assert(rest =~= word_true());
            assert(spells_at(doc@, word_true(), from as int));
        }
        if is_false {
            assert(rest =~= word_false());
            assert(spells_at(doc@, word_false(), from as int));
        }
    }
    if is_true {
        Some(true)
    } else if is_false {
        Some(false)
    } else {
        None
    }
}

/// A result with what it holds on success replaced by its model.
pub open spec fn modelled<T: DeepView, E>(r: Result<T, E>) -> Result<T::V, E> {
    match r {
        Ok(value) => Ok(value.deep_view()),
        Err(e) => Err(e),
    }
}

/// The model of a list of bytes is the list itself.
pub proof fn lemma_bytes_model(bytes: Vec<u8>)
    ensures
        bytes.deep_view() == bytes@,
{
    assert(bytes.deep_view() =~= bytes@);
}

/// The bytes of the first member called `name`; they are those of one of
/// `members`.
pub fn member<'a>(members: &'a Vec<(String, Vec<u8>)>, name: &str) -> (r: Option<&'a Vec<u8>>)
    ensures
        match r {
            Some(raw) => lookup(members.deep_view(), name@) == Some(raw@) && exists|i: int|
                0 <= i < members.len() && (#[trigger] members[i]).1@ == raw@,
            None => lookup(members.deep_view(), name@) is None,
        },
{
    proof {
        assert forall|j: int| 0 <= j < members.len() implies #[trigger] members.deep_view()[j] == (
            members[j].0@,
            members[j].1@,
        ) by {
            lemma_bytes_model(members[j].1);
        }
    }
    match find(members, name) {
        Some(at) => {
            proof {
                lemma_lookup_first(members.deep_view(), name@, at as int);
            }
            Some(&members[at].1)
        },
        None => {
            proof {
                lemma_lookup_absent(members.deep_view(), name@);
            }
            None
        },
    }
}

/// The member `name` read as a JSON object: its members, or the reason why
/// there are none, with `field` as the place.
pub open spec fn object_member(
    members: Seq<(Seq<char>, Seq<u8>)>,
    name: Seq<char>,
    field: Field,
) -> Result<Seq<(Seq<char>, Seq<u8>)>, ParseError> {
    match lookup(members, name) {
        None => Err(ParseError::Missing(field)),
        Some(raw) => match json_object(raw) {
            None => Err(ParseError::Invalid(field)),
            Some(inner) => Ok(inner),
        },
    }
}

/// Reads the member `name` as a JSON object.
pub fn read_object_member(members: &Vec<(String, Vec<u8>)>, name: &str, field: Field) -> (r: Result<
    Vec<(String, Vec<u8>)>,
    ParseError,
>)
    ensures
        modelled(r) == object_member(members.deep_view(), name@, field),
        r matches Ok(inner) ==> distinct_names(inner.deep_view()),
{
    match member(members, name) {
        None => Err(ParseError::Missing(field)),
        Some(raw) => match read_object(raw.as_slice()) {
            None => Err(ParseError::Invalid(field)),
            Some(inner) => Ok(inner),
        },
    }
}

/// The member `name` read as a JSON array: the bytes of its items, or the
/// reason why there are none, with `field` as the place.
pub open spec fn array_member(
    members: Seq<(Seq<char>, Seq<u8>)>,
    name: Seq<char>,
    field: Field,
) -> Result<Seq<Seq<u8>>, ParseError> {
    match lookup(members, name) {
        None => Err(ParseError::Missing(field)),
        Some(raw) => match json_array(raw) {
            None => Err(ParseError::Invalid(field)),
            Some(items) => Ok(items),
        },
    }
}

/// Reads the member `name` as a JSON array.
pub fn read_array_member(members: &Vec<(String, Vec<u8>)>, name: &str, field: Field) -> (r: Result<
    Vec<Vec<u8>>,
    ParseError,
>)
    ensures
        modelled(r) == array_member(members.deep_view(), name@, field),
{
    match member(members, name) {
        None => Err(ParseError::Missing(field)),
        Some(raw) => match read_array(raw.as_slice()) {
            None => Err(ParseError::Invalid(field)),
            Some(items) => Ok(items),
        },
    }
}

/// The member `name` read as a JSON string: its text, or the reason why
/// there is none, with `field` as the place.
pub open spec fn text_member(
    members: Seq<(Seq<char>, Seq<u8>)>,
    name: Seq<char>,
    field: Field,
) -> Result<Seq<char>, ParseError> {
    match lookup(members, name) {
        None => Err(ParseError::Missing(field)),
        Some(raw) => match json_string(raw) {
            None => Err(ParseError::Invalid(field)),
            Some(text) => Ok(text),
        },
    }
}

/// Reads the member `name` as a JSON string.
pub fn read_text_member(members: &Vec<(String, Vec<u8>)>, name: &str, field: Field) -> (r: Result<
    String,
    ParseError,
>)
    ensures
        modelled(r) == text_member(members.deep_view(), name@, field),
{
    match member(members, name) {
        None => Err(ParseError::Missing(field)),
        Some(raw) => match read_string(raw.as_slice()) {
            None => Err(ParseError::Invalid(field)),
            Some(text) => Ok(text),
        },
    }
}

/// The member `name` read as a JSON boolean, or the reason why there is
/// none, with `field` as the place.
pub open spec fn bool_member(
    members: Seq<(Seq<char>, Seq<u8>)>,
    name: Seq<char>,
    field: Field,
) -> Result<bool, ParseError> {
    match lookup(members, name) {
        None => Err(ParseError::Missing(field)),
        Some(raw) => match json_bool(raw) {
            None => Err(ParseError::Invalid(field)),
            Some(flag) => Ok(flag),
        },
    }
}

/// Reads the member `name` as a JSON boolean.
pub fn read_bool_member(members: &Vec<(String, Vec<u8>)>, name: &str, field: Field) -> (r: Result<
    bool,
    ParseError,
>)
    ensures
        r == bool_member(members.deep_view(), name@, field),
{
    match member(members, name) {
        None => Err(ParseError::Missing(field)),
        Some(raw) => match read_bool(raw.as_slice()) {
            None => Err(ParseError::Invalid(field)),
            Some(flag) => Ok(flag),
        },
    }
}

/// The member `name` read as a count of at least one, or the reason why
/// there is none, with `field` as the place. Zero is no count.
pub open spec fn count_member(
    members: Seq<(Seq<char>, Seq<u8>)>,
    name: Seq<char>,
    field: Field,
) -> Result<u64, ParseError> {
    match lookup(members, name) {
        None => Err(ParseError::Missing(field)),
        Some(raw) => match json_u64(raw) {
            None => Err(ParseError::Invalid(field)),
            Some(n) => if n == 0 {
                Err(ParseError::Invalid(field))
            } else {
                Ok(n)
            },
        },
    }
}

/// Reads the member `name` as a count of at least one.
pub fn read_count_member(members: &Vec<(String, Vec<u8>)>, name: &str, field: Field) -> (r: Result<
    NonZeroU64,
    ParseError,
>)
    ensures
        modelled(r) == count_member(members.deep_view(), name@, field),
{
    match member(members, name) {
        None => Err(ParseError::Missing(field)),
        Some(raw) => match read_u64(raw.as_slice()) {
            None => Err(ParseError::Invalid(field)),
            Some(n) => match NonZeroU64::new(n) {
                None => Err(ParseError::Invalid(field)),
                Some(count) => Ok(count),
            },
        },
    }
}

} // verus!
