//! Decoding the items of a JSON array, or the values of a JSON object, one
//! by one.

use crate::entries::distinct_names;
use crate::error::ParseError;
use crate::json::{lemma_bytes_model, modelled};
use vstd::prelude::*;

verus! {

/// A value that is decoded from the bytes of one JSON value.
pub trait FromJson: Sized + DeepView {
    /// What the bytes `doc` decode to.
    spec fn of_json(doc: Seq<u8>) -> Result<Self::V, ParseError>;

    /// Decodes the bytes `doc`.
    fn decode(doc: &[u8]) -> (r: Result<Self, ParseError>)
        ensures
            modelled(r) == Self::of_json(doc@),
    ;
}

/// The place of the first of `items` that does not decode.
pub open spec fn first_failure<T: FromJson>(items: Seq<Seq<u8>>) -> int {
    choose|i: int|
        0 <= i < items.len() && T::of_json(#[trigger] items[i]) is Err && forall|j: int|
            0 <= j < i ==> T::of_json(#[trigger] items[j]) is Ok
}

/// What a list of items decodes to: each item's value, in order, where all
/// of them decode, and else the error of the first that does not.
pub open spec fn each_of<T: FromJson>(items: Seq<Seq<u8>>) -> Result<Seq<T::V>, ParseError> {
    if forall|i: int| 0 <= i < items.len() ==> T::of_json(#[trigger] items[i]) is Ok {
        Ok(Seq::new(items.len(), |i: int| T::of_json(items[i])->Ok_0))
    } else {
        Err(T::of_json(items[first_failure::<T>(items)])->Err_0)
    }
}

/// Decodes each of `items`.
pub fn decode_each<T: FromJson>(items: &Vec<Vec<u8>>) -> (r: Result<Vec<T>, ParseError>)
    ensures
        modelled(r) == each_of::<T>(items.deep_view()),
{
    let ghost raw = items.deep_view();
    proof {
        assert forall|j: int| 0 <= j < items.len() implies #[trigger] raw[j] == items[j]@ by {
            lemma_bytes_model(items[j]);
        }
    }
    let mut out: Vec<T> = Vec::new();
    let mut i: usize = 0;
    while i < items.len()
        invariant
            i <= items.len(),
            raw == items.deep_view(),
            raw.len() == items.len(),
            forall|j: int| 0 <= j < items.len() ==> #[trigger] raw[j] == items[j]@,
            out.len() == i,
            forall|j: int| 0 <= j < i ==> T::of_json(#[trigger] raw[j]) == Ok::<T::V, ParseError>(out[j].deep_view()),
        decreases items.len() - i,
    {
        match T::decode(items[i].as_slice()) {
            Ok(value) => {
                out.push(value);
            },
            Err(e) => {
                proof {
                    assert(T::of_json(raw[i as int]) == Err::<T::V, ParseError>(e));
                    let at = first_failure::<T>(raw);
                    assert(T::of_json(raw[at]) is Err);
                    assert(at == i);
                }
                return Err(e);
            },
        }
        i += 1;
    }
    proof {
        assert(out.deep_view() =~= Seq::new(raw.len(), |i: int| T::of_json(raw[i])->Ok_0));
    }
    Ok(out)
}

/// The place of the first of `entries` whose value does not decode.
pub open spec fn first_failed_entry<T: FromJson>(entries: Seq<(Seq<char>, Seq<u8>)>) -> int {
    choose|i: int|
        0 <= i < entries.len() && T::of_json((#[trigger] entries[i]).1) is Err && forall|j: int|
            0 <= j < i ==> T::of_json((#[trigger] entries[j]).1) is Ok
}

/// What the members of an object decode to: each name with its value, in
/// order, where all the values decode, and else the error of the first that
/// does not.
pub open spec fn entries_of<T: FromJson>(entries: Seq<(Seq<char>, Seq<u8>)>) -> Result<
    Seq<(Seq<char>, T::V)>,
    ParseError,
> {
    if forall|i: int| 0 <= i < entries.len() ==> T::of_json((#[trigger] entries[i]).1) is Ok {
        Ok(Seq::new(entries.len(), |i: int| (entries[i].0, T::of_json(entries[i].1)->Ok_0)))
    } else {
        Err(T::of_json(entries[first_failed_entry::<T>(entries)].1)->Err_0)
    }
}

/// Decodes the value of each of `members`, and keeps its name.
pub fn decode_entries<T: FromJson>(members: &Vec<(String, Vec<u8>)>) -> (r: Result<
    Vec<(String, T)>,
    ParseError,
>)
    ensures
        modelled(r) == entries_of::<T>(members.deep_view()),
        r matches Ok(entries) ==> (distinct_names(members.deep_view()) ==> distinct_names(
            entries.deep_view(),
        )),
{
    let ghost raw = members.deep_view();
    proof {
        assert forall|j: int| 0 <= j < members.len() implies #[trigger] raw[j] == (
            members[j].0@,
            members[j].1@,
        ) by {
            lemma_bytes_model(members[j].1);
        }
    }
    let mut out: Vec<(String, T)> = Vec::new();
    let mut i: usize = 0;
    while i < members.len()
        invariant
            i <= members.len(),
            raw == members.deep_view(),
            raw.len() == members.len(),
            forall|j: int| 0 <= j < members.len() ==> #[trigger] raw[j] == (members[j].0@, members[j].1@),
            out.len() == i,
            forall|j: int|
                0 <= j < i ==> T::of_json((#[trigger] raw[j]).1) == Ok::<T::V, ParseError>(
                    out[j].1.deep_view(),
                ) && out[j].0@ == raw[j].0,
        decreases members.len() - i,
    {
        match T::decode(members[i].1.as_slice()) {
            Ok(value) => {
                out.push((members[i].0.clone(), value));
            },
            Err(e) => {
                proof {
                    assert(T::of_json(raw[i as int].1) == Err::<T::V, ParseError>(e));
                    let at = first_failed_entry::<T>(raw);
                    assert(T::of_json(raw[at].1) is Err);
                    assert(at == i);
                }
                return Err(e);
            },
        }
        i += 1;
    }
    proof {
        assert(out.deep_view() =~= Seq::new(
            raw.len(),
            |i: int| (raw[i].0, T::of_json(raw[i].1)->Ok_0),
        ));
        if distinct_names(raw) {
            assert forall|i: int, j: int| 0 <= i < j < out.len() implies (
            #[trigger] out.deep_view()[i]).0 != (#[trigger] out.deep_view()[j]).0 by {
                assert(out.deep_view()[i].0 == raw[i].0);
                assert(out.deep_view()[j].0 == raw[j].0);
            }
        }
    }
    Ok(out)
}

} // verus!
