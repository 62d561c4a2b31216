//! Lists of named entries, read as mappings from name to value.
//!
//! A list that was decoded holds each name once. In a list made by hand a
//! name may occur twice; there the first entry counts.

use vstd::prelude::*;

verus! {

/// The value of the first entry called `name`, if there is one.
pub open spec fn lookup<V>(entries: Seq<(Seq<char>, V)>, name: Seq<char>) -> Option<V>
    decreases entries.len(),
{
    if entries.len() == 0 {
        None
    } else if entries[0].0 == name {
        Some(entries[0].1)
    } else {
        lookup(entries.skip(1), name)
    }
}

/// No name occurs twice among the entries.
pub open spec fn distinct_names<V>(entries: Seq<(Seq<char>, V)>) -> bool {
    forall|i: int, j: int|
        0 <= i < j < entries.len() ==> (#[trigger] entries[i]).0 != (#[trigger] entries[j]).0
}

/// The mapping that a list of entries stands for.
pub open spec fn as_map<V>(entries: Seq<(Seq<char>, V)>) -> Map<Seq<char>, V> {
    Map::new(|name: Seq<char>| lookup(entries, name) is Some, |name: Seq<char>| lookup(entries, name)->0)
}

/// An entry that no earlier entry shares its name with is what `lookup`
/// finds under that name.
pub proof fn lemma_lookup_first<V>(entries: Seq<(Seq<char>, V)>, name: Seq<char>, at: int)
    requires
        0 <= at < entries.len(),
        entries[at].0 == name,
        forall|j: int| 0 <= j < at ==> entries[j].0 != name,
    ensures
        lookup(entries, name) == Some(entries[at].1),
    decreases at,
{
    if at > 0 {
        let rest = entries.skip(1);
        assert(rest[at - 1] == entries[at]);
        assert forall|j: int| 0 <= j < at - 1 implies rest[j].0 != name by {
            assert(rest[j] == entries[j + 1]);
        }
        lemma_lookup_first(rest, name, at - 1);
    }
}

/// `lookup` finds nothing under a name that no entry has.
pub proof fn lemma_lookup_absent<V>(entries: Seq<(Seq<char>, V)>, name: Seq<char>)
    requires
        forall|j: int| 0 <= j < entries.len() ==> entries[j].0 != name,
    ensures
        lookup(entries, name) is None,
    decreases entries.len(),
{
    if entries.len() > 0 {
        let rest = entries.skip(1);
        assert forall|j: int| 0 <= j < rest.len() implies rest[j].0 != name by {
            assert(rest[j] == entries[j + 1]);
        }
        lemma_lookup_absent(rest, name);
    }
}

/// What `lookup` finds is the value of one of the entries, under that name.
pub proof fn lemma_lookup_is_entry<V>(entries: Seq<(Seq<char>, V)>, name: Seq<char>)
    requires
        lookup(entries, name) is Some,
    ensures
        exists|i: int|
            0 <= i < entries.len() && (#[trigger] entries[i]).0 == name && entries[i].1 == lookup(
                entries,
                name,
            )->0,
    decreases entries.len(),
{
    if entries[0].0 == name {
        assert(entries[0].1 == lookup(entries, name)->0);
    } else {
        let rest = entries.skip(1);
        lemma_lookup_is_entry(rest, name);
        let i = choose|i: int|
            0 <= i < rest.len() && (#[trigger] rest[i]).0 == name && rest[i].1 == lookup(rest, name)->0;
        assert(entries[i + 1] == rest[i]);
    }
}

/// The place of the first entry called `name`.
pub fn find<V>(entries: &Vec<(String, V)>, name: &str) -> (r: Option<usize>)
    ensures
        match r {
            Some(at) => at < entries.len() && entries[at as int].0@ == name@ && forall|j: int|
                0 <= j < at ==> entries[j].0@ != name@,
            None => forall|j: int| 0 <= j < entries.len() ==> entries[j].0@ != name@,
        },
{
    let wanted: String = name.to_owned();
    let mut i: usize = 0;
    while i < entries.len()
        invariant
            i <= entries.len(),
            wanted@ == name@,
            forall|j: int| 0 <= j < i ==> entries[j].0@ != name@,
        decreases entries.len() - i,
    {
        if entries[i].0 == wanted {
            return Some(i);
        }
        i += 1;
    }
    None
}

} // verus!
