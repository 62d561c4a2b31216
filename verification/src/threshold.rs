//! Counting the keys that signed.
//!
//! A key counts once, however many signatures it made, and the count does
//! not depend on the order of the signatures.

use crate::signature::{Signature, SignatureModel};
use vstd::prelude::*;

verus! {

/// Whether the signature at `at` was found valid.
pub open spec fn is_valid(valid: Seq<bool>, at: int) -> bool {
    0 <= at < valid.len() && valid[at]
}

/// The ids, among `keyids`, of the keys whose signature, among the first
/// `upto` of `signatures`, was found valid.
pub open spec fn signers_among(
    keyids: Seq<Seq<char>>,
    signatures: Seq<SignatureModel>,
    valid: Seq<bool>,
    upto: int,
) -> Set<Seq<char>> {
    Set::new(
        |id: Seq<char>|
            keyids.contains(id) && exists|i: int|
                0 <= i < upto && i < signatures.len() && is_valid(valid, i) && (
                #[trigger] signatures[i]).keyid == id,
    )
}

/// The ids, among `keyids`, of the keys that made a signature that was
/// found valid: `valid` says of each of `signatures`, by its place, whether
/// it was.
pub open spec fn signers(
    keyids: Seq<Seq<char>>,
    signatures: Seq<SignatureModel>,
    valid: Seq<bool>,
) -> Set<Seq<char>> {
    signers_among(keyids, signatures, valid, signatures.len() as int)
}

/// Whether one of `signatures` with the key id `id` was found valid.
pub open spec fn has_valid_signature(
    signatures: Seq<SignatureModel>,
    valid: Seq<bool>,
    id: Seq<char>,
) -> bool {
    exists|i: int|
        0 <= i < signatures.len() && is_valid(valid, i) && (#[trigger] signatures[i]).keyid == id
}

/// The signers are among the listed keys, so there are finitely many of
/// them, and no more than keys are listed.
pub proof fn lemma_signers_are_listed(
    keyids: Seq<Seq<char>>,
    signatures: Seq<SignatureModel>,
    valid: Seq<bool>,
)
    ensures
        signers(keyids, signatures, valid).finite(),
        signers(keyids, signatures, valid).len() <= keyids.len(),
        signers(keyids, signatures, valid).subset_of(keyids.to_set()),
{
    let all = signers(keyids, signatures, valid);
    vstd::seq_lib::seq_to_set_is_finite(keyids);
    assert(all.subset_of(keyids.to_set()));
    vstd::set_lib::lemma_len_subset(all, keyids.to_set());
    keyids.lemma_cardinality_of_set();
}

/// Whether `text` is one of `list`.
pub fn contains_text(list: &Vec<String>, text: &String) -> (r: bool)
    ensures
        r == list.deep_view().contains(text@),
{
    let mut i: usize = 0;
    while i < list.len()
        invariant
            i <= list.len(),
            forall|j: int| 0 <= j < i ==> list[j]@ != text@,
        decreases list.len() - i,
    {
        if list[i] == *text {
            proof {
                assert(list.deep_view()[i as int] == text@);
            }
            return true;
        }
        i += 1;
    }
    proof {
        assert forall|j: int| 0 <= j < list.deep_view().len() implies list.deep_view()[j]
            != text@ by {
            assert(list.deep_view()[j] == list[j]@);
        }
    }
    false
}

/// Counts the distinct keys, among `keyids`, that made a signature that
/// was found valid. A signature without an entry in `valid` counts as not
/// valid.
pub fn count_signers(keyids: &Vec<String>, signatures: &Vec<Signature>, valid: &Vec<bool>) -> (n:
    usize)
    ensures
        n == signers(keyids.deep_view(), signatures.deep_view(), valid@).len(),
        n <= signatures.len(),
{
    let ghost ids = keyids.deep_view();
    let ghost entries = signatures.deep_view();
    let mut counted: Vec<String> = Vec::new();
    let mut i: usize = 0;
    proof {
        assert(counted.deep_view().to_set() =~= signers_among(ids, entries, valid@, 0));
    }
    while i < signatures.len()
        invariant
            i <= signatures.len(),
            ids == keyids.deep_view(),
            entries == signatures.deep_view(),
            entries.len() == signatures.len(),
            counted.len() <= i,
            counted.deep_view().no_duplicates(),
            counted.deep_view().to_set() == signers_among(ids, entries, valid@, i as int),
        decreases signatures.len() - i,
    {
        let ghost before = counted.deep_view();
        assert(entries[i as int].keyid == signatures[i as int].keyid@);
        let counts = i < valid.len() && valid[i] && contains_text(keyids, &signatures[i].keyid)
            && !contains_text(&counted, &signatures[i].keyid);
        if counts {
            counted.push(signatures[i].keyid.clone());
        }
        proof {
            let id = entries[i as int].keyid;
            let after = counted.deep_view();
            let wanted = signers_among(ids, entries, valid@, i + 1);
            if counts {
                assert(after =~= before.push(id));
                assert(!before.contains(id));
                assert(after.no_duplicates());
            } else {
                assert(after =~= before);
            }
            assert forall|k: Seq<char>| after.to_set().contains(k) <==> wanted.contains(k) by {
                if after.to_set().contains(k) {
                    if before.to_set().contains(k) {
                        assert(signers_among(ids, entries, valid@, i as int).contains(k));
                    } else {
                        assert(counts && k == id);
                        assert(is_valid(valid@, i as int) && entries[i as int].keyid == k);
                    }
                }
                if wanted.contains(k) {
                    let j = choose|j: int|
                        0 <= j < i + 1 && j < entries.len() && is_valid(valid@, j) && (
                        #[trigger] entries[j]).keyid == k;
                    if j < i {
                        assert(signers_among(ids, entries, valid@, i as int).contains(k));
                        assert(before.to_set().contains(k));
                        let at = choose|at: int| 0 <= at < before.len() && before[at] == k;
                        assert(after[at] == k);
                    } else {
                        assert(k == id);
                        if counts {
                            assert(after[after.len() - 1] == k);
                        } else {
                            assert(before.contains(k));
                        }
                    }
                }
            }
            assert(after.to_set() =~= wanted);
        }
        i += 1;
    }
    proof {
        counted.deep_view().unique_seq_to_set();
    }
    counted.len()
}

} // verus!
