//! The trust decision: a policy is trusted while it has not expired and
//! enough of the root role's keys have signed it.

use crate::certificate::certificate_key;
use crate::error::{CertificateError, PolicyError};
use crate::json::modelled;
use crate::policy::{Policy, PolicyModel, RawPolicy};
use crate::role::{RoleKeys, RoleKeysModel, RoleType};
use crate::signature::{Signature, SignatureModel};
use crate::signed::{Signed, SignedModel};
use crate::threshold::{count_signers, has_valid_signature, is_valid, signers};
use crate::time::Timestamp;
use crate::verify::signature_accepted;
use vstd::prelude::*;

verus! {

/// Whether a role can be met at all, and not by nothing: it asks for at
/// least one key and for no more keys than it lists, and the policy defines
/// every key that it lists.
pub open spec fn role_is_sound(signed: SignedModel, role: RoleKeysModel) -> bool {
    &&& 1 <= role.threshold <= role.keyids.len()
    &&& forall|i: int|
        0 <= i < role.keyids.len() ==> signed.keys.contains_key(#[trigger] role.keyids[i])
}

/// The root role of a policy that stands at `now`: the policy has not
/// expired, which is to say that `now` comes before `expires`, and it has
/// a root role that can be met.
pub open spec fn standing(signed: SignedModel, now: Timestamp) -> Result<
    RoleKeysModel,
    PolicyError,
> {
    if !now.is_before(signed.expires) {
        Err(PolicyError::Expired)
    } else if !signed.roles.contains_key(RoleType::Root.name()) {
        Err(PolicyError::Threshold)
    } else if !role_is_sound(signed, signed.roles[RoleType::Root.name()]) {
        Err(PolicyError::Threshold)
    } else {
        Ok(signed.roles[RoleType::Root.name()])
    }
}

/// Whether every key id of `role` names a key of `signed`.
fn keys_are_defined(signed: &Signed, role: &RoleKeys) -> (r: bool)
    ensures
        r == forall|i: int|
            0 <= i < role@.keyids.len() ==> signed@.keys.contains_key(#[trigger] role@.keyids[i]),
{
    let mut i: usize = 0;
    while i < role.keyids.len()
        invariant
            i <= role.keyids.len(),
            forall|j: int| 0 <= j < i ==> signed@.keys.contains_key(#[trigger] role@.keyids[j]),
        decreases role.keyids.len() - i,
    {
        assert(role@.keyids[i as int] == role.keyids[i as int]@);
        if signed.key(role.keyids[i].as_str()).is_none() {
            return false;
        }
        i += 1;
    }
    true
}

impl Signed {
    /// The root role, where the policy stands at `now`; else the reason
    /// why it does not.
    pub fn standing_root(&self, now: &Timestamp) -> (r: Result<&RoleKeys, PolicyError>)
        ensures
            match r {
                Ok(role) => standing(self@, *now) == Ok::<RoleKeysModel, PolicyError>(role@),
                Err(e) => standing(self@, *now) == Err::<RoleKeysModel, PolicyError>(e),
            },
    {
        if !now.comes_before(&self.expires) {
            return Err(PolicyError::Expired);
        }
        let name = RoleType::Root.to_string();
        let role = match self.role(name.as_str()) {
            Some(role) => role,
            None => return Err(PolicyError::Threshold),
        };
        if role.keyids.len() as u64 >= role.threshold.get() && keys_are_defined(self, role) {
            Ok(role)
        } else {
            Err(PolicyError::Threshold)
        }
    }
}

/// What checking one signature entry against `message` comes to: whether
/// the key of its certificate accepts its signature, or why the certificate
/// yields no key.
pub open spec fn outcome(entry: SignatureModel, message: Seq<u8>) -> Result<bool, CertificateError> {
    match certificate_key(entry.cert) {
        Err(e) => Err(e),
        Ok(key) => Ok(signature_accepted(key, entry.sig, message)),
    }
}

/// What checking each of `signatures` against `message` comes to.
pub open spec fn outcomes(signatures: Seq<SignatureModel>, message: Seq<u8>) -> Seq<
    Result<bool, CertificateError>,
> {
    Seq::new(signatures.len(), |i: int| outcome(signatures[i], message))
}

/// The place of the first of `outcomes` that is an error.
pub open spec fn first_error(outcomes: Seq<Result<bool, CertificateError>>) -> int {
    choose|i: int|
        0 <= i < outcomes.len() && (#[trigger] outcomes[i]) is Err && forall|j: int|
            0 <= j < i ==> (#[trigger] outcomes[j]) is Ok
}

/// Of each outcome, whether it is a signature found valid.
pub open spec fn accepted(outcomes: Seq<Result<bool, CertificateError>>) -> Seq<bool> {
    Seq::new(outcomes.len(), |i: int| outcomes[i] == Ok::<bool, CertificateError>(true))
}

/// The decision on a policy, given what checking each of its signatures
/// came to, by its place. In this order: an expired policy is rejected as
/// expired; one without a root role that can be met, as short of its
/// threshold; one with a certificate that yields no key, with the error of
/// the first such certificate; and one that fewer distinct listed keys
/// signed than the root role asks for, as short of its threshold.
pub open spec fn decision(
    policy: PolicyModel,
    outcomes: Seq<Result<bool, CertificateError>>,
    now: Timestamp,
) -> Result<(), PolicyError> {
    match standing(policy.signed, now) {
        Err(e) => Err(e),
        Ok(role) => if exists|i: int| 0 <= i < outcomes.len() && (#[trigger] outcomes[i]) is Err {
            Err(PolicyError::Certificate(outcomes[first_error(outcomes)]->Err_0))
        } else if signers(role.keyids, policy.signatures, accepted(outcomes)).len()
            >= role.threshold {
            Ok(())
        } else {
            Err(PolicyError::Threshold)
        },
    }
}

/// The decision on a policy whose signatures were made over `message`.
pub open spec fn judgement(policy: PolicyModel, message: Seq<u8>, now: Timestamp) -> Result<
    (),
    PolicyError,
> {
    decision(policy, outcomes(policy.signatures, message), now)
}

/// Whether enough distinct keys of `role` made a signature that was found
/// valid.
pub fn tally(role: &RoleKeys, signatures: &Vec<Signature>, valid: &Vec<bool>) -> (r: Result<
    (),
    PolicyError,
>)
    ensures
        r == if signers(role@.keyids, signatures.deep_view(), valid@).len() >= role@.threshold {
            Ok::<(), PolicyError>(())
        } else {
            Err::<(), PolicyError>(PolicyError::Threshold)
        },
{
    let n = count_signers(&role.keyids, signatures, valid);
    if n as u64 >= role.threshold.get() {
        Ok(())
    } else {
        Err(PolicyError::Threshold)
    }
}

impl Policy {
    /// Decides on the policy, given what checking each of its signatures
    /// came to.
    pub fn decide(&self, outcomes: &Vec<Result<bool, CertificateError>>, now: &Timestamp) -> (r:
        Result<(), PolicyError>)
        ensures
            r == decision(self@, outcomes@, *now),
    {
        let role = self.signed.standing_root(now)?;
        let mut valid: Vec<bool> = Vec::new();
        let mut i: usize = 0;
        while i < outcomes.len()
            invariant
                i <= outcomes.len(),
                standing(self@.signed, *now) == Ok::<RoleKeysModel, PolicyError>(role@),
                valid.len() == i,
                forall|j: int| 0 <= j < i ==> (#[trigger] outcomes[j]) is Ok,
                forall|j: int| 0 <= j < i ==> #[trigger] valid[j] == accepted(outcomes@)[j],
            decreases outcomes.len() - i,
        {
            match outcomes[i] {
                Err(e) => {
                    proof {
                        assert(outcomes@[i as int] is Err);
                        assert(first_error(outcomes@) == i);
                    }
                    return Err(PolicyError::Certificate(e));
                },
                Ok(found) => {
                    valid.push(found);
                },
            }
            i += 1;
        }
        proof {
            assert(valid@ =~= accepted(outcomes@));
        }
        tally(role, &self.signatures, &valid)
    }

    /// Decides on the policy, whose signatures were made over `message`:
    /// checks each signature with the key of its own certificate, and
    /// counts the distinct listed keys that signed. A policy that does not
    /// stand at `now` is rejected before any signature is looked at.
    pub fn evaluate(&self, message: &[u8], now: &Timestamp) -> (r: Result<(), PolicyError>)
        ensures
            r == judgement(self@, message@, *now),
    {
        if let Err(e) = self.signed.standing_root(now) {
            return Err(e);
        }
        let mut found: Vec<Result<bool, CertificateError>> = Vec::new();
        let mut i: usize = 0;
        while i < self.signatures.len()
            invariant
                i <= self.signatures.len(),
                found.len() == i,
                forall|j: int|
                    0 <= j < i ==> #[trigger] found[j] == outcome(self@.signatures[j], message@),
            decreases self.signatures.len() - i,
        {
            assert(self@.signatures[i as int] == self.signatures[i as int]@);
            found.push(self.signatures[i].check(message));
            i += 1;
        }
        proof {
            assert(found@ =~= outcomes(self@.signatures, message@));
        }
        self.decide(&found, now)
    }
}

impl Signature {
    /// Checks the entry against `message`: whether the key of its
    /// certificate accepts its signature, or why the certificate yields no
    /// key.
    pub fn check(&self, message: &[u8]) -> (r: Result<bool, CertificateError>)
        ensures
            r == outcome(self@, message@),
    {
        let key = self.extract_pub_key()?;
        Ok(self.verify_signature(&key, message).is_ok())
    }
}

/// The verdict on the document `doc` at `now`: the signed body where the
/// document is trusted, and else the reason why it is not. A document that
/// does not decode is rejected before anything else is looked at. The
/// signatures are checked against the bytes of `signed` as they stand in
/// `doc`.
pub open spec fn verdict(doc: Seq<u8>, now: Timestamp) -> Result<SignedModel, PolicyError> {
    match RawPolicy::of_document(doc) {
        Err(e) => Err(PolicyError::Parse(e)),
        Ok(raw) => match Policy::of_document(doc) {
            Err(e) => Err(PolicyError::Parse(e)),
            Ok(policy) => match judgement(policy, raw.signed, now) {
                Err(e) => Err(e),
                Ok(_) => Ok(policy.signed),
            },
        },
    }
}

/// Gives the verdict on the document `doc` at `now`.
pub fn evaluate_document(doc: &[u8], now: &Timestamp) -> (r: Result<Signed, PolicyError>)
    ensures
        modelled(r) == verdict(doc@, *now),
        r matches Ok(signed) ==> signed.wf(),
{
    let raw = match RawPolicy::split(doc) {
        Ok(raw) => raw,
        Err(e) => return Err(PolicyError::Parse(e)),
    };
    let policy = match Policy::decode(doc) {
        Ok(policy) => policy,
        Err(e) => return Err(PolicyError::Parse(e)),
    };
    match policy.evaluate(raw.signed.as_slice(), now) {
        Ok(_) => Ok(policy.signed),
        Err(e) => Err(e),
    }
}

/// A policy whose `expires` does not come after `now` is rejected as
/// expired, whatever its signatures are.
pub proof fn lemma_expired_is_rejected(
    policy: PolicyModel,
    outcomes: Seq<Result<bool, CertificateError>>,
    now: Timestamp,
)
    requires
        !now.is_before(policy.signed.expires),
    ensures
        decision(policy, outcomes, now) == Err::<(), PolicyError>(PolicyError::Expired),
{
}

/// A document that decodes and whose `expires` does not come after `now`
/// is rejected as expired.
pub proof fn lemma_expired_document_is_rejected(doc: Seq<u8>, now: Timestamp)
    requires
        RawPolicy::of_document(doc) is Ok,
        Policy::of_document(doc) matches Ok(policy) && !now.is_before(policy.signed.expires),
    ensures
        verdict(doc, now) == Err::<SignedModel, PolicyError>(PolicyError::Expired),
{
}

/// A policy is trusted only if it has not expired, every certificate
/// yields a key, and at least as many distinct keys of the root role
/// signed it as the role's threshold asks for, which is at least one.
pub proof fn lemma_trusted_is_signed(
    policy: PolicyModel,
    outcomes: Seq<Result<bool, CertificateError>>,
    now: Timestamp,
)
    requires
        decision(policy, outcomes, now) is Ok,
    ensures
        now.is_before(policy.signed.expires),
        policy.signed.roles.contains_key(RoleType::Root.name()),
        forall|i: int| 0 <= i < outcomes.len() ==> (#[trigger] outcomes[i]) is Ok,
        signers(
            policy.signed.roles[RoleType::Root.name()].keyids,
            policy.signatures,
            accepted(outcomes),
        ).len() >= policy.signed.roles[RoleType::Root.name()].threshold,
        policy.signed.roles[RoleType::Root.name()].threshold >= 1,
{
}

/// The signers do not depend on the order of the signatures, nor on how
/// often a key signed: two lists of signatures in which the same key ids
/// have a valid signature have the same signers.
pub proof fn lemma_signers_ignore_order(
    keyids: Seq<Seq<char>>,
    first: Seq<SignatureModel>,
    first_valid: Seq<bool>,
    second: Seq<SignatureModel>,
    second_valid: Seq<bool>,
)
    requires
        forall|id: Seq<char>|
            has_valid_signature(first, first_valid, id) <==> has_valid_signature(
                second,
                second_valid,
                id,
            ),
    ensures
        signers(keyids, first, first_valid) == signers(keyids, second, second_valid),
{
    let a = signers(keyids, first, first_valid);
    let b = signers(keyids, second, second_valid);
    assert forall|id: Seq<char>| a.contains(id) <==> b.contains(id) by {
        if a.contains(id) {
            assert(has_valid_signature(first, first_valid, id));
            assert(has_valid_signature(second, second_valid, id));
        }
        if b.contains(id) {
            assert(has_valid_signature(second, second_valid, id));
            assert(has_valid_signature(first, first_valid, id));
        }
    }
    assert(a =~= b);
}

/// Whether `entry`, with the outcome `found`, is one of `list`, with the
/// same outcome in `outcomes`.
pub open spec fn is_among(
    entry: SignatureModel,
    found: Result<bool, CertificateError>,
    list: Seq<SignatureModel>,
    outcomes: Seq<Result<bool, CertificateError>>,
) -> bool {
    exists|j: int| 0 <= j < list.len() && (#[trigger] list[j]) == entry && outcomes[j] == found
}

/// Every one of `first`, with what checking it came to, is also one of
/// `second`, with the same outcome.
pub open spec fn each_is_among(
    first: Seq<SignatureModel>,
    first_outcomes: Seq<Result<bool, CertificateError>>,
    second: Seq<SignatureModel>,
    second_outcomes: Seq<Result<bool, CertificateError>>,
) -> bool {
    forall|i: int|
        0 <= i < first.len() ==> #[trigger] is_among(
            first[i],
            first_outcomes[i],
            second,
            second_outcomes,
        )
}

/// The decision does not depend on the order of the signatures, nor on
/// how often one of them stands in the list: two lists that hold the same
/// checked signatures are trusted alike, and are rejected alike as expired,
/// as short of the threshold, or for a certificate. Which certificate's
/// error is named is that of the first in the list, and so does depend on
/// the order.
pub proof fn lemma_decision_ignores_order(
    signed: SignedModel,
    first: Seq<SignatureModel>,
    first_outcomes: Seq<Result<bool, CertificateError>>,
    second: Seq<SignatureModel>,
    second_outcomes: Seq<Result<bool, CertificateError>>,
    now: Timestamp,
)
    requires
        first_outcomes.len() == first.len(),
        second_outcomes.len() == second.len(),
        each_is_among(first, first_outcomes, second, second_outcomes),
        each_is_among(second, second_outcomes, first, first_outcomes),
    ensures
        ({
            let a = decision(PolicyModel { signatures: first, signed }, first_outcomes, now);
            let b = decision(PolicyModel { signatures: second, signed }, second_outcomes, now);
            &&& a is Ok <==> b is Ok
            &&& a == Err::<(), PolicyError>(PolicyError::Expired) <==> b == Err::<(), PolicyError>(
                PolicyError::Expired,
            )
            &&& a == Err::<(), PolicyError>(PolicyError::Threshold) <==> b == Err::<
                (),
                PolicyError,
            >(PolicyError::Threshold)
            &&& (a matches Err(PolicyError::Certificate(_))) <==> (b matches Err(
                PolicyError::Certificate(_),
            ))
        }),
{
    if let Ok(role) = standing(signed, now) {
        lemma_among_keeps(first, first_outcomes, second, second_outcomes);
        lemma_among_keeps(second, second_outcomes, first, first_outcomes);
        lemma_signers_ignore_order(
            role.keyids,
            first,
            accepted(first_outcomes),
            second,
            accepted(second_outcomes),
        );
    }
}

/// Where every one of `first` is among `second`, an error among the
/// outcomes of `first` is one among those of `second`, and a key id with a
/// valid signature in `first` has one in `second`.
proof fn lemma_among_keeps(
    first: Seq<SignatureModel>,
    first_outcomes: Seq<Result<bool, CertificateError>>,
    second: Seq<SignatureModel>,
    second_outcomes: Seq<Result<bool, CertificateError>>,
)
    requires
        first_outcomes.len() == first.len(),
        second_outcomes.len() == second.len(),
        each_is_among(first, first_outcomes, second, second_outcomes),
    ensures
        (exists|i: int| 0 <= i < first_outcomes.len() && (#[trigger] first_outcomes[i]) is Err)
            ==> (exists|j: int|
            0 <= j < second_outcomes.len() && (#[trigger] second_outcomes[j]) is Err),
        forall|id: Seq<char>|
            has_valid_signature(first, accepted(first_outcomes), id) ==> has_valid_signature(
                second,
                accepted(second_outcomes),
                id,
            ),
{
    if exists|i: int| 0 <= i < first_outcomes.len() && (#[trigger] first_outcomes[i]) is Err {
        let i = choose|i: int| 0 <= i < first_outcomes.len() && (#[trigger] first_outcomes[i]) is Err;
        assert(is_among(first[i], first_outcomes[i], second, second_outcomes));
        let j = choose|j: int|
            0 <= j < second.len() && (#[trigger] second[j]) == first[i] && second_outcomes[j]
                == first_outcomes[i];
        assert(second_outcomes[j] is Err);
    }
    assert forall|id: Seq<char>|
        has_valid_signature(first, accepted(first_outcomes), id) implies has_valid_signature(
        second,
        accepted(second_outcomes),
        id,
    ) by {
        let i = choose|i: int|
            0 <= i < first.len() && is_valid(accepted(first_outcomes), i) && (
            #[trigger] first[i]).keyid == id;
        assert(is_among(first[i], first_outcomes[i], second, second_outcomes));
        let j = choose|j: int|
            0 <= j < second.len() && (#[trigger] second[j]) == first[i] && second_outcomes[j]
                == first_outcomes[i];
        assert(is_valid(accepted(second_outcomes), j));
        assert(second[j].keyid == id);
    }
}

} // verus!
