use root_policy::count::NonZeroU64;
use root_policy::error::{CertificateError, PolicyError};
use root_policy::key::{Key, SigstoreOidcKey};
use root_policy::policy::Policy;
use root_policy::role::RoleKeys;
use root_policy::signature::Signature;
use root_policy::signed::Signed;
use root_policy::threshold::{contains_text, count_signers};
use root_policy::time::Timestamp;
use root_policy::evaluate::tally;

fn texts(items: &[&str]) -> Vec<String> {
    items.iter().map(|s| s.to_string()).collect()
}

fn entries(keyids: &[&str]) -> Vec<Signature> {
    keyids
        .iter()
        .map(|id| Signature { keyid: id.to_string(), sig: String::new(), cert: String::new() })
        .collect()
}

fn count(n: u64) -> NonZeroU64 {
    NonZeroU64::new(n).unwrap()
}

fn key() -> Key {
    Key::SigstoreOidc {
        keyval: SigstoreOidcKey { identity: "i".to_string(), issuer: "j".to_string() },
        scheme: "s".to_string(),
    }
}

fn policy(defined: &[&str], listed: &[&str], threshold: u64, signed_by: &[&str]) -> Policy {
    Policy {
        signatures: entries(signed_by),
        signed: Signed {
            consistent_snapshot: false,
            expires: Timestamp { secs: 100, nanos: 0 },
            keys: defined.iter().map(|id| (id.to_string(), key())).collect(),
            namespace: "ns".to_string(),
            roles: vec![(
                "Root".to_string(),
                RoleKeys { keyids: texts(listed), threshold: count(threshold) },
            )],
            spec_version: "1".to_string(),
            version: count(1),
        },
    }
}

const EARLY: Timestamp = Timestamp { secs: 99, nanos: 0 };

#[test]
fn counts_distinct_listed_valid_keys() {
    let listed = texts(&["a", "b", "c"]);
    let signatures = entries(&["a", "b", "a", "x", "c", "b"]);
    assert_eq!(count_signers(&listed, &signatures, &vec![true; 6]), 3);
    assert_eq!(count_signers(&listed, &signatures, &vec![false; 6]), 0);
    assert_eq!(
        count_signers(&listed, &signatures, &vec![true, false, true, true, false, false]),
        1
    );
    assert_eq!(
        count_signers(&listed, &signatures, &vec![false, false, true, true, false, true]),
        2
    );
}

#[test]
fn count_ignores_order() {
    let listed = texts(&["a", "b", "c"]);
    let forward = entries(&["a", "x", "b"]);
    let backward = entries(&["b", "x", "a"]);
    assert_eq!(count_signers(&listed, &forward, &vec![true, true, false]), 1);
    assert_eq!(count_signers(&listed, &backward, &vec![false, true, true]), 1);
    assert_eq!(count_signers(&listed, &forward, &vec![true, true, true]), 2);
    assert_eq!(count_signers(&listed, &backward, &vec![true, true, true]), 2);
}

#[test]
fn signature_without_a_flag_is_not_valid() {
    let listed = texts(&["a", "b"]);
    let signatures = entries(&["a", "b"]);
    assert_eq!(count_signers(&listed, &signatures, &vec![true]), 1);
    assert_eq!(count_signers(&listed, &signatures, &vec![]), 0);
    assert_eq!(count_signers(&listed, &signatures, &vec![true, true, true]), 2);
}

#[test]
fn nothing_listed_or_nothing_signed_counts_nothing() {
    assert_eq!(count_signers(&texts(&[]), &entries(&["a"]), &vec![true]), 0);
    assert_eq!(count_signers(&texts(&["a"]), &entries(&[]), &vec![]), 0);
    assert_eq!(count_signers(&texts(&["a", "a"]), &entries(&["a"]), &vec![true]), 1);
}

#[test]
fn contains_compares_whole_texts() {
    let list = texts(&["ab", "", "c"]);
    assert!(contains_text(&list, &"ab".to_string()));
    assert!(contains_text(&list, &"".to_string()));
    assert!(!contains_text(&list, &"a".to_string()));
    assert!(!contains_text(&list, &"abc".to_string()));
    assert!(!contains_text(&texts(&[]), &"".to_string()));
}

#[test]
fn tally_compares_with_the_threshold() {
    let role = RoleKeys { keyids: texts(&["a", "b", "c"]), threshold: count(2) };
    let signatures = entries(&["a", "b", "a"]);
    assert_eq!(tally(&role, &signatures, &vec![true, true, true]), Ok(()));
    assert_eq!(tally(&role, &signatures, &vec![true, false, true]), Err(PolicyError::Threshold));
    let one = RoleKeys { keyids: texts(&["a"]), threshold: count(1) };
    assert_eq!(tally(&one, &signatures, &vec![false, false, true]), Ok(()));
    assert_eq!(tally(&one, &signatures, &vec![false, true, false]), Err(PolicyError::Threshold));
}

#[test]
fn decision_follows_the_outcomes() {
    let p = policy(&["a", "b"], &["a", "b"], 2, &["a", "b"]);
    assert_eq!(p.decide(&vec![Ok(true), Ok(true)], &EARLY), Ok(()));
    assert_eq!(p.decide(&vec![Ok(true), Ok(false)], &EARLY), Err(PolicyError::Threshold));
    assert_eq!(p.decide(&vec![Ok(false), Ok(false)], &EARLY), Err(PolicyError::Threshold));
    assert_eq!(
        p.decide(&vec![Ok(true), Err(CertificateError::X509)], &EARLY),
        Err(PolicyError::Certificate(CertificateError::X509))
    );
    assert_eq!(
        p.decide(&vec![Err(CertificateError::Pem), Err(CertificateError::Base64)], &EARLY),
        Err(PolicyError::Certificate(CertificateError::Pem))
    );
}

#[test]
fn decision_puts_expiry_first() {
    let p = policy(&["a"], &["a"], 1, &["a"]);
    let at_expiry = Timestamp { secs: 100, nanos: 0 };
    let after = Timestamp { secs: 100, nanos: 1 };
    let before = Timestamp { secs: 99, nanos: 999_999_999 };
    assert_eq!(p.decide(&vec![Ok(true)], &before), Ok(()));
    assert_eq!(p.decide(&vec![Ok(true)], &at_expiry), Err(PolicyError::Expired));
    assert_eq!(p.decide(&vec![Ok(true)], &after), Err(PolicyError::Expired));
    assert_eq!(p.decide(&vec![Err(CertificateError::Base64)], &after), Err(PolicyError::Expired));
    assert_eq!(p.decide(&vec![Ok(false)], &after), Err(PolicyError::Expired));
}

#[test]
fn root_role_must_be_one_that_can_be_met() {
    let too_high = policy(&["a"], &["a"], 2, &["a"]);
    assert_eq!(too_high.decide(&vec![Ok(true)], &EARLY), Err(PolicyError::Threshold));
    assert_eq!(
        too_high.decide(&vec![Err(CertificateError::Base64)], &EARLY),
        Err(PolicyError::Threshold)
    );
    let undefined = policy(&["a"], &["a", "b"], 1, &["a"]);
    assert_eq!(undefined.decide(&vec![Ok(true)], &EARLY), Err(PolicyError::Threshold));
    let mut no_root = policy(&["a"], &["a"], 1, &["a"]);
    no_root.signed.roles[0].0 = "root".to_string();
    assert_eq!(no_root.decide(&vec![Ok(true)], &EARLY), Err(PolicyError::Threshold));
    assert_eq!(no_root.signed.standing_root(&EARLY), Err(PolicyError::Threshold));
}

#[test]
fn standing_root_is_the_root_role() {
    let p = policy(&["a", "b"], &["b", "a"], 1, &[]);
    let role = p.signed.standing_root(&EARLY).unwrap();
    assert_eq!(role.keyids, texts(&["b", "a"]));
    assert_eq!(role.threshold.get(), 1);
    assert_eq!(
        p.signed.standing_root(&Timestamp { secs: 100, nanos: 0 }),
        Err(PolicyError::Expired)
    );
}

#[test]
fn first_entry_of_a_name_counts() {
    let mut p = policy(&["a", "a"], &["a"], 1, &["a"]);
    p.signed.roles.push(("Root".to_string(), RoleKeys { keyids: texts(&["zz"]), threshold: count(9) }));
    assert_eq!(p.signed.role("Root").unwrap().threshold.get(), 1);
    assert_eq!(p.decide(&vec![Ok(true)], &EARLY), Ok(()));
}

#[test]
fn a_role_without_keys_is_never_met() {
    let p = policy(&[], &[], 1, &[]);
    assert_eq!(p.decide(&vec![], &EARLY), Err(PolicyError::Threshold));
    assert_eq!(p.evaluate(b"", &EARLY), Err(PolicyError::Threshold));
    assert_eq!(p.signed.standing_root(&EARLY), Err(PolicyError::Threshold));
}
