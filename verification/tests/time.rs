use chrono::DateTime;
use root_policy::json::read_bool;
use root_policy::key::{Key, SigstoreOidcKey};
use root_policy::count::NonZeroU64;
use root_policy::error::PolicyError;
use root_policy::policy::Policy;
use root_policy::role::RoleKeys;
use root_policy::signed::Signed;
use root_policy::time::{Duration, Timestamp};

fn instants() -> Vec<Timestamp> {
    let mut all = Vec::new();
    let seconds = [
        -86_401, -86_400, -86_399, -61, -60, -1, 0, 1, 58, 59, 60, 61, 119, 3_599, 86_339, 86_398,
        86_399, 86_400, 86_401, 86_459, 172_799, 172_800, 1_483_228_799, 1_483_228_800,
    ];
    let nanos = [
        0, 1, 100_000_000, 999_999_999, 1_000_000_000, 1_000_000_001, 1_500_000_000,
        1_900_000_000, 1_999_999_999,
    ];
    for secs in seconds {
        for n in nanos {
            if let Some(instant) = Timestamp::new(secs, n) {
                all.push(instant);
            }
        }
    }
    all
}

fn in_chrono(instant: &Timestamp) -> DateTime<chrono::Utc> {
    DateTime::from_timestamp(instant.secs, instant.nanos).expect("an instant of chrono")
}

#[test]
fn span_is_what_chrono_gives() {
    let all = instants();
    assert!(all.len() > 150);
    for a in &all {
        for b in &all {
            let theirs = in_chrono(a).signed_duration_since(in_chrono(b));
            let expected =
                theirs.num_seconds() as i128 * 1_000_000_000 + theirs.subsec_nanos() as i128;
            assert_eq!(a.since(b).nanos, expected, "{:?} since {:?}", a, b);
        }
    }
}

#[test]
fn order_is_what_chrono_gives() {
    let all = instants();
    for a in &all {
        for b in &all {
            assert_eq!(a.comes_before(b), in_chrono(a) < in_chrono(b), "{:?} before {:?}", a, b);
        }
    }
}

#[test]
fn an_instant_is_one_of_chrono() {
    for secs in [-61i64, -60, -1, 0, 1, 58, 59, 60, 119, 86_399, 86_400] {
        for nanos in [0u32, 999_999_999, 1_000_000_000, 1_999_999_999, 2_000_000_000, u32::MAX] {
            assert_eq!(
                Timestamp::new(secs, nanos).is_some(),
                DateTime::from_timestamp(secs, nanos).is_some(),
                "{} s {} ns",
                secs,
                nanos
            );
        }
    }
    assert_eq!(Timestamp::new(59, 1_500_000_000), Some(Timestamp { secs: 59, nanos: 1_500_000_000 }));
    assert_eq!(Timestamp::new(-1, 1_500_000_000), Some(Timestamp { secs: -1, nanos: 1_500_000_000 }));
    assert_eq!(Timestamp::new(60, 1_000_000_000), None);
    assert_eq!(Timestamp::new(59, 2_000_000_000), None);
}

#[test]
fn span_between_instants_is_in_nanoseconds() {
    let a = Timestamp { secs: 10, nanos: 5 };
    let b = Timestamp { secs: 7, nanos: 999_999_999 };
    assert_eq!(a.since(&b), Duration { nanos: 2_000_000_006 });
    assert_eq!(b.since(&a), Duration { nanos: -2_000_000_006 });
    assert_eq!(a.since(&a), Duration { nanos: 0 });
    let far = Timestamp { secs: i64::MAX, nanos: 999_999_999 };
    let near = Timestamp { secs: i64::MIN, nanos: 0 };
    assert_eq!(
        far.since(&near).nanos,
        (i64::MAX as i128 - i64::MIN as i128) * 1_000_000_000 + 999_999_999
    );
    assert!(near.since(&far).is_negative());
    assert!(far.since(&near).is_positive());
}

#[test]
fn span_counts_a_leap_second() {
    let before = Timestamp { secs: 59, nanos: 0 };
    let leap = Timestamp { secs: 59, nanos: 1_900_000_000 };
    let after = Timestamp { secs: 60, nanos: 100_000_000 };
    assert_eq!(leap.since(&before).nanos, 1_900_000_000);
    assert_eq!(leap.since(&after).nanos, -200_000_000);
    assert_eq!(after.since(&leap).nanos, 200_000_000);
    assert_eq!(after.since(&before).nanos, 1_100_000_000);
    assert!(leap.comes_before(&after));
    assert!(before.comes_before(&leap));
    assert!(!after.comes_before(&leap));
    assert!(!leap.comes_before(&leap));
}

fn policy_expiring(expires: Timestamp) -> Policy {
    Policy {
        signatures: vec![],
        signed: Signed {
            consistent_snapshot: false,
            expires,
            keys: vec![(
                "a".to_string(),
                Key::SigstoreOidc {
                    keyval: SigstoreOidcKey { identity: "i".to_string(), issuer: "j".to_string() },
                    scheme: "s".to_string(),
                },
            )],
            namespace: "ns".to_string(),
            roles: vec![(
                "Root".to_string(),
                RoleKeys { keyids: vec!["a".to_string()], threshold: NonZeroU64::new(1).unwrap() },
            )],
            spec_version: "1".to_string(),
            version: NonZeroU64::new(1).unwrap(),
        },
    }
}

#[test]
fn policy_expiring_in_a_leap_second_has_expired_after_it() {
    let policy = policy_expiring(Timestamp { secs: 59, nanos: 1_900_000_000 });
    let now = Timestamp { secs: 60, nanos: 100_000_000 };
    let left = policy.validate_expires(&now);
    assert_eq!(left.nanos, -200_000_000);
    assert!(left.is_negative());
    assert_eq!(policy.decide(&vec![], &now), Err(PolicyError::Expired));
    assert_eq!(policy.evaluate(b"", &now), Err(PolicyError::Expired));
    let earlier = Timestamp { secs: 59, nanos: 1_899_999_999 };
    assert_eq!(policy.validate_expires(&earlier).nanos, 1);
    assert_eq!(policy.decide(&vec![], &earlier), Err(PolicyError::Threshold));
}

#[test]
fn expiry_goes_by_the_order_of_instants_across_a_leap_second_at_midnight() {
    let policy = policy_expiring(Timestamp { secs: 86_399, nanos: 1_900_000_000 });
    let midnight = Timestamp { secs: 86_400, nanos: 0 };
    assert_eq!(policy.validate_expires(&midnight).nanos, 900_000_000);
    assert_eq!(policy.decide(&vec![], &midnight), Err(PolicyError::Expired));
    let until_midnight = policy_expiring(midnight);
    let in_leap = Timestamp { secs: 86_399, nanos: 1_900_000_000 };
    assert_eq!(until_midnight.validate_expires(&in_leap).nanos, -900_000_000);
    assert_eq!(until_midnight.decide(&vec![], &in_leap), Err(PolicyError::Threshold));
}

#[test]
fn leap_second_in_a_document_is_kept() {
    let doc = br#"{"consistent_snapshot": false, "expires": "2016-12-31T23:59:60.9Z", "keys": {}, "namespace": "n", "roles": {}, "spec_version": "1", "version": 1}"#;
    let signed = <Signed as root_policy::decode::FromJson>::decode(doc).unwrap();
    assert_eq!(signed.expires, Timestamp { secs: 1_483_228_799, nanos: 1_900_000_000 });
    let parsed: DateTime<chrono::Utc> = "2016-12-31T23:59:60.9Z".parse().unwrap();
    assert_eq!(in_chrono(&signed.expires), parsed);
    let after = Timestamp { secs: 1_483_228_799, nanos: 1_950_000_000 };
    assert_eq!(signed.expires.since(&after).nanos, -50_000_000);
    assert!(signed.expires.comes_before(&after));
}

#[test]
fn boolean_is_what_serde_json_reads() {
    let cases: [&[u8]; 30] = [
        b"true", b"false", b" true", b"true ", b"\t\r\n true \n", b"  false\t", b"", b" ", b"\n",
        b"True", b"TRUE", b"tru", b"truee", b"true1", b"t rue", b"true false", b"false,",
        b"\"true\"", b"1", b"0", b"null", b"fals", b"falsee", b"\x0btrue", b"true\x0c",
        b"\xc2\xa0true", b"true\x00", b"[true]", b"truetrue", b" \t\n\rfalse\r\n\t ",
    ];
    for doc in cases {
        assert_eq!(read_bool(doc), serde_json::from_slice::<bool>(doc).ok(), "{:?}", doc);
    }
    assert_eq!(read_bool(b" true\n"), Some(true));
    assert_eq!(read_bool(b"\tfalse "), Some(false));
    assert_eq!(read_bool(b"yes"), None);
}
