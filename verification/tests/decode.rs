use root_policy::decode::FromJson;
use root_policy::error::{Field, ParseError};
use root_policy::key::{Key, SigstoreOidcKey};
use root_policy::policy::{Policy, RawPolicy};
use root_policy::role::{RoleKeys, RoleType, UnknownRoleType};
use root_policy::signature::Signature;
use root_policy::signed::Signed;
use root_policy::time::Timestamp;
use std::convert::TryFrom;

const KEY: &str = r#"{"keytype": "sigstore-oidc", "keyval": {"identity": "a@example.com", "issuer": "https://example.com"}, "scheme": "https://fulcio.sigstore.dev"}"#;

fn signed_with(version: &str, threshold: &str, keytype: &str, expires: &str) -> String {
    format!(
        r#"{{
  "consistent_snapshot": true,
  "expires": {expires},
  "keys": {{"k1": {{"keytype": {keytype}, "keyval": {{"identity": "a@example.com", "issuer": "https://example.com"}}, "scheme": "s", "extra": {{"anything": [1, 2.5, null]}}}}}},
  "namespace": "ns",
  "roles": {{"Root": {{"keyids": ["k1", "k2"], "threshold": {threshold}}}, "other": {{"keyids": [], "threshold": 3}}}},
  "spec_version": "1.0",
  "version": {version}
}}"#
    )
}

fn good_signed() -> String {
    signed_with("7", "2", "\"sigstore-oidc\"", "\"2021-12-18T13:28:12.99008-06:00\"")
}

#[test]
fn role_type_reads_its_name() {
    assert_eq!(RoleType::try_from("Root"), Ok(RoleType::Root));
    assert_eq!(RoleType::Root.to_string(), "Root");
    assert_eq!(RoleType::try_from(RoleType::Root.to_string().as_str()), Ok(RoleType::Root));
}

#[test]
fn unknown_role_type_fails() {
    for name in ["root", "ROOT", "", "Root ", " Root", "Targets", "Roo", "Roott"] {
        let error = RoleType::try_from(name).unwrap_err();
        assert_eq!(error, UnknownRoleType { name });
        assert_eq!(error.kind(), ParseError::UnknownRoleType);
        assert_eq!(error.to_string(), format!("Unknown RoleType: {}", name));
    }
}

#[test]
fn unknown_role_type_error_names_the_text() {
    let error = RoleType::try_from("Targets").unwrap_err();
    assert_eq!(error.to_string(), "Unknown RoleType: Targets");
    assert_eq!(RoleType::try_from("").unwrap_err().to_string(), "Unknown RoleType: ");
}

#[test]
fn a_count_is_never_zero() {
    assert_eq!(root_policy::count::NonZeroU64::new(0), None);
    assert_eq!(root_policy::count::NonZeroU64::new(1).unwrap().get(), 1);
    assert_eq!(root_policy::count::NonZeroU64::new(u64::MAX).unwrap().get(), u64::MAX);
}

#[test]
fn key_reads_its_keytype() {
    let key = Key::decode(KEY.as_bytes()).unwrap();
    assert_eq!(key.keytype(), "sigstore-oidc");
    assert_eq!(
        key,
        Key::SigstoreOidc {
            keyval: SigstoreOidcKey {
                identity: "a@example.com".to_string(),
                issuer: "https://example.com".to_string(),
            },
            scheme: "https://fulcio.sigstore.dev".to_string(),
        }
    );
}

#[test]
fn unknown_keytype_fails() {
    for keytype in ["ed25519", "Sigstore-Oidc", "sigstore_oidc", "", "sigstore-oidc "] {
        let doc = KEY.replace("\"sigstore-oidc\"", &format!("\"{}\"", keytype));
        assert_eq!(Key::decode(doc.as_bytes()), Err(ParseError::UnknownKeyType));
    }
}

#[test]
fn key_without_keytype_fails() {
    let doc = r#"{"keyval": {"identity": "a", "issuer": "b"}, "scheme": "s"}"#;
    assert_eq!(Key::decode(doc.as_bytes()), Err(ParseError::Missing(Field::KeyType)));
    let doc = r#"{"keytype": 5, "keyval": {"identity": "a", "issuer": "b"}, "scheme": "s"}"#;
    assert_eq!(Key::decode(doc.as_bytes()), Err(ParseError::Invalid(Field::KeyType)));
    assert_eq!(Key::decode(b"[]"), Err(ParseError::Invalid(Field::Key)));
}

#[test]
fn key_members_are_required() {
    let doc = r#"{"keytype": "sigstore-oidc", "scheme": "s"}"#;
    assert_eq!(Key::decode(doc.as_bytes()), Err(ParseError::Missing(Field::KeyVal)));
    let doc = r#"{"keytype": "sigstore-oidc", "keyval": "x", "scheme": "s"}"#;
    assert_eq!(Key::decode(doc.as_bytes()), Err(ParseError::Invalid(Field::KeyVal)));
    let doc = r#"{"keytype": "sigstore-oidc", "keyval": {"issuer": "b"}, "scheme": "s"}"#;
    assert_eq!(Key::decode(doc.as_bytes()), Err(ParseError::Missing(Field::Identity)));
    let doc = r#"{"keytype": "sigstore-oidc", "keyval": {"identity": "a"}, "scheme": "s"}"#;
    assert_eq!(Key::decode(doc.as_bytes()), Err(ParseError::Missing(Field::Issuer)));
    let doc = r#"{"keytype": "sigstore-oidc", "keyval": {"identity": "a", "issuer": "b"}}"#;
    assert_eq!(Key::decode(doc.as_bytes()), Err(ParseError::Missing(Field::Scheme)));
}

#[test]
fn signed_body_decodes() {
    let signed = Signed::decode(good_signed().as_bytes()).unwrap();
    assert!(signed.consistent_snapshot);
    // 2021-12-18T13:28:12.99008-06:00 is 2021-12-18T19:28:12.99008Z.
    assert_eq!(signed.expires, Timestamp { secs: 1_639_855_692, nanos: 990_080_000 });
    assert_eq!(signed.namespace, "ns");
    assert_eq!(signed.spec_version, "1.0");
    assert_eq!(signed.version.get(), 7);
    assert_eq!(signed.keys.len(), 1);
    assert_eq!(signed.key("k1").unwrap().keytype(), "sigstore-oidc");
    assert!(signed.key("k2").is_none());
    assert_eq!(signed.roles.len(), 2);
    let root = signed.role("Root").unwrap();
    assert_eq!(root.keyids, vec!["k1".to_string(), "k2".to_string()]);
    assert_eq!(root.threshold.get(), 2);
    assert_eq!(signed.role("other").unwrap().threshold.get(), 3);
    assert!(signed.role("root").is_none());
}

#[test]
fn version_zero_is_rejected() {
    let doc = signed_with("0", "1", "\"sigstore-oidc\"", "\"2030-01-01T00:00:00Z\"");
    assert_eq!(Signed::decode(doc.as_bytes()), Err(ParseError::Invalid(Field::Version)));
}

#[test]
fn threshold_zero_is_rejected() {
    let doc = signed_with("1", "0", "\"sigstore-oidc\"", "\"2030-01-01T00:00:00Z\"");
    assert_eq!(Signed::decode(doc.as_bytes()), Err(ParseError::Invalid(Field::Threshold)));
    assert_eq!(
        RoleKeys::decode(br#"{"keyids": ["a"], "threshold": 0}"#),
        Err(ParseError::Invalid(Field::Threshold))
    );
}

#[test]
fn counts_must_be_unsigned_integers() {
    for version in ["-1", "1.0", "1e0", "\"1\"", "null", "18446744073709551616", "true"] {
        let doc = signed_with(version, "1", "\"sigstore-oidc\"", "\"2030-01-01T00:00:00Z\"");
        assert_eq!(Signed::decode(doc.as_bytes()), Err(ParseError::Invalid(Field::Version)));
    }
    let doc = signed_with("18446744073709551615", "1", "\"sigstore-oidc\"", "\"2030-01-01T00:00:00Z\"");
    assert_eq!(Signed::decode(doc.as_bytes()).unwrap().version.get(), u64::MAX);
}

#[test]
fn unknown_keytype_in_a_signed_body_is_rejected() {
    let doc = signed_with("1", "1", "\"rsa\"", "\"2030-01-01T00:00:00Z\"");
    assert_eq!(Signed::decode(doc.as_bytes()), Err(ParseError::UnknownKeyType));
}

#[test]
fn expires_must_be_an_instant() {
    for expires in ["\"tomorrow\"", "\"2030-13-01T00:00:00Z\"", "1893456000", "\"\"", "null"] {
        let doc = signed_with("1", "1", "\"sigstore-oidc\"", expires);
        assert_eq!(Signed::decode(doc.as_bytes()), Err(ParseError::Invalid(Field::Expires)));
    }
}

#[test]
fn signed_members_are_required() {
    let good = good_signed();
    let cases = [
        ("\"consistent_snapshot\"", Field::ConsistentSnapshot),
        ("\"expires\"", Field::Expires),
        ("\"keys\"", Field::Keys),
        ("\"namespace\"", Field::Namespace),
        ("\"roles\"", Field::Roles),
        ("\"spec_version\"", Field::SpecVersion),
        ("\"version\"", Field::Version),
    ];
    for (name, field) in cases {
        let doc = good.replacen(name, "\"renamed\"", 1);
        assert_eq!(Signed::decode(doc.as_bytes()), Err(ParseError::Missing(field)));
    }
    assert_eq!(Signed::decode(b"3"), Err(ParseError::Invalid(Field::Signed)));
}

#[test]
fn role_decodes() {
    let role = RoleKeys::decode(br#" { "threshold" : 3, "keyids" : [ "a", "b\u0041\n" ] } "#).unwrap();
    assert_eq!(role.threshold.get(), 3);
    assert_eq!(role.keyids, vec!["a".to_string(), "bA\n".to_string()]);
    assert_eq!(
        RoleKeys::decode(br#"{"keyids": ["a", 1], "threshold": 1}"#),
        Err(ParseError::Invalid(Field::KeyIds))
    );
    assert_eq!(
        RoleKeys::decode(br#"{"keyids": "a", "threshold": 1}"#),
        Err(ParseError::Invalid(Field::KeyIds))
    );
    assert_eq!(RoleKeys::decode(br#"{"threshold": 1}"#), Err(ParseError::Missing(Field::KeyIds)));
    assert_eq!(RoleKeys::decode(br#"{"keyids": []}"#), Err(ParseError::Missing(Field::Threshold)));
    assert_eq!(RoleKeys::decode(b"null"), Err(ParseError::Invalid(Field::Role)));
}

#[test]
fn signature_entry_decodes() {
    let entry = Signature::decode(br#"{"keyid": "ab\"c", "sig": "c2ln", "cert": "Y2VydA==", "more": 1}"#).unwrap();
    assert_eq!(entry.keyid, "ab\"c");
    assert_eq!(entry.sig, "c2ln");
    assert_eq!(entry.cert, "Y2VydA==");
    assert_eq!(
        Signature::decode(br#"{"sig": "", "cert": ""}"#),
        Err(ParseError::Missing(Field::KeyId))
    );
    assert_eq!(
        Signature::decode(br#"{"keyid": "", "cert": ""}"#),
        Err(ParseError::Missing(Field::Sig))
    );
    assert_eq!(
        Signature::decode(br#"{"keyid": "", "sig": ""}"#),
        Err(ParseError::Missing(Field::Cert))
    );
    assert_eq!(
        Signature::decode(br#"{"keyid": "", "sig": [], "cert": ""}"#),
        Err(ParseError::Invalid(Field::Sig))
    );
    assert_eq!(Signature::decode(b"\"x\""), Err(ParseError::Invalid(Field::Signature)));
}

#[test]
fn policy_decodes_both_halves() {
    let doc = format!(
        r#"{{"signed": {}, "signatures": [{{"keyid": "k1", "sig": "s1", "cert": "c1"}}, {{"keyid": "k2", "sig": "s2", "cert": "c2"}}]}}"#,
        good_signed()
    );
    let policy = Policy::decode(doc.as_bytes()).unwrap();
    assert_eq!(policy.signatures.len(), 2);
    assert_eq!(policy.signatures[0].keyid, "k1");
    assert_eq!(policy.signatures[1].cert, "c2");
    assert_eq!(policy.signed, Signed::decode(good_signed().as_bytes()).unwrap());
}

#[test]
fn policy_errors_name_the_place() {
    let signed = good_signed();
    assert_eq!(Policy::decode(b""), Err(ParseError::Invalid(Field::Document)));
    assert_eq!(Policy::decode(b"[1, 2]"), Err(ParseError::Invalid(Field::Document)));
    assert_eq!(Policy::decode(b"{\"signed\": {} "), Err(ParseError::Invalid(Field::Document)));
    assert_eq!(
        Policy::decode(format!(r#"{{"signed": {}}}"#, signed).as_bytes()),
        Err(ParseError::Missing(Field::Signatures))
    );
    assert_eq!(
        Policy::decode(format!(r#"{{"signed": {}, "signatures": {{}}}}"#, signed).as_bytes()),
        Err(ParseError::Invalid(Field::Signatures))
    );
    assert_eq!(
        Policy::decode(format!(r#"{{"signed": {}, "signatures": [1]}}"#, signed).as_bytes()),
        Err(ParseError::Invalid(Field::Signature))
    );
    assert_eq!(
        Policy::decode(br#"{"signatures": []}"#),
        Err(ParseError::Missing(Field::Signed))
    );
    assert_eq!(
        Policy::decode(br#"{"signatures": [], "signed": []}"#),
        Err(ParseError::Invalid(Field::Signed))
    );
    assert_eq!(
        Policy::decode(br#"{"signatures": [{"keyid": "a", "sig": "b"}, 7], "signed": []}"#),
        Err(ParseError::Missing(Field::Cert))
    );
}

#[test]
fn split_keeps_the_bytes_as_they_stand() {
    let doc = b"  {\"signatures\" :\t[ 1 ,2 ]  ,\n \"signed\":   { \"b\" : 1.50,\"a\":\"\\u00e9\" , \"a\": [ ] }\n , \"x\": null } ";
    let raw = RawPolicy::split(doc).unwrap();
    assert_eq!(raw.signatures, b"[ 1 ,2 ]");
    assert_eq!(raw.signed, b"{ \"b\" : 1.50,\"a\":\"\\u00e9\" , \"a\": [ ] }");
    assert_eq!(&doc[18..26], &raw.signatures[..]);
    assert_eq!(&doc[43..43 + raw.signed.len()], &raw.signed[..]);
}

#[test]
fn split_names_the_missing_half() {
    assert_eq!(RawPolicy::split(b"{\"signed\": 1}"), Err(ParseError::Missing(Field::Signatures)));
    assert_eq!(RawPolicy::split(b"{\"signatures\": 1}"), Err(ParseError::Missing(Field::Signed)));
    assert_eq!(RawPolicy::split(b"{}"), Err(ParseError::Missing(Field::Signatures)));
    assert_eq!(RawPolicy::split(b"{\"signed\": 1,}"), Err(ParseError::Invalid(Field::Document)));
    assert_eq!(RawPolicy::split(b"\"signed\""), Err(ParseError::Invalid(Field::Document)));
}

#[test]
fn repeated_member_counts_once_with_its_last_value() {
    let role = RoleKeys::decode(br#"{"threshold": 5, "keyids": [], "threshold": 2}"#).unwrap();
    assert_eq!(role.threshold.get(), 2);
    let doc = good_signed().replacen("\"k1\": {", "\"k1\": {\"keytype\": \"unknown\"}, \"k1\": {", 1);
    let signed = Signed::decode(doc.as_bytes()).unwrap();
    assert_eq!(signed.keys.len(), 1);
    assert_eq!(signed.key("k1").unwrap().keytype(), "sigstore-oidc");
}

#[test]
fn decoded_names_stand_once_and_in_order() {
    let doc = good_signed().replacen(
        "\"roles\": {",
        "\"roles\": {\"zeta\": {\"keyids\": [], \"threshold\": 1}, \"alpha\": {\"keyids\": [], \"threshold\": 1}, ",
        1,
    );
    let signed = Signed::decode(doc.as_bytes()).unwrap();
    let names: Vec<&str> = signed.roles.iter().map(|(name, _)| name.as_str()).collect();
    assert_eq!(names, vec!["Root", "alpha", "other", "zeta"]);
}
