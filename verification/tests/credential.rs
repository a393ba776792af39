//! Holding an API key without leaking it.

use jev_pilot::credential::{ApiKey, CredentialError, KeySource};

#[test]
fn debug_output_never_contains_the_secret() {
    let key = ApiKey::new("ts-live-SUPERSECRET-0123456789").expect("valid key");

    let rendered = key.redacted();

    assert!(!rendered.contains("SUPERSECRET"), "the key leaked: {rendered}");
    assert_eq!(rendered, "ApiKey(<redacted>)");
    assert_eq!(key.expose(), "ts-live-SUPERSECRET-0123456789");
}

#[test]
fn a_blank_key_is_rejected_rather_than_accepted() {
    assert!(matches!(ApiKey::new(""), Err(CredentialError::Empty)));
    assert!(matches!(ApiKey::new("   \n"), Err(CredentialError::Empty)));
}

#[test]
fn surrounding_whitespace_is_trimmed() {
    let key = ApiKey::new("  ts-live-abc \n").expect("valid key");
    assert_eq!(key.expose(), "ts-live-abc");
}

#[test]
fn a_blank_key_file_path_falls_back_instead_of_failing() {
    assert_eq!(
        ApiKey::source_of(Some("   "), Some("ts-live-real")),
        Ok(KeySource::Value("ts-live-real".to_owned()))
    );
    assert_eq!(
        ApiKey::source_of(None, Some("ts-live-real")),
        Ok(KeySource::Value("ts-live-real".to_owned()))
    );
    assert_eq!(
        ApiKey::source_of(Some(" /run/secrets/key "), Some("ts-live-real")),
        Ok(KeySource::File("/run/secrets/key".to_owned()))
    );
    assert_eq!(ApiKey::source_of(None, None), Err(CredentialError::Missing));
}

#[test]
fn every_refusal_explains_itself() {
    assert_eq!(CredentialError::Missing.message(), "set TYPESAFE_API_KEY or TYPESAFE_API_KEY_FILE");
    assert_eq!(CredentialError::Empty.message(), "the configured API key is empty");
    assert_eq!(
        CredentialError::Unreadable { path: "/x".to_owned(), reason: "gone".to_owned() }.message(),
        "cannot read key file /x"
    );
}

#[test]
fn a_blank_credential_is_refused_with_a_message() {
    let Err(error) = ApiKey::new("  ") else {
        panic!("blank is not a credential");
    };
    assert!(matches!(error, CredentialError::Empty));
    assert!(!error.message().is_empty());
    assert!(matches!(ApiKey::new("   \n"), Err(CredentialError::Empty)));
    let key = ApiKey::new("  ts-live-abc \n").expect("a key with something in it");
    assert_eq!(key.expose(), "ts-live-abc");
}
