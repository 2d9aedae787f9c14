use typomorph::licensing::{
    check_license_key, hash_bytes, hash_text, status_from_activation, validate_offline,
    FeatureAccess, LemonLicenseKey, LemonMeta, LemonResponse, LemonSqueezyClient, LicenseError,
    LicenseStatus, LicenseStore, StoredLicense, UreqTransport, DEFAULT_LICENSE_ENDPOINT,
};

fn status_for(key: &str) -> LicenseStatus {
    LicenseStatus {
        active: true,
        license_key_hash: hash_text(key),
        instance_id_hash: None,
        product_id: Some(1),
        variant_id: Some(2),
        expires_at: None,
        checked_at_unix: 1,
    }
}

#[test]
fn offline_validation_and_feature_gates_require_the_same_key() {
    let status = status_for("test-key");
    assert!(validate_offline("test-key", &status));
    assert!(!validate_offline("other-key", &status));
    assert!(!FeatureAccess::from_status(None).developer_mode);
    assert!(FeatureAccess::from_status(Some(&status)).developer_mode);
}

#[test]
fn invalid_or_missing_entitlement_keeps_premium_features_disabled() {
    let access = FeatureAccess::from_status(None);
    assert!(!access.multi_language_profiles);
    assert!(!access.developer_mode);
}

#[test]
fn offline_entitlement_requires_the_original_license_key() {
    let status = LicenseStatus {
        active: true,
        license_key_hash: "not-the-key-hash".to_string(),
        instance_id_hash: None,
        product_id: None,
        variant_id: None,
        expires_at: None,
        checked_at_unix: 0,
    };
    assert!(!validate_offline("test-key", &status));
}

#[test]
fn hashes_are_lowercase_hex_sha256() {
    assert_eq!(
        hash_text("abc"),
        "ba7816bf8f01cfea414140de5dae2223b00361a396177a9cb410ff61f20015ad"
    );
    assert_eq!(
        hash_bytes(b""),
        "e3b0c44298fc1c149afbf4c8996fb92427ae41e4649b934ca495991b7852b855"
    );
}

#[test]
fn blank_keys_never_validate_and_inactive_status_never_unlocks() {
    let status = status_for("   ");
    assert!(!validate_offline("   ", &status));
    let mut inactive = status_for("key");
    inactive.active = false;
    assert!(!validate_offline("key", &inactive));
    assert!(!FeatureAccess::from_status(Some(&inactive)).developer_mode);
}

#[test]
fn activation_refuses_blank_keys() {
    assert!(matches!(check_license_key(" \t"), Err(LicenseError::EmptyKey)));
    assert!(check_license_key("abc").is_ok());
}

#[test]
fn activation_reply_becomes_a_status_that_validates_offline() {
    let response = LemonResponse {
        activated: true,
        error: None,
        license_key: Some(LemonLicenseKey { id: Some(42), expires_at: None }),
        meta: Some(LemonMeta { product_id: Some(7), variant_id: Some(9) }),
    };
    let status = status_from_activation("test-key", response, 1234).expect("activated");
    assert!(status.active);
    assert_eq!(status.product_id, Some(7));
    assert_eq!(status.variant_id, Some(9));
    assert_eq!(status.instance_id_hash, Some(hash_text("42")));
    assert_eq!(status.checked_at_unix, 1234);
    assert!(validate_offline("test-key", &status));
}

#[test]
fn refused_activation_reports_the_service_message() {
    let refused = LemonResponse { activated: false, error: Some("bad key".to_string()), license_key: None, meta: None };
    match status_from_activation("k", refused, 0) {
        Err(LicenseError::Rejected(message)) => assert_eq!(message, "bad key"),
        other => panic!("unexpected {other:?}"),
    }
    let silent = LemonResponse { activated: false, error: None, license_key: None, meta: None };
    match status_from_activation("k", silent, 0) {
        Err(LicenseError::Rejected(message)) => assert_eq!(message, "activation failed"),
        other => panic!("unexpected {other:?}"),
    }
}

#[test]
fn stored_license_round_trips_with_its_serialisation() {
    let status = status_for("test-key");
    let json = br#"{"active":true}"#;
    let stored = StoredLicense::new(status.clone(), json);
    assert!(stored.is_integrity_valid(json));
    assert!(!stored.is_integrity_valid(br#"{"active":false}"#));
    assert_eq!(stored.clone().into_status(json), Some(status));
    assert_eq!(stored.into_status(b"tampered"), None);
}

#[test]
fn license_clients_and_store_keep_their_settings() {
    let client = LemonSqueezyClient::new().expect("client");
    assert_eq!(client.endpoint(), DEFAULT_LICENSE_ENDPOINT);
    let configured = LemonSqueezyClient::with_endpoint("https://other.test").expect("client");
    assert_eq!(configured.endpoint(), "https://other.test");
    let custom = LemonSqueezyClient::with_transport("https://license.test", UreqTransport);
    assert_eq!(custom.endpoint(), "https://license.test");
    let path = std::path::PathBuf::from("/tmp/typomorph/license.json");
    let store = LicenseStore::new(path.clone());
    assert_eq!(store.path(), &path);
}
