use chrono::{DateTime, Duration, Utc};
use tlapix::completeness;
use tlapix::shadow::{ShadowClassifier, ShadowClassifierConfig};
use tlapix::time::Timestamp;
use tlapix::types::{
    ActionType, CertificateMetadata, RiskLevel, Severity, ShadowClassification,
};

fn ts(t: DateTime<Utc>) -> Timestamp {
    Timestamp::new(t.timestamp(), t.timestamp_subsec_nanos()).unwrap()
}

fn dt(t: Timestamp) -> DateTime<Utc> {
    DateTime::from_timestamp(t.timestamp(), t.subsec_nanos()).unwrap()
}


/// Helper to create a valid certificate metadata for testing.
fn make_metadata() -> CertificateMetadata {
    let now = Utc::now();
    CertificateMetadata {
        fingerprint: [0xAA; 32],
        subject: "CN=example.com".to_string(),
        issuer: "CN=Trusted CA".to_string(),
        serial_number: "01".to_string(),
        not_before: ts(now - Duration::days(30)),
        not_after: ts(now + Duration::days(335)),
        sans: vec!["example.com".to_string()],
        key_algorithm: "RSA".to_string(),
        key_size: 2048,
        chain_depth: 2,
        issuer_fingerprint: Some([0xBB; 32]),
        first_seen: ts(now - Duration::days(1)),
        last_seen: ts(now),
        connection_count: 5,
        source_ip: Some("192.168.1.100".to_string()),
        destination_ip: Some("10.0.0.1".to_string()),
        sni_hostname: Some("example.com".to_string()),
        completeness_flags: completeness::ALL_REQUIRED | completeness::SANS,
    }
}

// -----------------------------------------------------------------------
// Classification tests
// -----------------------------------------------------------------------

#[test]
fn test_classify_known_certificate() {
    let classifier = ShadowClassifier::with_defaults();
    let metadata = make_metadata();

    let result = classifier.classify(&metadata, true, true);
    assert_eq!(result, ShadowClassification::Known);
}

#[test]
fn test_classify_deferred_when_inventory_unreachable() {
    let classifier = ShadowClassifier::with_defaults();
    let metadata = make_metadata();

    let result = classifier.classify(&metadata, false, false);
    match result {
        ShadowClassification::Deferred { reason } => {
            assert!(reason.contains("unreachable"));
        }
        _ => panic!("Expected Deferred classification, got {:?}", result),
    }
}

#[test]
fn test_classify_shadow_low_risk() {
    let classifier = ShadowClassifier::with_defaults();
    let metadata = make_metadata();

    let result = classifier.classify(&metadata, true, false);
    match result {
        ShadowClassification::Shadow {
            risk_level,
            context,
        } => {
            assert_eq!(risk_level, RiskLevel::Low);
            assert_eq!(context.source_ip, Some("192.168.1.100".to_string()));
            assert_eq!(context.destination, Some("10.0.0.1".to_string()));
            assert_eq!(context.first_seen, metadata.first_seen);
        }
        _ => panic!("Expected Shadow classification, got {:?}", result),
    }
}

#[test]
fn test_classify_shadow_critical_self_signed() {
    let classifier = ShadowClassifier::with_defaults();
    let mut metadata = make_metadata();
    // Self-signed: subject == issuer
    metadata.issuer = "CN=example.com".to_string();

    let result = classifier.classify(&metadata, true, false);
    match result {
        ShadowClassification::Shadow { risk_level, .. } => {
            assert_eq!(risk_level, RiskLevel::Critical);
        }
        _ => panic!("Expected Shadow classification, got {:?}", result),
    }
}

#[test]
fn test_classify_shadow_critical_weak_rsa_key() {
    let classifier = ShadowClassifier::with_defaults();
    let mut metadata = make_metadata();
    metadata.key_algorithm = "RSA".to_string();
    metadata.key_size = 1024;

    let result = classifier.classify(&metadata, true, false);
    match result {
        ShadowClassification::Shadow { risk_level, .. } => {
            assert_eq!(risk_level, RiskLevel::Critical);
        }
        _ => panic!("Expected Shadow classification, got {:?}", result),
    }
}

#[test]
fn test_classify_shadow_critical_weak_ecdsa_key() {
    let classifier = ShadowClassifier::with_defaults();
    let mut metadata = make_metadata();
    metadata.key_algorithm = "ECDSA".to_string();
    metadata.key_size = 128;

    let result = classifier.classify(&metadata, true, false);
    match result {
        ShadowClassification::Shadow { risk_level, .. } => {
            assert_eq!(risk_level, RiskLevel::Critical);
        }
        _ => panic!("Expected Shadow classification, got {:?}", result),
    }
}

#[test]
fn test_classify_shadow_high_untrusted_issuer() {
    let config = ShadowClassifierConfig {
        trusted_issuers: vec![
            "CN=Let's Encrypt Authority X3".to_string(),
            "CN=DigiCert Global Root G2".to_string(),
        ],
        ..Default::default()
    };
    let classifier = ShadowClassifier::new(config);
    let mut metadata = make_metadata();
    metadata.issuer = "CN=Unknown CA".to_string();

    let result = classifier.classify(&metadata, true, false);
    match result {
        ShadowClassification::Shadow { risk_level, .. } => {
            assert_eq!(risk_level, RiskLevel::High);
        }
        _ => panic!("Expected Shadow classification, got {:?}", result),
    }
}

#[test]
fn test_classify_shadow_high_long_validity() {
    let classifier = ShadowClassifier::with_defaults();
    let mut metadata = make_metadata();
    // Validity > 398 days
    metadata.not_before = ts(Utc::now() - Duration::days(10));
    metadata.not_after = ts(dt(metadata.not_before) + Duration::days(500));

    let result = classifier.classify(&metadata, true, false);
    match result {
        ShadowClassification::Shadow { risk_level, .. } => {
            assert_eq!(risk_level, RiskLevel::High);
        }
        _ => panic!("Expected Shadow classification, got {:?}", result),
    }
}

#[test]
fn test_classify_shadow_medium_near_expiry() {
    let classifier = ShadowClassifier::with_defaults();
    let mut metadata = make_metadata();
    // < 30 days remaining
    metadata.not_before = ts(Utc::now() - Duration::days(340));
    metadata.not_after = ts(Utc::now() + Duration::days(15));

    let result = classifier.classify(&metadata, true, false);
    match result {
        ShadowClassification::Shadow { risk_level, .. } => {
            assert_eq!(risk_level, RiskLevel::Medium);
        }
        _ => panic!("Expected Shadow classification, got {:?}", result),
    }
}

#[test]
fn test_classify_shadow_critical_takes_precedence_over_high() {
    let classifier = ShadowClassifier::with_defaults();
    let mut metadata = make_metadata();
    // Self-signed (critical) AND long validity (high)
    metadata.issuer = "CN=example.com".to_string();
    metadata.not_before = ts(Utc::now() - Duration::days(10));
    metadata.not_after = ts(dt(metadata.not_before) + Duration::days(500));

    let result = classifier.classify(&metadata, true, false);
    match result {
        ShadowClassification::Shadow { risk_level, .. } => {
            assert_eq!(risk_level, RiskLevel::Critical);
        }
        _ => panic!("Expected Shadow classification, got {:?}", result),
    }
}

#[test]
fn test_classify_shadow_high_takes_precedence_over_medium() {
    let classifier = ShadowClassifier::with_defaults();
    let mut metadata = make_metadata();
    // Long validity (high) AND near expiry (medium)
    // This is a bit contrived: validity > 398 days but also < 30 days remaining
    metadata.not_before = ts(Utc::now() - Duration::days(400));
    metadata.not_after = ts(Utc::now() + Duration::days(15));

    let result = classifier.classify(&metadata, true, false);
    match result {
        ShadowClassification::Shadow { risk_level, .. } => {
            assert_eq!(risk_level, RiskLevel::High);
        }
        _ => panic!("Expected Shadow classification, got {:?}", result),
    }
}

#[test]
fn test_classify_self_signed_case_insensitive() {
    let classifier = ShadowClassifier::with_defaults();
    let mut metadata = make_metadata();
    metadata.subject = "CN=Example.COM".to_string();
    metadata.issuer = "cn=example.com".to_string();

    let result = classifier.classify(&metadata, true, false);
    match result {
        ShadowClassification::Shadow { risk_level, .. } => {
            assert_eq!(risk_level, RiskLevel::Critical);
        }
        _ => panic!("Expected Shadow classification, got {:?}", result),
    }
}

#[test]
fn test_classify_rsa_2048_not_weak() {
    let classifier = ShadowClassifier::with_defaults();
    let mut metadata = make_metadata();
    metadata.key_algorithm = "RSA".to_string();
    metadata.key_size = 2048;

    let result = classifier.classify(&metadata, true, false);
    match result {
        ShadowClassification::Shadow { risk_level, .. } => {
            assert_eq!(risk_level, RiskLevel::Low);
        }
        _ => panic!("Expected Shadow classification, got {:?}", result),
    }
}

#[test]
fn test_classify_ecdsa_256_not_weak() {
    let classifier = ShadowClassifier::with_defaults();
    let mut metadata = make_metadata();
    metadata.key_algorithm = "ECDSA".to_string();
    metadata.key_size = 256;

    let result = classifier.classify(&metadata, true, false);
    match result {
        ShadowClassification::Shadow { risk_level, .. } => {
            assert_eq!(risk_level, RiskLevel::Low);
        }
        _ => panic!("Expected Shadow classification, got {:?}", result),
    }
}

#[test]
fn test_classify_validity_exactly_398_not_high() {
    let classifier = ShadowClassifier::with_defaults();
    let mut metadata = make_metadata();
    metadata.not_before = ts(Utc::now() - Duration::days(10));
    metadata.not_after = ts(dt(metadata.not_before) + Duration::days(398));

    let result = classifier.classify(&metadata, true, false);
    match result {
        ShadowClassification::Shadow { risk_level, .. } => {
            assert_eq!(risk_level, RiskLevel::Low);
        }
        _ => panic!("Expected Shadow classification, got {:?}", result),
    }
}

#[test]
fn validity_beyond_398_days_is_high() {
    let classifier = ShadowClassifier::with_defaults();
    let mut metadata = make_metadata();
    metadata.not_before = ts(Utc::now() - Duration::days(10));
    metadata.not_after =
        ts(dt(metadata.not_before) + Duration::days(398) + Duration::seconds(1));
    match classifier.classify(&metadata, true, false) {
        ShadowClassification::Shadow { risk_level, .. } => {
            assert_eq!(risk_level, RiskLevel::High);
        }
        other => panic!("Expected Shadow classification, got {:?}", other),
    }
}

#[test]
fn test_classify_exactly_30_days_remaining_not_medium() {
    let classifier = ShadowClassifier::with_defaults();
    let mut metadata = make_metadata();
    // 31 days remaining — threshold is "fewer than 30", so 31 should be Low
    metadata.not_before = ts(Utc::now() - Duration::days(300));
    metadata.not_after = ts(Utc::now() + Duration::days(31));

    let result = classifier.classify(&metadata, true, false);
    match result {
        ShadowClassification::Shadow { risk_level, .. } => {
            assert_eq!(risk_level, RiskLevel::Low);
        }
        _ => panic!("Expected Shadow classification, got {:?}", result),
    }
}

#[test]
fn test_classify_29_days_remaining_is_medium() {
    let classifier = ShadowClassifier::with_defaults();
    let mut metadata = make_metadata();
    // 29 days remaining — fewer than 30, should be Medium
    metadata.not_before = ts(Utc::now() - Duration::days(300));
    metadata.not_after = ts(Utc::now() + Duration::days(29));

    let result = classifier.classify(&metadata, true, false);
    match result {
        ShadowClassification::Shadow { risk_level, .. } => {
            assert_eq!(risk_level, RiskLevel::Medium);
        }
        _ => panic!("Expected Shadow classification, got {:?}", result),
    }
}

#[test]
fn test_classify_expired_cert_not_medium() {
    let classifier = ShadowClassifier::with_defaults();
    let mut metadata = make_metadata();
    // Already expired — near_expiry check should not trigger
    metadata.not_before = ts(Utc::now() - Duration::days(400));
    metadata.not_after = ts(Utc::now() - Duration::days(1));

    let result = classifier.classify(&metadata, true, false);
    match result {
        ShadowClassification::Shadow { risk_level, .. } => {
            // Not medium (expired doesn't count as near-expiry)
            // Not high (validity is 399 days which is > 398, so it IS high)
            assert_eq!(risk_level, RiskLevel::High);
        }
        _ => panic!("Expected Shadow classification, got {:?}", result),
    }
}

#[test]
fn test_trusted_issuer_list_match() {
    let config = ShadowClassifierConfig {
        trusted_issuers: vec![
            "CN=Trusted CA".to_string(),
            "CN=Another Trusted CA".to_string(),
        ],
        ..Default::default()
    };
    let classifier = ShadowClassifier::new(config);
    let metadata = make_metadata(); // issuer is "CN=Trusted CA"

    let result = classifier.classify(&metadata, true, false);
    match result {
        ShadowClassification::Shadow { risk_level, .. } => {
            assert_eq!(risk_level, RiskLevel::Low);
        }
        _ => panic!("Expected Shadow classification, got {:?}", result),
    }
}

#[test]
fn test_trusted_issuer_list_case_insensitive() {
    let config = ShadowClassifierConfig {
        trusted_issuers: vec!["cn=trusted ca".to_string()],
        ..Default::default()
    };
    let classifier = ShadowClassifier::new(config);
    let mut metadata = make_metadata();
    metadata.issuer = "CN=Trusted CA".to_string();

    let result = classifier.classify(&metadata, true, false);
    match result {
        ShadowClassification::Shadow { risk_level, .. } => {
            assert_eq!(risk_level, RiskLevel::Low);
        }
        _ => panic!("Expected Shadow classification, got {:?}", result),
    }
}

// -----------------------------------------------------------------------
// Directive generation tests
// -----------------------------------------------------------------------

#[test]
fn test_generate_directive_alert_type() {
    let classifier = ShadowClassifier::with_defaults();
    let metadata = make_metadata();

    let directive = classifier.generate_directive(&metadata, RiskLevel::Low);
    assert_eq!(directive.action_type, ActionType::Alert);
    assert_eq!(directive.severity, Severity::Low);
    assert_eq!(directive.cert_fingerprint, metadata.fingerprint);
    assert_eq!(directive.attempt_count, 0);
    assert!(directive.source_anomaly.is_none());
}

#[test]
fn test_generate_directive_critical_severity() {
    let classifier = ShadowClassifier::with_defaults();
    let metadata = make_metadata();

    let directive = classifier.generate_directive(&metadata, RiskLevel::Critical);
    assert_eq!(directive.action_type, ActionType::Alert);
    assert_eq!(directive.severity, Severity::Critical);
}

#[test]
fn test_generate_directive_high_severity() {
    let classifier = ShadowClassifier::with_defaults();
    let metadata = make_metadata();

    let directive = classifier.generate_directive(&metadata, RiskLevel::High);
    assert_eq!(directive.severity, Severity::High);
}

#[test]
fn test_generate_directive_medium_severity() {
    let classifier = ShadowClassifier::with_defaults();
    let metadata = make_metadata();

    let directive = classifier.generate_directive(&metadata, RiskLevel::Medium);
    assert_eq!(directive.severity, Severity::Medium);
}

#[test]
fn test_generate_directive_includes_origin_context() {
    let classifier = ShadowClassifier::with_defaults();
    let metadata = make_metadata();

    let directive = classifier.generate_directive(&metadata, RiskLevel::Low);
    assert!(directive.reasoning.contains("192.168.1.100"));
    assert!(directive.reasoning.contains("10.0.0.1"));
}

#[test]
fn test_generate_directive_reasoning_max_500_chars() {
    let classifier = ShadowClassifier::with_defaults();
    let mut metadata = make_metadata();
    // Create a very long subject to test truncation
    metadata.subject = "CN=".to_string() + &"a".repeat(600);
    metadata.issuer = metadata.subject.clone(); // self-signed

    let directive = classifier.generate_directive(&metadata, RiskLevel::Critical);
    assert!(directive.reasoning.len() <= 500);
}

#[test]
fn test_generate_directive_unique_ids() {
    let classifier = ShadowClassifier::with_defaults();
    let metadata = make_metadata();

    let d1 = classifier.generate_directive(&metadata, RiskLevel::Low);
    let d2 = classifier.generate_directive(&metadata, RiskLevel::Low);
    assert_ne!(d1.id, d2.id);
    assert_ne!(d1.correlation_id, d2.correlation_id);
}

#[test]
fn test_generate_directive_handles_missing_origin() {
    let classifier = ShadowClassifier::with_defaults();
    let mut metadata = make_metadata();
    metadata.source_ip = None;
    metadata.destination_ip = None;

    let directive = classifier.generate_directive(&metadata, RiskLevel::Low);
    assert!(directive.reasoning.contains("unknown"));
}

// -----------------------------------------------------------------------
// Integration: classify + generate_directive
// -----------------------------------------------------------------------

#[test]
fn test_full_flow_shadow_classification_and_directive() {
    let classifier = ShadowClassifier::with_defaults();
    let mut metadata = make_metadata();
    // Make it self-signed → critical
    metadata.issuer = "CN=example.com".to_string();

    let classification = classifier.classify(&metadata, true, false);
    match classification {
        ShadowClassification::Shadow {
            risk_level,
            context,
        } => {
            assert_eq!(risk_level, RiskLevel::Critical);
            assert_eq!(context.source_ip, Some("192.168.1.100".to_string()));
            assert_eq!(context.destination, Some("10.0.0.1".to_string()));

            let directive = classifier.generate_directive(&metadata, risk_level);
            assert_eq!(directive.action_type, ActionType::Alert);
            assert_eq!(directive.severity, Severity::Critical);
            assert_eq!(directive.cert_fingerprint, metadata.fingerprint);
        }
        _ => panic!("Expected Shadow classification"),
    }
}
