use chrono::{DateTime, Duration, Utc};
use tlapix::anomaly::{AnomalyDetector, AnomalyDetectorConfig};
use tlapix::completeness;
use tlapix::sni_match::sni_matches_san;
use tlapix::time::Timestamp;
use tlapix::types::{ActionType, AnomalyType, CertificateMetadata, Severity};

fn ts(t: DateTime<Utc>) -> Timestamp {
    Timestamp::new(t.timestamp(), t.timestamp_subsec_nanos()).unwrap()
}

fn dt(t: Timestamp) -> DateTime<Utc> {
    DateTime::from_timestamp(t.timestamp(), t.subsec_nanos()).unwrap()
}


/// Helper to create a valid certificate metadata with all fields present.
fn make_metadata() -> CertificateMetadata {
    let now = Utc::now();
    CertificateMetadata {
        fingerprint: [0u8; 32],
        subject: "CN=example.com".to_string(),
        issuer: "CN=Test CA".to_string(),
        serial_number: "01".to_string(),
        not_before: ts(now - Duration::days(30)),
        not_after: ts(now + Duration::days(335)),
        sans: vec!["example.com".to_string(), "*.example.com".to_string()],
        key_algorithm: "RSA".to_string(),
        key_size: 2048,
        chain_depth: 2,
        issuer_fingerprint: Some([1u8; 32]),
        first_seen: ts(now - Duration::days(30)),
        last_seen: ts(now),
        connection_count: 10,
        source_ip: Some("10.0.0.1".to_string()),
        destination_ip: Some("10.0.0.2".to_string()),
        sni_hostname: Some("example.com".to_string()),
        completeness_flags: completeness::ALL_REQUIRED | completeness::SANS,
    }
}

#[test]
fn test_no_anomalies_for_valid_cert() {
    let detector = AnomalyDetector::with_defaults();
    let metadata = make_metadata();
    let anomalies = detector.detect(&metadata);
    assert!(
        anomalies.is_empty(),
        "Expected no anomalies, got: {:?}",
        anomalies
    );
}

#[test]
fn test_policy_violation_long_validity() {
    let detector = AnomalyDetector::with_defaults();
    let mut metadata = make_metadata();
    // Set validity to 400 days (exceeds 398)
    metadata.not_before = ts(Utc::now() - Duration::days(10));
    metadata.not_after = ts(dt(metadata.not_before) + Duration::days(400));

    let anomalies = detector.detect(&metadata);
    assert_eq!(anomalies.len(), 1);
    assert!(matches!(
        anomalies[0].0,
        AnomalyType::PolicyViolation { .. }
    ));
    assert_eq!(anomalies[0].1, Severity::Medium);
}

#[test]
fn test_policy_violation_exactly_398_days_no_anomaly() {
    let detector = AnomalyDetector::with_defaults();
    let mut metadata = make_metadata();
    metadata.not_before = ts(Utc::now() - Duration::days(10));
    metadata.not_after = ts(dt(metadata.not_before) + Duration::days(398));

    let anomalies = detector.detect(&metadata);
    assert!(anomalies.is_empty());
}

#[test]
fn validity_beyond_398_days_is_a_violation() {
    let detector = AnomalyDetector::with_defaults();
    let mut metadata = make_metadata();
    metadata.not_before = ts(Utc::now() - Duration::days(10));
    metadata.not_after =
        ts(dt(metadata.not_before) + Duration::days(398) + Duration::seconds(1));
    let anomalies = detector.detect(&metadata);
    assert_eq!(anomalies.len(), 1);
    assert!(matches!(anomalies[0].0, AnomalyType::PolicyViolation { .. }));
}

#[test]
fn test_weak_rsa_key() {
    let detector = AnomalyDetector::with_defaults();
    let mut metadata = make_metadata();
    metadata.key_algorithm = "RSA".to_string();
    metadata.key_size = 1024;

    let anomalies = detector.detect(&metadata);
    assert_eq!(anomalies.len(), 1);
    assert!(matches!(
        anomalies[0].0,
        AnomalyType::WeakCryptography { ref algorithm, key_size }
        if algorithm == "RSA" && key_size == 1024
    ));
    assert_eq!(anomalies[0].1, Severity::Critical);
}

#[test]
fn test_weak_ecdsa_key() {
    let detector = AnomalyDetector::with_defaults();
    let mut metadata = make_metadata();
    metadata.key_algorithm = "ECDSA".to_string();
    metadata.key_size = 128;

    let anomalies = detector.detect(&metadata);
    assert_eq!(anomalies.len(), 1);
    assert!(matches!(
        anomalies[0].0,
        AnomalyType::WeakCryptography { ref algorithm, key_size }
        if algorithm == "ECDSA" && key_size == 128
    ));
    assert_eq!(anomalies[0].1, Severity::Critical);
}

#[test]
fn test_ecdsa_256_no_anomaly() {
    let detector = AnomalyDetector::with_defaults();
    let mut metadata = make_metadata();
    metadata.key_algorithm = "ECDSA".to_string();
    metadata.key_size = 256;

    let anomalies = detector.detect(&metadata);
    assert!(anomalies.is_empty());
}

#[test]
fn test_rsa_2048_no_anomaly() {
    let detector = AnomalyDetector::with_defaults();
    let mut metadata = make_metadata();
    metadata.key_algorithm = "RSA".to_string();
    metadata.key_size = 2048;

    let anomalies = detector.detect(&metadata);
    assert!(anomalies.is_empty());
}

#[test]
fn test_sni_mismatch() {
    let detector = AnomalyDetector::with_defaults();
    let mut metadata = make_metadata();
    metadata.sni_hostname = Some("evil.com".to_string());
    metadata.sans = vec!["example.com".to_string(), "*.example.com".to_string()];

    let anomalies = detector.detect(&metadata);
    assert_eq!(anomalies.len(), 1);
    assert!(matches!(anomalies[0].0, AnomalyType::SniMismatch { .. }));
    assert_eq!(anomalies[0].1, Severity::High);
}

#[test]
fn test_sni_exact_match_no_anomaly() {
    let detector = AnomalyDetector::with_defaults();
    let mut metadata = make_metadata();
    metadata.sni_hostname = Some("example.com".to_string());
    metadata.sans = vec!["example.com".to_string()];

    let anomalies = detector.detect(&metadata);
    assert!(anomalies.is_empty());
}

#[test]
fn test_sni_wildcard_match_no_anomaly() {
    let detector = AnomalyDetector::with_defaults();
    let mut metadata = make_metadata();
    metadata.sni_hostname = Some("sub.example.com".to_string());
    metadata.sans = vec!["*.example.com".to_string()];

    let anomalies = detector.detect(&metadata);
    assert!(anomalies.is_empty());
}

#[test]
fn test_sni_wildcard_no_multi_level() {
    let detector = AnomalyDetector::with_defaults();
    let mut metadata = make_metadata();
    metadata.sni_hostname = Some("a.b.example.com".to_string());
    metadata.sans = vec!["*.example.com".to_string()];

    let anomalies = detector.detect(&metadata);
    assert_eq!(anomalies.len(), 1);
    assert!(matches!(anomalies[0].0, AnomalyType::SniMismatch { .. }));
}

#[test]
fn test_sni_case_insensitive_match() {
    let detector = AnomalyDetector::with_defaults();
    let mut metadata = make_metadata();
    metadata.sni_hostname = Some("EXAMPLE.COM".to_string());
    metadata.sans = vec!["example.com".to_string()];

    let anomalies = detector.detect(&metadata);
    assert!(anomalies.is_empty());
}

#[test]
fn test_expired_certificate() {
    let detector = AnomalyDetector::with_defaults();
    let mut metadata = make_metadata();
    metadata.not_after = ts(Utc::now() - Duration::days(1));

    let anomalies = detector.detect(&metadata);
    assert_eq!(anomalies.len(), 1);
    assert!(matches!(anomalies[0].0, AnomalyType::ExpiredCertificate));
    assert_eq!(anomalies[0].1, Severity::Critical);
}

#[test]
fn test_near_expiry() {
    let detector = AnomalyDetector::with_defaults();
    let mut metadata = make_metadata();
    metadata.not_before = ts(Utc::now() - Duration::days(360));
    metadata.not_after = ts(Utc::now() + Duration::days(10));

    let anomalies = detector.detect(&metadata);
    assert_eq!(anomalies.len(), 1);
    assert!(matches!(
        anomalies[0].0,
        AnomalyType::NearExpiry { days_remaining } if days_remaining <= 10
    ));
    assert_eq!(anomalies[0].1, Severity::High);
}

#[test]
fn test_near_expiry_not_triggered_when_expired() {
    let detector = AnomalyDetector::with_defaults();
    let mut metadata = make_metadata();
    metadata.not_after = ts(Utc::now() - Duration::hours(1));

    let anomalies = detector.detect(&metadata);
    // Should only get ExpiredCertificate, not NearExpiry
    assert_eq!(anomalies.len(), 1);
    assert!(matches!(anomalies[0].0, AnomalyType::ExpiredCertificate));
}

#[test]
fn test_multiple_anomalies() {
    let detector = AnomalyDetector::with_defaults();
    let mut metadata = make_metadata();
    // Weak key + long validity + SNI mismatch
    metadata.key_algorithm = "RSA".to_string();
    metadata.key_size = 1024;
    metadata.not_before = ts(Utc::now() - Duration::days(10));
    metadata.not_after = ts(dt(metadata.not_before) + Duration::days(500));
    metadata.sni_hostname = Some("evil.com".to_string());

    let anomalies = detector.detect(&metadata);
    assert_eq!(anomalies.len(), 3);
}

#[test]
fn test_partial_metadata_skips_missing_fields() {
    let detector = AnomalyDetector::with_defaults();
    let mut metadata = make_metadata();
    // Only subject and issuer present — no validity, no key info, no SANs
    metadata.completeness_flags = completeness::SUBJECT | completeness::ISSUER;
    // Even with bad values, rules should be skipped
    metadata.key_size = 512;
    metadata.not_after = ts(Utc::now() - Duration::days(100));

    let anomalies = detector.detect(&metadata);
    assert!(anomalies.is_empty());
}

#[test]
fn test_partial_metadata_evaluates_available_fields() {
    let detector = AnomalyDetector::with_defaults();
    let mut metadata = make_metadata();
    // Only key fields present
    metadata.completeness_flags = completeness::KEY_ALGORITHM | completeness::KEY_SIZE;
    metadata.key_algorithm = "RSA".to_string();
    metadata.key_size = 1024;

    let anomalies = detector.detect(&metadata);
    assert_eq!(anomalies.len(), 1);
    assert!(matches!(
        anomalies[0].0,
        AnomalyType::WeakCryptography { .. }
    ));
}

#[test]
fn test_generate_directives() {
    let detector = AnomalyDetector::with_defaults();
    let mut metadata = make_metadata();
    metadata.key_size = 1024; // Weak key

    let directives = detector.generate_directives(&metadata);
    assert_eq!(directives.len(), 1);

    let d = &directives[0];
    assert_eq!(d.cert_fingerprint, metadata.fingerprint);
    assert_eq!(d.action_type, ActionType::Alert);
    assert_eq!(d.severity, Severity::Critical);
    assert_eq!(d.attempt_count, 0);
    assert!(d.source_anomaly.is_some());
    assert!(d.reasoning.len() <= 500);
}

#[test]
fn test_generate_directives_one_per_anomaly() {
    let detector = AnomalyDetector::with_defaults();
    let mut metadata = make_metadata();
    // Two anomalies: weak key + expired
    metadata.key_size = 1024;
    metadata.not_after = ts(Utc::now() - Duration::days(5));

    let directives = detector.generate_directives(&metadata);
    assert_eq!(directives.len(), 2);
    // Each directive should have a unique ID
    assert_ne!(directives[0].id, directives[1].id);
}

#[test]
fn test_sni_no_check_when_sni_absent() {
    let detector = AnomalyDetector::with_defaults();
    let mut metadata = make_metadata();
    metadata.sni_hostname = None;
    metadata.sans = vec!["example.com".to_string()];

    let anomalies = detector.detect(&metadata);
    assert!(anomalies.is_empty());
}

#[test]
fn test_sni_no_check_when_sans_empty() {
    let detector = AnomalyDetector::with_defaults();
    let mut metadata = make_metadata();
    metadata.sni_hostname = Some("example.com".to_string());
    metadata.sans = vec![];

    let anomalies = detector.detect(&metadata);
    assert!(anomalies.is_empty());
}

// --- SNI matching integration tests (using sni_match module) ---

#[test]
fn test_sni_matches_san_exact() {
    assert!(sni_matches_san("example.com", "example.com"));
    assert!(sni_matches_san("Example.COM", "example.com"));
}

#[test]
fn test_sni_matches_san_wildcard() {
    assert!(sni_matches_san("foo.example.com", "*.example.com"));
    assert!(sni_matches_san("bar.example.com", "*.example.com"));
}

#[test]
fn test_sni_no_match_wildcard_multi_level() {
    assert!(!sni_matches_san("a.b.example.com", "*.example.com"));
}

#[test]
fn test_sni_no_match_wildcard_base_domain() {
    // "*.example.com" should NOT match "example.com" itself
    assert!(!sni_matches_san("example.com", "*.example.com"));
}

#[test]
fn test_sni_no_match_different_domain() {
    assert!(!sni_matches_san("evil.com", "example.com"));
    assert!(!sni_matches_san("evil.com", "*.example.com"));
}

#[test]
fn test_configurable_near_expiry_threshold() {
    let config = AnomalyDetectorConfig {
        near_expiry_threshold_days: 7,
        ..Default::default()
    };
    let detector = AnomalyDetector::new(config);
    let mut metadata = make_metadata();
    // 10 days remaining — should NOT trigger with 7-day threshold
    metadata.not_before = ts(Utc::now() - Duration::days(360));
    metadata.not_after = ts(Utc::now() + Duration::days(10));

    let anomalies = detector.detect(&metadata);
    assert!(anomalies.is_empty());

    // 5 days remaining — should trigger
    metadata.not_after = ts(Utc::now() + Duration::days(5));
    let anomalies = detector.detect(&metadata);
    assert_eq!(anomalies.len(), 1);
    assert!(matches!(anomalies[0].0, AnomalyType::NearExpiry { .. }));
}

#[test]
fn algorithm_names_are_read_in_any_case() {
    let detector = AnomalyDetector::with_defaults();
    for (name, size, weak) in [
        ("rsa", 2047, true),
        ("Rsa", 2048, false),
        ("ec", 255, true),
        ("Ecdsa", 256, false),
        ("Ed25519", 1, false),
    ] {
        let mut metadata = make_metadata();
        metadata.key_algorithm = name.to_string();
        metadata.key_size = size;
        let found = detector.detect(&metadata);
        assert_eq!(found.len(), if weak { 1 } else { 0 });
        if weak {
            let reasoning = &detector.generate_directives(&metadata)[0].reasoning;
            assert_eq!(
                *reasoning,
                format!("Weak cryptography: {} with {} bits is below minimum requirements", name, size)
            );
        }
    }
}

#[test]
fn reasonings_are_exact() {
    let detector = AnomalyDetector::with_defaults();
    let sans: Vec<String> = (1..8).map(|i| format!("h{}", i)).collect();
    assert_eq!(
        detector.build_reasoning(&AnomalyType::SniMismatch { sni: "x".to_string(), sans }),
        "SNI mismatch: hostname 'x' does not match any SAN [h1, h2, h3, h4, h5]"
    );
    assert_eq!(
        detector.build_reasoning(&AnomalyType::ExpiredCertificate),
        "Certificate has expired"
    );
    assert_eq!(
        detector.build_reasoning(&AnomalyType::NearExpiry { days_remaining: 3 }),
        "Certificate expires in 3 days (threshold: 30 days)"
    );
    let now = Timestamp::new(1_700_000_000, 0).unwrap();
    let mut metadata = make_metadata();
    metadata.not_before = now;
    metadata.not_after = Timestamp::new(1_700_000_000 + 400 * 86_400, 0).unwrap();
    let alerts = detector.generate_directives_at(&metadata, &now);
    assert_eq!(alerts.len(), 1);
    assert_eq!(
        alerts[0].reasoning,
        "Policy violation: Validity period of 400 days exceeds maximum of 398 days"
    );
    assert_eq!(alerts[0].created_at, now);
}
