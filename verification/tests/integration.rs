use chrono::{DateTime, TimeDelta, Utc};
use tlapix::ai_backend::{model_not_found, AiBackendError, AnalyzerService};
use tlapix::anomaly::AnomalyDetector;
use tlapix::reconciliation::{reconcile_inventory, ShadowState};
use tlapix::renewal_scheduler::{RenewalScheduler, StoreOutcome};
use tlapix::shadow::ShadowClassifier;
use tlapix::storage::ShadowCertificateRow;
use tlapix::time::Timestamp;
use tlapix::types::{
    ActionType, AnomalyType, CertificateMetadata, RiskLevel, Severity, ShadowClassification,
};

fn ts(t: DateTime<Utc>) -> Timestamp {
    Timestamp::new(t.timestamp(), t.timestamp_subsec_nanos()).unwrap()
}

/// A certificate with a weak RSA 1024-bit key.
fn make_weak_key_certificate(fingerprint: [u8; 32]) -> CertificateMetadata {
    let now = Utc::now();
    CertificateMetadata {
        fingerprint,
        subject: "CN=weak.example.com".to_string(),
        issuer: "CN=Test CA".to_string(),
        serial_number: "01".to_string(),
        not_before: ts(now - TimeDelta::days(30)),
        not_after: ts(now + TimeDelta::days(300)),
        sans: vec!["weak.example.com".to_string()],
        key_algorithm: "RSA".to_string(),
        key_size: 1024, // Weak key!
        chain_depth: 2,
        issuer_fingerprint: Some([0xAA; 32]),
        first_seen: ts(now),
        last_seen: ts(now),
        connection_count: 1,
        source_ip: Some("192.168.0.1".to_string()),
        destination_ip: Some("10.0.0.1".to_string()),
        sni_hostname: Some("weak.example.com".to_string()),
        completeness_flags: 0xFF, // all fields present
    }
}

/// A certificate expiring in the given number of days.
fn make_expiring_certificate(fingerprint: [u8; 32], days_until_expiry: i64) -> CertificateMetadata {
    let now = Utc::now();
    CertificateMetadata {
        fingerprint,
        subject: "CN=expiring.example.com".to_string(),
        issuer: "CN=Test CA".to_string(),
        serial_number: "02".to_string(),
        not_before: ts(now - TimeDelta::days(365)),
        not_after: ts(now + TimeDelta::days(days_until_expiry)),
        sans: vec!["expiring.example.com".to_string()],
        key_algorithm: "RSA".to_string(),
        key_size: 2048,
        chain_depth: 2,
        issuer_fingerprint: Some([0xBB; 32]),
        first_seen: ts(now - TimeDelta::days(30)),
        last_seen: ts(now),
        connection_count: 100,
        source_ip: Some("192.168.1.1".to_string()),
        destination_ip: Some("10.0.0.2".to_string()),
        sni_hostname: Some("expiring.example.com".to_string()),
        completeness_flags: 0xFF,
    }
}

/// A certificate that is not in any inventory.
fn make_shadow_certificate(fingerprint: [u8; 32]) -> CertificateMetadata {
    let now = Utc::now();
    CertificateMetadata {
        fingerprint,
        subject: "CN=shadow.unknown.com".to_string(),
        issuer: "CN=Unknown CA".to_string(),
        serial_number: "FF".to_string(),
        not_before: ts(now - TimeDelta::days(10)),
        not_after: ts(now + TimeDelta::days(200)),
        sans: vec!["shadow.unknown.com".to_string()],
        key_algorithm: "RSA".to_string(),
        key_size: 2048,
        chain_depth: 1,
        issuer_fingerprint: None,
        first_seen: ts(now),
        last_seen: ts(now),
        connection_count: 1,
        source_ip: Some("10.10.10.10".to_string()),
        destination_ip: Some("10.0.0.5".to_string()),
        sni_hostname: Some("shadow.unknown.com".to_string()),
        completeness_flags: 0xFF,
    }
}

#[test]
fn test_weak_key_certificate_generates_critical_directive() {
    let fingerprint = [0x01; 32];
    let cert = make_weak_key_certificate(fingerprint);

    // Anomaly detection should flag the weak key
    let detector = AnomalyDetector::with_defaults();
    let anomalies = detector.detect(&cert);

    // Should detect WeakCryptography anomaly
    let weak_key_anomaly = anomalies
        .iter()
        .find(|(anomaly, _)| matches!(anomaly, AnomalyType::WeakCryptography { .. }));
    assert!(
        weak_key_anomaly.is_some(),
        "Should detect weak RSA 1024-bit key"
    );

    // Severity should be critical
    let (_, severity) = weak_key_anomaly.unwrap();
    assert_eq!(*severity, Severity::Critical);

    // Generate directives
    let directives = detector.generate_directives(&cert);
    assert!(
        !directives.is_empty(),
        "Should generate at least one directive"
    );
    assert_eq!(directives.len(), anomalies.len());
    assert!(directives
        .iter()
        .any(|d| d.severity == Severity::Critical && d.cert_fingerprint == fingerprint));
}

#[test]
fn test_graceful_degradation_ai_fallback() {
    // A model that does not exist leads to the fallback
    let analyzer = AnalyzerService::with_model(Err(model_not_found("/nonexistent/model.onnx")), 5);

    // Verify it's in fallback mode
    let mode_str = analyzer.health_check().to_text();
    assert!(
        mode_str.contains("Rule-Based") || mode_str.contains("RuleBased") || mode_str.contains("rule"),
        "Should be in rule-based fallback mode, got: {}",
        mode_str
    );

    // Feed a certificate with a known anomaly (weak key)
    let cert = make_weak_key_certificate([0x02; 32]);
    let anomalies = analyzer.evaluate(&cert, Err(AiBackendError::InFallbackMode));

    // Rule-based detection should still work
    let has_weak_key = anomalies
        .iter()
        .any(|(a, _)| matches!(a, AnomalyType::WeakCryptography { .. }));
    assert!(
        has_weak_key,
        "Rule-based fallback should still detect weak cryptography"
    );
}

#[test]
fn test_renewal_prediction_generates_directive() {
    let fingerprint = [0x03; 32];
    let cert = make_expiring_certificate(fingerprint, 10);

    // Run renewal re-evaluation, and let everything be stored
    let certs = vec![cert];
    let items = RenewalScheduler::run_reevaluation(&certs, &Timestamp::now());
    let outcomes: Vec<StoreOutcome> = items
        .iter()
        .map(|item| match item.directive {
            Some(_) => StoreOutcome::DirectiveStored,
            None => StoreOutcome::PredictionStored,
        })
        .collect();
    let result = RenewalScheduler::summarize(certs.len(), &outcomes);

    // Should have evaluated at least one certificate
    assert!(
        result.certificates_evaluated >= 1,
        "Should evaluate the expiring certificate"
    );

    // Should have generated a directive (10 days < 14 days -> critical, probability >= 0.7)
    assert!(
        result.directives_generated >= 1,
        "Should generate a renew directive for certificate expiring in 10 days"
    );

    // Verify the prediction
    let prediction = &items[0].prediction;
    assert_eq!(prediction.cert_fingerprint, fingerprint);
    assert!(
        prediction.failure_probability as f64 / 1000.0 >= 0.5,
        "Failure probability should be at least 0.5 (no history baseline)"
    );
    assert_eq!(prediction.severity, "critical");

    // Verify the directive
    let renew_directive = items
        .iter()
        .filter_map(|item| item.directive.as_ref())
        .find(|d| d.cert_fingerprint == fingerprint && d.action_type == "renew");
    assert!(
        renew_directive.is_some(),
        "A 'renew' directive should be stored for the expiring certificate"
    );
    assert_eq!(renew_directive.unwrap().status, "pending");
}

#[test]
fn test_shadow_certificate_lifecycle() {
    let fingerprint = [0x04; 32];
    let cert = make_shadow_certificate(fingerprint);

    // 1. Classify: since it's not in inventory, it's a shadow
    let classifier = ShadowClassifier::with_defaults();
    let classification = classifier.classify(&cert, true, false);
    let risk_level = match &classification {
        ShadowClassification::Shadow {
            risk_level,
            context,
        } => {
            assert!(
                *risk_level >= RiskLevel::Low,
                "Shadow certificate should have a risk level assigned"
            );
            assert_eq!(context.source_ip, cert.source_ip);
            assert_eq!(context.first_seen, cert.first_seen);
            *risk_level
        }
        other => panic!("Expected Shadow classification, got: {:?}", other),
    };

    // Generate a directive for the shadow certificate
    let directive = classifier.generate_directive(&cert, risk_level);
    assert_eq!(directive.action_type, ActionType::Alert);
    assert_eq!(directive.cert_fingerprint, fingerprint);

    // The row of the shadow certificate
    let shadow_row = ShadowCertificateRow {
        fingerprint,
        risk_level,
        first_classified: Utc::now().timestamp_millis(),
        last_escalated: None,
        escalation_count: 0,
        source_ip: cert.source_ip.clone(),
        destination_ip: cert.destination_ip.clone(),
        first_seen: cert.first_seen.timestamp_millis(),
        is_resolved: false,
        resolved_at: None,
    };

    // 2. Now the certificate is in the inventory; the shadow should be resolved
    let shadows = vec![ShadowState { row: shadow_row, in_inventory: true, pending: vec![] }];
    let recon = reconcile_inventory(&shadows, &vec![], &Timestamp::now());
    assert!(
        recon.result.shadows_resolved >= 1,
        "At least one shadow should be resolved"
    );

    // Verify the shadow is marked as resolved
    assert_eq!(recon.resolved[0].fingerprint, fingerprint);
    assert!(recon.resolved[0].is_resolved, "Shadow should be marked as resolved");
}
