use chrono::{DateTime, Duration, Utc};
use tlapix::completeness;
use tlapix::hex::short;
use tlapix::renewal_scheduler::{
    ReevaluationError, ReevaluationResult, RenewalScheduler, StoreOutcome,
};
use tlapix::time::Timestamp;
use tlapix::types::CertificateMetadata;

fn ts(t: DateTime<Utc>) -> Timestamp {
    Timestamp::new(t.timestamp(), t.timestamp_subsec_nanos()).unwrap()
}

fn make_cert(fingerprint: [u8; 32], not_after: DateTime<Utc>) -> CertificateMetadata {
    let now = Utc::now();
    CertificateMetadata {
        fingerprint,
        subject: "CN=test.example.com".to_string(),
        issuer: "CN=Test CA".to_string(),
        serial_number: "ABCD1234".to_string(),
        not_before: ts(now - Duration::days(335)),
        not_after: ts(not_after),
        sans: vec!["test.example.com".to_string()],
        key_algorithm: "RSA".to_string(),
        key_size: 2048,
        chain_depth: 2,
        issuer_fingerprint: Some([1u8; 32]),
        first_seen: ts(now - Duration::days(100)),
        last_seen: ts(now),
        connection_count: 50,
        source_ip: Some("10.0.0.1".to_string()),
        destination_ip: Some("10.0.0.2".to_string()),
        sni_hostname: Some("test.example.com".to_string()),
        completeness_flags: completeness::ALL_REQUIRED | completeness::SANS,
    }
}

#[test]
fn test_reevaluation_with_no_certificates() {
    let items = RenewalScheduler::run_reevaluation(&vec![], &ts(Utc::now()));
    assert!(items.is_empty());
    let result = RenewalScheduler::summarize(0, &vec![]);
    assert_eq!(result.certificates_evaluated, 0);
    assert_eq!(result.predictions_updated, 0);
    assert_eq!(result.directives_generated, 0);
    assert_eq!(result.errors, 0);
}

#[test]
fn test_reevaluation_with_expiring_certificate() {
    let now = Utc::now();
    let fp = [10u8; 32];
    let cert = make_cert(fp, now + Duration::days(20));
    let items = RenewalScheduler::run_reevaluation(&vec![cert], &ts(now));
    assert_eq!(items.len(), 1);
    let pred = &items[0].prediction;
    assert_eq!(pred.cert_fingerprint, fp);
    assert_eq!(pred.failure_probability, 650);
    assert_eq!(pred.days_until_expiry, 20);
    assert_eq!(pred.severity, "medium");
    assert_eq!(pred.last_evaluated, now.timestamp_millis());
    assert!(items[0].directive.is_none());
    assert_eq!(
        pred.reasoning.as_deref(),
        Some("Certificate expires in 20 days. Failure probability: 65%. No renewal activity detected. No historical renewal data available")
    );
}

#[test]
fn test_reevaluation_generates_directive_for_high_probability() {
    let now = Utc::now();
    let fp = [11u8; 32];
    let cert = make_cert(fp, now + Duration::days(10));
    let items = RenewalScheduler::run_reevaluation(&vec![cert], &ts(now));
    let directive = items[0].directive.as_ref().unwrap();
    assert_eq!(directive.action_type, "renew");
    assert_eq!(directive.cert_fingerprint, fp);
    assert_eq!(directive.status, "pending");
    assert_eq!(directive.severity, "critical");
    assert_eq!(directive.id.len(), 36);
    assert_ne!(directive.id, directive.correlation_id);
}

#[test]
fn test_reevaluation_skips_certificates_beyond_30_days() {
    let now = Utc::now();
    let cert = make_cert([12u8; 32], now + Duration::days(60));
    let items = RenewalScheduler::run_reevaluation(&vec![cert], &ts(now));
    assert!(items.is_empty());
}

#[test]
fn reevaluation_uses_the_given_threshold() {
    let now = Utc::now();
    let certs = vec![
        make_cert([14u8; 32], now + Duration::days(20)),
        make_cert([15u8; 32], now + Duration::days(30) + Duration::hours(12)),
    ];
    let low = RenewalScheduler::run_reevaluation_with_threshold(&certs, &ts(now), 600);
    assert_eq!(low.len(), 1);
    assert_eq!(low[0].prediction.cert_fingerprint, [14u8; 32]);
    assert_eq!(low[0].directive.as_ref().unwrap().action_type, "renew");
    let usual = RenewalScheduler::run_reevaluation(&certs, &ts(now));
    assert_eq!(usual.len(), 1);
    assert!(usual[0].directive.is_none());
}

#[test]
fn test_reevaluation_handles_expired_certificate() {
    let now = Utc::now();
    let cert = make_cert([13u8; 32], now - Duration::days(5));
    let items = RenewalScheduler::run_reevaluation(&vec![cert], &ts(now));
    let directive = items[0].directive.as_ref().unwrap();
    assert_eq!(directive.action_type, "alert");
    assert_eq!(directive.severity, "critical");
    assert!(directive
        .reasoning
        .as_ref()
        .unwrap()
        .starts_with("Certificate expired 5 days ago without renewal. Certificate expired 5 days ago."));
}

#[test]
fn test_reevaluation_multiple_certificates() {
    let now = Utc::now();
    let certs = vec![
        make_cert([20u8; 32], now + Duration::days(5)),
        make_cert([21u8; 32], now + Duration::days(25)),
        make_cert([22u8; 32], now + Duration::days(15)),
    ];
    let items = RenewalScheduler::run_reevaluation(&certs, &ts(now));
    assert_eq!(items.len(), 3);
    let with_directive: Vec<u8> = items
        .iter()
        .filter(|i| i.directive.is_some())
        .map(|i| i.prediction.cert_fingerprint[0])
        .collect();
    assert_eq!(with_directive, vec![20, 22]);
}

#[test]
fn summary_counts_each_kind_of_outcome() {
    let outcomes = vec![
        StoreOutcome::PredictionFailed,
        StoreOutcome::PredictionStored,
        StoreOutcome::DirectiveStored,
        StoreOutcome::DirectiveStored,
        StoreOutcome::DirectiveFailed,
    ];
    assert_eq!(
        RenewalScheduler::summarize(7, &outcomes),
        ReevaluationResult {
            certificates_evaluated: 7,
            predictions_updated: 4,
            directives_generated: 2,
            errors: 2,
        }
    );
}

#[test]
fn short_fingerprint_has_eight_digits() {
    let mut fp = [0xffu8; 32];
    fp[0] = 0x0a;
    fp[3] = 0x1b;
    assert_eq!(short(&fp), "0affff1b");
}

#[test]
fn reevaluation_error_message() {
    assert_eq!(ReevaluationError::Storage("x".to_string()).message(), "Storage error: x");
}
