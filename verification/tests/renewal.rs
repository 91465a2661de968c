use chrono::{DateTime, Duration, Utc};
use tlapix::completeness;
use tlapix::renewal::{RenewalHistory, RenewalPredictor};
use tlapix::time::Timestamp;
use tlapix::types::{ActionType, CertificateMetadata, Severity};

fn ts(t: DateTime<Utc>) -> Timestamp {
    Timestamp::new(t.timestamp(), t.timestamp_subsec_nanos()).unwrap()
}

fn prob(thousandths: u32) -> f64 {
    thousandths as f64 / 1000.0
}


/// Helper to create a certificate metadata with a specific not_after date.
fn make_cert(not_after: DateTime<Utc>) -> CertificateMetadata {
    let now = Utc::now();
    CertificateMetadata {
        fingerprint: [42u8; 32],
        subject: "CN=test.example.com".to_string(),
        issuer: "CN=Test CA".to_string(),
        serial_number: "ABCD1234".to_string(),
        not_before: ts(now - Duration::days(335)),
        not_after: ts(not_after),
        sans: vec!["test.example.com".to_string()],
        key_algorithm: "RSA".to_string(),
        key_size: 2048,
        chain_depth: 2,
        issuer_fingerprint: Some([1u8; 32]),
        first_seen: ts(now - Duration::days(100)),
        last_seen: ts(now),
        connection_count: 50,
        source_ip: Some("10.0.0.1".to_string()),
        destination_ip: Some("10.0.0.2".to_string()),
        sni_hostname: Some("test.example.com".to_string()),
        completeness_flags: completeness::ALL_REQUIRED | completeness::SANS,
    }
}

#[test]
fn test_no_prediction_when_more_than_30_days() {
    let now = Utc::now();
    let predictor = RenewalPredictor::with_now(ts(now));
    let cert = make_cert(now + Duration::days(31));

    let result = predictor.predict(&cert, None);
    assert!(result.is_none(), "Should not generate prediction for >30 days");
}

#[test]
fn test_no_prediction_at_exactly_31_days() {
    let now = Utc::now();
    let predictor = RenewalPredictor::with_now(ts(now));
    let cert = make_cert(now + Duration::days(31));

    let result = predictor.predict(&cert, None);
    assert!(result.is_none());
}

#[test]
fn window_opens_exactly_30_days_before_expiry() {
    let now = Utc::now();
    let predictor = RenewalPredictor::with_now(ts(now));
    let open = now + Duration::days(30);
    assert!(predictor.predict(&make_cert(open), None).is_some());
    assert!(predictor.predict(&make_cert(open + Duration::nanoseconds(1)), None).is_none());
    assert!(predictor.predict(&make_cert(open + Duration::hours(12)), None).is_none());
}

#[test]
fn threshold_decides_on_the_order_to_renew() {
    let now = Utc::now();
    let predictor = RenewalPredictor::with_now(ts(now));
    // 20 days before expiry and without history the probability is 650 thousandths.
    let cert = make_cert(now + Duration::days(20));
    let at = |threshold| predictor.predict_with_threshold(&cert, None, threshold).unwrap();
    assert_eq!(at(650).prediction.failure_probability, 650);
    assert_eq!(at(650).directive.unwrap().action_type, ActionType::Renew);
    assert!(at(651).directive.is_none());
    assert!(predictor.predict(&cert, None).unwrap().directive.is_none());
    assert!(at(700).directive.is_none());
    // An expired certificate is alerted whatever the threshold.
    let expired = make_cert(now - Duration::days(2));
    let result = predictor.predict_with_threshold(&expired, None, u32::MAX).unwrap();
    assert_eq!(result.directive.unwrap().action_type, ActionType::Alert);
}

#[test]
fn test_prediction_at_30_days_no_history() {
    let now = Utc::now();
    let predictor = RenewalPredictor::with_now(ts(now));
    let cert = make_cert(now + Duration::days(30));

    let result = predictor.predict(&cert, None);
    assert!(result.is_some());

    let pr = result.unwrap();
    // Baseline probability at 30 days: 0.5 + (30-30)*0.015 = 0.5
    assert!(
        prob(pr.prediction.failure_probability) >= 0.5,
        "Baseline probability should be >= 0.5, got {}",
        prob(pr.prediction.failure_probability)
    );
    assert_eq!(pr.prediction.days_until_expiry, 30);
    assert_eq!(pr.prediction.severity, Severity::Medium);
    assert!(!pr.prediction.renewal_activity_detected);
}

#[test]
fn test_prediction_at_20_days_no_history_baseline() {
    let now = Utc::now();
    let predictor = RenewalPredictor::with_now(ts(now));
    let cert = make_cert(now + Duration::days(20));

    let result = predictor.predict(&cert, None).unwrap();

    // Baseline: 0.5 + (30-20)*0.015 = 0.5 + 0.15 = 0.65
    let expected = 0.5 + (30.0 - 20.0) * 0.015;
    assert!(
        (prob(result.prediction.failure_probability) - expected).abs() < 0.001,
        "Expected ~{}, got {}",
        expected,
        prob(result.prediction.failure_probability)
    );
    assert_eq!(result.prediction.days_until_expiry, 20);
    assert_eq!(result.prediction.severity, Severity::Medium);
    // probability 0.65 < 0.7, so no directive
    assert!(result.directive.is_none());
}

#[test]
fn test_critical_severity_under_14_days_no_renewal_activity() {
    let now = Utc::now();
    let predictor = RenewalPredictor::with_now(ts(now));
    let cert = make_cert(now + Duration::days(10));

    let result = predictor.predict(&cert, None).unwrap();

    assert_eq!(result.prediction.severity, Severity::Critical);
    assert_eq!(result.prediction.days_until_expiry, 10);
    assert!(!result.prediction.renewal_activity_detected);
}

#[test]
fn test_renew_directive_when_probability_ge_0_7() {
    let now = Utc::now();
    let predictor = RenewalPredictor::with_now(ts(now));
    // At 16 days: 0.5 + (30-16)*0.015 = 0.5 + 0.21 = 0.71 >= 0.7
    let cert = make_cert(now + Duration::days(16));

    let result = predictor.predict(&cert, None).unwrap();

    assert!(
        prob(result.prediction.failure_probability) >= 0.7,
        "Expected >= 0.7, got {}",
        prob(result.prediction.failure_probability)
    );
    assert!(result.directive.is_some());
    let directive = result.directive.unwrap();
    assert_eq!(directive.action_type, ActionType::Renew);
    assert_eq!(directive.cert_fingerprint, [42u8; 32]);
}

#[test]
fn test_alert_directive_when_expired() {
    let now = Utc::now();
    let predictor = RenewalPredictor::with_now(ts(now));
    let cert = make_cert(now - Duration::days(5));

    let result = predictor.predict(&cert, None).unwrap();

    assert_eq!(result.prediction.days_until_expiry, -5);
    assert_eq!(result.prediction.severity, Severity::Critical);
    assert!(result.directive.is_some());

    let directive = result.directive.unwrap();
    assert_eq!(directive.action_type, ActionType::Alert);
    assert_eq!(directive.severity, Severity::Critical);
}

#[test]
fn test_good_renewal_history_lowers_probability() {
    let now = Utc::now();
    let predictor = RenewalPredictor::with_now(ts(now));
    let cert = make_cert(now + Duration::days(20));

    let history = RenewalHistory {
        previous_renewal_days: vec![25, 28, 30], // Typically renews 25-30 days before
        past_failures: 0,
        issuer_avg_response_days: f64::ceil(2.0) as i64,
    };

    let result_with_history = predictor.predict(&cert, Some(&history)).unwrap();
    let result_without_history = predictor.predict(&cert, None).unwrap();

    // With good history and renewal activity detected, probability should be lower
    assert!(
        prob(result_with_history.prediction.failure_probability)
            < prob(result_without_history.prediction.failure_probability),
        "With good history ({}) should be lower than without ({})",
        prob(result_with_history.prediction.failure_probability),
        prob(result_without_history.prediction.failure_probability)
    );
}

#[test]
fn test_past_failures_increase_probability() {
    let now = Utc::now();
    let predictor = RenewalPredictor::with_now(ts(now));
    let cert = make_cert(now + Duration::days(20));

    let good_history = RenewalHistory {
        previous_renewal_days: vec![25, 28],
        past_failures: 0,
        issuer_avg_response_days: f64::ceil(2.0) as i64,
    };

    let bad_history = RenewalHistory {
        previous_renewal_days: vec![25, 28],
        past_failures: 3,
        issuer_avg_response_days: f64::ceil(2.0) as i64,
    };

    let result_good = predictor.predict(&cert, Some(&good_history)).unwrap();
    let result_bad = predictor.predict(&cert, Some(&bad_history)).unwrap();

    assert!(
        prob(result_bad.prediction.failure_probability) > prob(result_good.prediction.failure_probability),
        "More failures ({}) should increase probability vs no failures ({})",
        prob(result_bad.prediction.failure_probability),
        prob(result_good.prediction.failure_probability)
    );
}

#[test]
fn test_probability_capped_at_1_0() {
    let now = Utc::now();
    let predictor = RenewalPredictor::with_now(ts(now));
    // Expired certificate with bad history
    let cert = make_cert(now - Duration::days(10));

    let history = RenewalHistory {
        previous_renewal_days: vec![],
        past_failures: 10,
        issuer_avg_response_days: f64::ceil(30.0) as i64,
    };

    let result = predictor.predict(&cert, Some(&history)).unwrap();
    assert!(
        prob(result.prediction.failure_probability) <= 1.0,
        "Probability should be capped at 1.0, got {}",
        prob(result.prediction.failure_probability)
    );
}

#[test]
fn test_reasoning_contains_relevant_info() {
    let now = Utc::now();
    let predictor = RenewalPredictor::with_now(ts(now));
    let cert = make_cert(now + Duration::days(10));

    let result = predictor.predict(&cert, None).unwrap();

    assert!(result.prediction.reasoning.contains("10 days"));
    assert!(result.prediction.reasoning.contains("No renewal activity"));
    assert!(result.prediction.reasoning.contains("No historical"));
    assert!(result.prediction.reasoning.len() <= 500);
}

#[test]
fn test_expired_alert_reasoning() {
    let now = Utc::now();
    let predictor = RenewalPredictor::with_now(ts(now));
    let cert = make_cert(now - Duration::days(3));

    let result = predictor.predict(&cert, None).unwrap();
    let directive = result.directive.unwrap();

    assert!(directive.reasoning.contains("expired"));
    assert!(directive.reasoning.len() <= 500);
}

#[test]
fn test_renewal_activity_detected_with_history() {
    let now = Utc::now();
    let predictor = RenewalPredictor::with_now(ts(now));
    // 15 days until expiry, history shows renewals typically at 20 days
    let cert = make_cert(now + Duration::days(15));

    let history = RenewalHistory {
        previous_renewal_days: vec![20, 22, 18],
        past_failures: 0,
        issuer_avg_response_days: f64::ceil(2.0) as i64,
    };

    let result = predictor.predict(&cert, Some(&history)).unwrap();
    // Average renewal day is 20, we're at 15 which is < 20, so activity should be detected
    assert!(
        result.prediction.renewal_activity_detected,
        "Should detect renewal activity when past typical renewal window"
    );
}

#[test]
fn test_high_severity_under_14_days_with_renewal_activity() {
    let now = Utc::now();
    let predictor = RenewalPredictor::with_now(ts(now));
    let cert = make_cert(now + Duration::days(10));

    let history = RenewalHistory {
        previous_renewal_days: vec![20, 22, 18],
        past_failures: 0,
        issuer_avg_response_days: f64::ceil(2.0) as i64,
    };

    let result = predictor.predict(&cert, Some(&history)).unwrap();
    // Under 14 days but renewal activity detected → High (not Critical)
    assert_eq!(result.prediction.severity, Severity::High);
}

#[test]
fn test_fingerprint_preserved_in_prediction() {
    let now = Utc::now();
    let predictor = RenewalPredictor::with_now(ts(now));
    let cert = make_cert(now + Duration::days(20));

    let result = predictor.predict(&cert, None).unwrap();
    assert_eq!(result.prediction.cert_fingerprint, cert.fingerprint);
}

#[test]
fn probabilities_agree_with_floating_point() {
    let now = Utc::now();
    let predictor = RenewalPredictor::with_now(ts(now));
    for days in -3..31i64 {
        let cert = make_cert(now + Duration::days(days));
        for failures in 0..6u32 {
            for response in [0.0f64, 2.5, 10.0, 40.0] {
                for usual in [vec![], vec![10, 21], vec![25]] {
                    let average = if usual.is_empty() {
                        0.0
                    } else {
                        usual.iter().map(|d| *d as f64).sum::<f64>() / usual.len() as f64
                    };
                    let active =
                        !usual.is_empty() && days > 0 && (days as f64) < average && failures == 0;
                    let base = if active { 0.2 } else { 0.4 };
                    let issuer = if days > 0 {
                        if response > days as f64 {
                            0.3
                        } else {
                            0.0
                        }
                    } else {
                        0.4
                    };
                    let pressure = (30 - days.max(0).min(30)) as f64 * 0.008;
                    let expected =
                        (base + (failures as f64 * 0.1).min(0.3) + issuer + pressure).min(1.0);
                    let history = RenewalHistory {
                        previous_renewal_days: usual,
                        past_failures: failures,
                        issuer_avg_response_days: response.ceil() as i64,
                    };
                    let result = predictor.predict(&cert, Some(&history)).unwrap();
                    let p = result.prediction.failure_probability;
                    assert!((prob(p) - expected).abs() < 1e-9);
                    assert_eq!(p >= 700, expected >= 0.7);
                    assert!(result
                        .prediction
                        .reasoning
                        .contains(&format!("Failure probability: {:.0}%", expected * 100.0)));
                    assert_eq!(result.prediction.renewal_activity_detected, active);
                }
            }
        }
    }
}

#[test]
fn history_is_put_into_words() {
    let now = Utc::now();
    let predictor = RenewalPredictor::with_now(ts(now));
    let cert = make_cert(now + Duration::days(20));
    for (days, shown) in [
        (vec![10, 11], "10"),
        (vec![11, 12], "12"),
        (vec![-1, 0], "-0"),
        (vec![-3], "-3"),
        (vec![1, 1, 2], "1"),
    ] {
        let history = RenewalHistory {
            previous_renewal_days: days,
            past_failures: 2,
            issuer_avg_response_days: 1,
        };
        let reasoning =
            predictor.predict(&cert, Some(&history)).unwrap().prediction.reasoning;
        assert_eq!(
            reasoning,
            format!("Certificate expires in 20 days. Failure probability: 68%. No renewal activity detected. Historical avg renewal: {} days before expiry. 2 past renewal failures", shown)
        );
    }
}
