use tlapix::ai_backend::{
    model_not_found, AiBackend, AiBackendError, AnalyzerMode, AnalyzerService, InferenceOutcome,
};
use tlapix::anomaly::AnomalyDetector;
use tlapix::audit::{AuditError, AuditLogger};
use tlapix::bpf::BpfActionEntry;
use tlapix::cli::{parse_args, CliError};
use tlapix::completeness;
use tlapix::config;
use tlapix::time::Timestamp;
use tlapix::types::{AnomalyType, CertificateMetadata, RiskLevel, Severity};

fn make_test_metadata() -> CertificateMetadata {
    let now = chrono::Utc::now().timestamp();
    let day = 86_400;
    let at = |secs: i64| Timestamp::new(secs, 0).unwrap();
    CertificateMetadata {
        fingerprint: [0u8; 32],
        subject: "CN=test.example.com".to_string(),
        issuer: "CN=Test CA".to_string(),
        serial_number: "01".to_string(),
        not_before: at(now - 30 * day),
        not_after: at(now + 335 * day),
        sans: vec!["test.example.com".to_string()],
        key_algorithm: "RSA".to_string(),
        key_size: 2048,
        chain_depth: 2,
        issuer_fingerprint: Some([1u8; 32]),
        first_seen: at(now - 30 * day),
        last_seen: at(now),
        connection_count: 5,
        source_ip: Some("10.0.0.1".to_string()),
        destination_ip: Some("10.0.0.2".to_string()),
        sni_hostname: Some("test.example.com".to_string()),
        completeness_flags: completeness::ALL_REQUIRED | completeness::SANS,
    }
}

#[test]
fn test_fallback_when_model_file_does_not_exist() {
    let missing = model_not_found("/tmp/non_existent_model_12345.onnx");
    let backend = AiBackend::new(Err(missing), 5);
    let mode = backend.health_check();
    assert!(
        matches!(mode, AnalyzerMode::RuleBasedFallback { .. }),
        "Expected fallback mode when model file doesn't exist, got: {:?}",
        mode
    );
    assert_eq!(
        mode.to_text(),
        "Rule-Based Fallback (Failed to load model: Model file not found: /tmp/non_existent_model_12345.onnx)"
    );
}

#[test]
fn test_fallback_mode_created_directly() {
    let backend = AiBackend::fallback("test reason".to_string());
    match backend.health_check() {
        AnalyzerMode::RuleBasedFallback { reason } => {
            assert_eq!(reason, "test reason");
        }
        _ => panic!("Expected RuleBasedFallback mode"),
    }
}

#[test]
fn test_evaluate_returns_error_in_fallback_mode() {
    let mut backend = AiBackend::fallback("no model".to_string());
    let result = backend.begin_evaluation();
    assert!(result.is_err());
    assert!(matches!(result.unwrap_err(), AiBackendError::InFallbackMode));
}

#[test]
fn test_analyzer_service_uses_rule_based_in_fallback() {
    let service = AnalyzerService::rule_based_only("test".to_string());
    let anomalies =
        service.evaluate(&make_test_metadata(), Err(AiBackendError::InFallbackMode));
    assert!(anomalies.is_empty());
    assert!(matches!(service.health_check(), AnalyzerMode::RuleBasedFallback { .. }));
}

#[test]
fn test_analyzer_service_detects_anomalies_in_fallback() {
    let service = AnalyzerService::rule_based_only("test".to_string());
    let mut metadata = make_test_metadata();
    metadata.key_size = 1024;
    let anomalies = service.evaluate(&metadata, Err(AiBackendError::InFallbackMode));
    assert_eq!(anomalies.len(), 1);
    assert!(matches!(anomalies[0].0, AnomalyType::WeakCryptography { .. }));
    assert_eq!(anomalies[0].1, Severity::Critical);
}

#[test]
fn model_findings_come_after_those_of_the_rules() {
    let service = AnalyzerService::new(AiBackend::new(Ok(()), 5), AnomalyDetector::with_defaults());
    let mut metadata = make_test_metadata();
    metadata.key_size = 1024;
    let found = vec![(AnomalyType::ExpiredCertificate, Severity::Low)];
    let anomalies = service.evaluate(&metadata, Ok(found));
    assert_eq!(anomalies.len(), 2);
    assert!(matches!(anomalies[0].0, AnomalyType::WeakCryptography { .. }));
    assert_eq!(anomalies[1], (AnomalyType::ExpiredCertificate, Severity::Low));
}

#[test]
fn test_analyzer_service_with_nonexistent_model_falls_back() {
    let service = AnalyzerService::with_model(Err("gone".to_string()), 5);
    assert!(matches!(service.health_check(), AnalyzerMode::RuleBasedFallback { .. }));
    let mut metadata = make_test_metadata();
    metadata.key_size = 512;
    assert!(!service.evaluate(&metadata, Err(AiBackendError::InFallbackMode)).is_empty());
}

#[test]
fn ai_backend_test_timeout_handling() {
    let mut backend = AiBackend::new(Ok(()), 7);
    assert_eq!(backend.begin_evaluation(), Ok(()));
    let result = backend.finish_evaluation(InferenceOutcome::TimedOut);
    assert!(matches!(result, Err(AiBackendError::Timeout)));
    assert_eq!(
        backend.health_check().to_text(),
        "Rule-Based Fallback (Inference timed out after 7 seconds)"
    );
    assert_eq!(backend.begin_evaluation(), Err(AiBackendError::InFallbackMode));
    // The first reason stays.
    backend.enter_fallback("later".to_string());
    assert_eq!(
        backend.health_check().to_text(),
        "Rule-Based Fallback (Inference timed out after 7 seconds)"
    );
}

#[test]
fn inference_error_falls_back() {
    let mut backend = AiBackend::new(Ok(()), 5);
    let result = backend.finish_evaluation(InferenceOutcome::Failed { error: "e".to_string() });
    assert_eq!(result, Err(AiBackendError::InferenceError("e".to_string())));
    assert_eq!(backend.health_check().to_text(), "Rule-Based Fallback (Inference error: e)");
}

#[test]
fn missing_session_falls_back() {
    let mut backend = AiBackend::new(Ok(()), 5);
    backend.session_loaded = false;
    assert_eq!(backend.begin_evaluation(), Err(AiBackendError::NoSession));
    assert_eq!(
        backend.health_check().to_text(),
        "Rule-Based Fallback (No model session available)"
    );
}

#[test]
fn test_mode_display() {
    assert_eq!(AnalyzerMode::AiPowered.to_text(), "AI-Powered");
    let fallback_mode = AnalyzerMode::RuleBasedFallback { reason: "model not found".to_string() };
    assert_eq!(fallback_mode.to_text(), "Rule-Based Fallback (model not found)");
}

#[test]
fn test_analyzer_service_health_check_reports_mode() {
    let service = AnalyzerService::rule_based_only("no model configured".to_string());
    match service.health_check() {
        AnalyzerMode::RuleBasedFallback { reason } => {
            assert_eq!(reason, "no model configured");
        }
        _ => panic!("Expected fallback mode"),
    }
}

#[test]
fn test_ai_backend_error_variants() {
    assert_eq!(AiBackendError::InFallbackMode.message(), "AI backend is in fallback mode");
    assert_eq!(AiBackendError::NoSession.message(), "No ONNX model session available");
    assert_eq!(AiBackendError::Timeout.message(), "AI inference timed out");
    let err = AiBackendError::InferenceError("test error".to_string());
    assert_eq!(err.message(), "AI inference error: test error");
}

#[test]
fn test_correlation_id_propagation_across_stages() {
    let id = AuditLogger::new_correlation_id();
    let fp = [3u8; 32];
    let rows = vec![
        AuditLogger::log_observation(id, &fp, "{}"),
        AuditLogger::log_analysis(id, &fp, "{}"),
        AuditLogger::log_action(id, &fp, "{}"),
    ];
    for row in &rows {
        assert_eq!(row.correlation_id, id.to_text());
        assert_eq!(row.cert_fingerprint, fp);
        assert_eq!(row.id, 0);
        assert_eq!(row.timestamp, row.created_at);
        assert_eq!(row.details, "{}");
    }
    assert_eq!(rows[0].stage, "observation");
    assert_eq!(rows[1].stage, "analysis");
    assert_eq!(rows[2].stage, "action");
}

#[test]
fn test_health_check_initially_healthy() {
    assert!(AuditLogger::new().is_healthy());
}

#[test]
fn test_health_check_becomes_unhealthy_on_write_failure() {
    let mut logger = AuditLogger::new();
    let result = logger.record_write(Err("disk full".to_string()));
    assert!(!logger.is_healthy());
    assert_eq!(result.unwrap_err().message(), "Audit storage error: disk full");
    assert!(!logger.try_restore_health(false));
    assert!(!logger.is_healthy());
    assert!(logger.try_restore_health(true));
    assert!(logger.is_healthy());
}

#[test]
fn test_health_recovers_on_successful_write() {
    let mut logger = AuditLogger::new();
    logger.healthy = false;
    assert!(!logger.is_healthy());
    assert!(logger.record_write(Ok(())).is_ok());
    assert!(logger.is_healthy());
}

#[test]
fn health_comes_back_with_a_test_write() {
    let mut logger = AuditLogger::new();
    assert!(logger.record_write(Err("read-only".to_string())).is_err());
    let now = Timestamp::new(1_700_000_000, 5_000_000).unwrap();
    let probe = AuditLogger::probe_entry_at(&now);
    assert_eq!(probe.id, 0);
    assert_eq!(probe.correlation_id, "__health_check__");
    assert_eq!(probe.cert_fingerprint, [0u8; 32]);
    assert_eq!(probe.stage, "health_check");
    assert_eq!(probe.details, "");
    assert_eq!(probe.timestamp, 1_700_000_000_005);
    assert_eq!(probe.created_at, 1_700_000_000_005);
    // The trail can be read, but the probe cannot be written.
    assert!(!logger.try_restore_health(false));
    assert!(!logger.is_healthy());
    assert!(logger.try_restore_health(true));
    assert!(logger.is_healthy());
}

#[test]
fn audit_serialization_error_message() {
    let error = AuditError::Serialization("x".to_string());
    assert_eq!(error.message(), "Audit serialization error: x");
}

#[test]
fn test_new_correlation_id_is_unique() {
    let id1 = AuditLogger::new_correlation_id();
    let id2 = AuditLogger::new_correlation_id();
    let id3 = AuditLogger::new_correlation_id();
    assert_ne!(id1, id2);
    assert_ne!(id2, id3);
    assert_ne!(id1, id3);
}

#[test]
fn identifiers_are_written_with_hyphens() {
    let id = tlapix::ids::Uuid { bits: 0x0123_4567_89ab_cdef_fedc_ba98_7654_3210 };
    assert_eq!(id.to_text(), "01234567-89ab-cdef-fedc-ba9876543210");
    let text = tlapix::ids::Uuid::new_v4().to_text();
    assert_eq!(&text[14..15], "4");
    assert!("89ab".contains(&text[19..20]));
}

fn words(line: &str) -> Vec<String> {
    line.split(' ').map(|w| w.to_string()).collect()
}

#[test]
fn command_line_defaults() {
    let args = parse_args(&words("tlapix")).unwrap();
    assert_eq!(args.config_path, "/etc/tlapix/tlapix.toml");
    assert!(!args.version);
    assert_eq!(parse_args(&vec![]).unwrap().config_path, "/etc/tlapix/tlapix.toml");
}

#[test]
fn command_line_options() {
    let args = parse_args(&words("tlapix --config /a -V /b -c /c")).unwrap();
    assert_eq!(args.config_path, "/c");
    assert!(args.version);
    assert!(parse_args(&words("tlapix --version")).unwrap().version);
    assert_eq!(parse_args(&words("tlapix /b")).unwrap().config_path, "/b");
    assert_eq!(parse_args(&words("tlapix -c --version")).unwrap().config_path, "--version");
}

#[test]
fn command_line_errors() {
    assert!(matches!(
        parse_args(&words("tlapix --config")),
        Err(CliError::MissingConfigPath)
    ));
    match parse_args(&words("tlapix --verbose /x")) {
        Err(CliError::UnknownArgument { argument }) => assert_eq!(argument, "--verbose"),
        other => panic!("unexpected {:?}", other),
    }
}

#[test]
fn severities_and_kernel_values() {
    for value in 0..4u8 {
        assert_eq!(Severity::from_bpf_value(value).unwrap().to_bpf_value(), value);
    }
    assert_eq!(Severity::from_bpf_value(4), None);
    assert_eq!(Severity::Critical.to_bpf_value(), 3);
    assert!(Severity::Low < Severity::Critical);
}

#[test]
fn risk_escalation_stops_at_critical() {
    assert_eq!(RiskLevel::Low.escalate(), RiskLevel::Medium);
    assert_eq!(RiskLevel::Medium.escalate(), RiskLevel::High);
    assert_eq!(RiskLevel::High.escalate(), RiskLevel::Critical);
    assert_eq!(RiskLevel::Critical.escalate(), RiskLevel::Critical);
}

#[test]
fn kernel_entry_flags() {
    let mut entry = BpfActionEntry {
        fingerprint: [0; 32],
        action: 3,
        severity: 3,
        created_ts: 0,
        pinned_fp: [0; 32],
        flags: 0,
    };
    assert!(!entry.is_active() && !entry.is_failed());
    entry.flags = BpfActionEntry::FLAG_ACTIVE;
    assert!(entry.is_active() && !entry.is_failed());
    entry.flags = 0xfe;
    assert!(!entry.is_active() && entry.is_failed());
}

#[test]
fn configuration_defaults() {
    assert_eq!(config::default_ring_buffer_size_mb(), 16);
    assert_eq!(config::default_local_buffer_capacity(), 10_000);
    assert_eq!(config::default_metadata_retention_days(), 90);
    assert_eq!(config::default_ai_timeout_secs(), 5);
    assert_eq!(config::default_inventory_poll_interval_secs(), 300);
    assert_eq!(config::default_prediction_reevaluation_hours(), 24);
    assert_eq!(config::default_renewal_threshold_probability(), 700);
    assert_eq!(config::default_max_map_entries(), 10_000);
    assert_eq!(config::default_max_map_memory_mb(), 64);
    assert_eq!(config::default_directive_expiry_hours(), 72);
    assert_eq!(config::default_retry_max_attempts(), 3);
    assert_eq!(config::default_retry_base_ms(), 100);
    assert_eq!(config::default_webhook_timeout_secs(), 10);
    assert_eq!(config::default_webhook_retry_max(), 3);
    assert_eq!(config::default_webhook_retry_base_secs(), 1);
    assert_eq!(config::default_audit_retention_days(), 90);
}

#[test]
fn required_fields() {
    assert_eq!(
        completeness::ALL_REQUIRED,
        completeness::SUBJECT
            | completeness::ISSUER
            | completeness::SERIAL_NUMBER
            | completeness::NOT_BEFORE
            | completeness::NOT_AFTER
            | completeness::KEY_ALGORITHM
            | completeness::KEY_SIZE
    );
    assert_eq!(completeness::ISSUER_FINGERPRINT, 1 << 9);
}
