use tlapix::bpf::read_event;
use tlapix::storage::{
    audit_columns, certificate_columns, directive_columns, expiry_horizon, fingerprint_from_blob,
    fingerprints_from_blobs, has_times_in_calendar, merge_columns, prediction_columns,
    refresh_columns, touch_columns,
    retention_cutoff, risk_level_to_str, row_to_action_directive, row_to_audit_log,
    row_to_certificate_metadata, row_to_refresh_log, row_to_renewal_prediction,
    row_to_shadow_certificate, shadow_columns, str_to_risk_level, ActionDirectiveRow, AuditLogRow,
    InventoryRefreshLogRow, RenewalPredictionRow, ShadowCertificateRow, StorageError,
};
use tlapix::text::{bound_reasoning, same_ignoring_ascii_case};
use tlapix::time::Timestamp;
use tlapix::types::{CertificateMetadata, RiskLevel};

fn certificate() -> CertificateMetadata {
    let at = |secs: i64, nanos: u32| Timestamp::new(secs, nanos).unwrap();
    CertificateMetadata {
        fingerprint: [0xAB; 32],
        subject: "CN=test.example.com".to_string(),
        issuer: "CN=Test CA".to_string(),
        serial_number: "01:02:03".to_string(),
        not_before: at(1_700_000_000, 123_456_789),
        not_after: at(1_800_000_000, 0),
        sans: vec!["test.example.com".to_string(), "quote \" and \\ and \u{e9}".to_string()],
        key_algorithm: "RSA".to_string(),
        key_size: 2048,
        chain_depth: 200,
        issuer_fingerprint: Some([7; 32]),
        first_seen: at(-5, 1_000_000),
        last_seen: at(1_700_000_001, 999_999_999),
        connection_count: u64::MAX,
        source_ip: Some("192.168.1.1".to_string()),
        destination_ip: None,
        sni_hostname: Some("test.example.com".to_string()),
        completeness_flags: 0x3ff,
    }
}

#[test]
fn test_certificate_crud() {
    let cert = certificate();
    let columns = certificate_columns(&cert);
    assert_eq!(columns.not_before, 1_700_000_000_123);
    assert_eq!(columns.first_seen, -4_999);
    assert_eq!(columns.connection_count, -1);
    assert_eq!(
        columns.sans.as_deref(),
        Some("[\"test.example.com\",\"quote \\\" and \\\\ and \u{e9}\"]")
    );
    assert!(has_times_in_calendar(&columns));
    let back = row_to_certificate_metadata(columns);
    assert_eq!(back.fingerprint, cert.fingerprint);
    assert_eq!(back.subject, cert.subject);
    assert_eq!(back.sans, cert.sans);
    assert_eq!(back.not_before, Timestamp::new(1_700_000_000, 123_000_000).unwrap());
    assert_eq!(back.not_after, cert.not_after);
    assert_eq!(back.first_seen, cert.first_seen);
    assert_eq!(back.chain_depth, 200);
    assert_eq!(back.issuer_fingerprint, Some([7; 32]));
    assert_eq!(back.connection_count, u64::MAX);
    assert_eq!(back.destination_ip, None);
    assert_eq!(back.completeness_flags, 0x3ff);
}

#[test]
fn every_observation_counts_once() {
    let mut cert = certificate();
    cert.connection_count = 1;
    let first = certificate_columns(&cert);
    let stored = merge_columns(None, first.clone());
    assert_eq!(stored.connection_count, 1);
    cert.subject = "CN=other".to_string();
    cert.first_seen = Timestamp::new(1_700_000_100, 0).unwrap();
    cert.last_seen = Timestamp::new(1_700_000_100, 0).unwrap();
    let stored = merge_columns(Some(stored), certificate_columns(&cert));
    assert_eq!(stored.connection_count, 2);
    assert_eq!(stored.last_seen, 1_700_000_100_000);
    assert_eq!(stored.first_seen, first.first_seen);
    assert_eq!(stored.subject, first.subject);
    let stored = touch_columns(stored, 1_700_000_200_000);
    assert_eq!(stored.connection_count, 3);
    assert_eq!(stored.last_seen, 1_700_000_200_000);
    assert_eq!(row_to_certificate_metadata(stored).connection_count, 3);
}

#[test]
fn damaged_columns_are_read_as_far_as_possible() {
    let mut columns = certificate_columns(&certificate());
    columns.fingerprint = vec![1, 2, 3];
    columns.issuer_fingerprint = Some(vec![9; 31]);
    columns.sans = Some("not json".to_string());
    let cert = row_to_certificate_metadata(columns.clone());
    assert_eq!(cert.fingerprint, [0; 32]);
    assert_eq!(cert.issuer_fingerprint, None);
    assert!(cert.sans.is_empty());
    columns.sans = None;
    columns.issuer_fingerprint = None;
    let cert = row_to_certificate_metadata(columns.clone());
    assert!(cert.sans.is_empty());
    columns.not_after = i64::MAX;
    assert!(!has_times_in_calendar(&columns));
}

#[test]
fn test_shadow_certificate_crud() {
    let row = ShadowCertificateRow {
        fingerprint: [4; 32],
        risk_level: RiskLevel::High,
        first_classified: 10,
        last_escalated: Some(20),
        escalation_count: 2,
        source_ip: Some("a".to_string()),
        destination_ip: None,
        first_seen: 5,
        is_resolved: true,
        resolved_at: Some(30),
    };
    let columns = shadow_columns(&row);
    assert_eq!(columns.risk_level, "high");
    assert_eq!(columns.is_resolved, 1);
    let back = row_to_shadow_certificate(columns);
    assert_eq!(back.fingerprint, [4; 32]);
    assert_eq!(back.risk_level, RiskLevel::High);
    assert_eq!(back.last_escalated, Some(20));
    assert_eq!(back.escalation_count, 2);
    assert!(back.is_resolved);
    assert_eq!(back.resolved_at, Some(30));
}

#[test]
fn risk_level_names() {
    for level in [RiskLevel::Low, RiskLevel::Medium, RiskLevel::High, RiskLevel::Critical] {
        assert_eq!(str_to_risk_level(risk_level_to_str(&level)), level);
    }
    assert_eq!(str_to_risk_level("severe"), RiskLevel::Low);
}

#[test]
fn fingerprints_of_wrong_length_are_zero() {
    assert_eq!(fingerprint_from_blob(&vec![8; 32]), [8; 32]);
    assert_eq!(fingerprint_from_blob(&vec![8; 33]), [0; 32]);
}

#[test]
fn test_retention_cleanup() {
    let now = Timestamp::new(1_700_000_000, 0).unwrap();
    let day = 86_400_000;
    let cutoff = retention_cutoff(&now, 90);
    assert_eq!(cutoff, 1_700_000_000_000 - 90 * day);
    for days_old in 0..365 {
        let seen = 1_700_000_000_000 - days_old * day;
        assert_eq!(seen < cutoff, days_old > 90);
    }
    assert_eq!(expiry_horizon(&now, 30), 1_700_000_000_000 + 30 * day);
    assert_eq!(expiry_horizon(&now, -1), 1_700_000_000_000 - day);
}

#[test]
fn storage_error_messages() {
    assert_eq!(StorageError::Sqlite("a".to_string()).message(), "SQLite error: a");
    assert_eq!(StorageError::Internal("b".to_string()).message(), "Internal error: b");
    assert_eq!(StorageError::Conversion("c".to_string()).message(), "Data conversion error: c");
}

#[test]
fn reasoning_is_cut_at_whole_characters() {
    let fits = "x".repeat(500);
    assert_eq!(bound_reasoning(fits.clone()), fits);
    let long = "x".repeat(501);
    assert_eq!(bound_reasoning(long), format!("{}...", "x".repeat(497)));
    // 248 characters of two bytes fit into 497 bytes.
    let wide = "\u{e9}".repeat(300);
    assert_eq!(bound_reasoning(wide), format!("{}...", "\u{e9}".repeat(248)));
    let wide = "\u{20ac}".repeat(166);
    assert_eq!(bound_reasoning(wide.clone()), wide);
}

#[test]
fn case_is_ignored_for_ascii_only() {
    assert!(same_ignoring_ascii_case("CN=Example", "cn=eXAMPLE"));
    assert!(!same_ignoring_ascii_case("CN=\u{c9}", "CN=\u{e9}"));
    assert!(!same_ignoring_ascii_case("a", "ab"));
}

#[test]
fn days_are_rounded_towards_zero() {
    let day = 86_400;
    let a = Timestamp::new(0, 0).unwrap();
    let b = Timestamp::new(2 * day - 1, 999_999_999).unwrap();
    assert_eq!(b.days_since(&a), 1);
    assert_eq!(a.days_since(&b), -1);
    let c = Timestamp::new(2 * day, 0).unwrap();
    assert_eq!(c.days_since(&a), 2);
    assert_eq!(a.days_since(&c), -2);
    assert!(a.is_before(&b) && !b.is_before(&a) && !a.is_before(&a));
    assert!(Timestamp::new(0, 1_000_000_000).is_none());
    assert!(Timestamp::new(8_210_266_876_799, 0).is_some());
    assert!(Timestamp::new(8_210_266_876_800, 0).is_none());
    assert!(Timestamp::new(-8_334_601_228_800, 0).is_some());
    assert!(Timestamp::new(-8_334_601_228_801, 0).is_none());
}

#[test]
fn fingerprints_are_picked_from_columns() {
    let blobs = vec![vec![1; 32], vec![2; 31], vec![3; 32], vec![]];
    assert_eq!(fingerprints_from_blobs(&blobs), vec![[1; 32], [3; 32]]);
}

#[test]
fn kernel_events_are_read_by_their_layout() {
    let mut data = vec![0u8; 4460];
    data[0..8].copy_from_slice(&0x0102_0304_0506_0708u64.to_le_bytes());
    data[8..12].copy_from_slice(&0xC0A8_0001u32.to_le_bytes());
    data[12..16].copy_from_slice(&0x0A00_0001u32.to_le_bytes());
    data[16..18].copy_from_slice(&54321u16.to_le_bytes());
    data[18..20].copy_from_slice(&443u16.to_le_bytes());
    data[20] = 4;
    data[22..24].copy_from_slice(&0x0303u16.to_le_bytes());
    data[24..26].copy_from_slice(&11u16.to_le_bytes());
    data[26..37].copy_from_slice(b"example.com");
    data[282] = 0xfa;
    data[313] = 0xfb;
    data[316..320].copy_from_slice(&5000u32.to_le_bytes());
    data[320] = 0x30;
    data[4415] = 0x31;
    data[4416] = 7;
    data[4417] = 0xaa;
    data[4448] = 0xbb;
    data[4449] = 1;
    let event = read_event(&data, true).unwrap();
    assert_eq!(event.timestamp_ns, 0x0102_0304_0506_0708);
    assert_eq!(event.src_ip, 0xC0A8_0001);
    assert_eq!(event.dst_ip, 0x0A00_0001);
    assert_eq!(event.src_port, 54321);
    assert_eq!(event.dst_port, 443);
    assert_eq!(event.ip_version, 4);
    assert_eq!(event.tls_version, 0x0303);
    assert_eq!(event.sni_len, 11);
    assert_eq!(&event.sni[..12], b"example.com\0");
    assert_eq!((event.fingerprint[0], event.fingerprint[31]), (0xfa, 0xfb));
    assert_eq!(event.cert_len, 5000);
    assert_eq!((event.cert_data[0], event.cert_data[4095]), (0x30, 0x31));
    assert_eq!(event.chain_depth, 7);
    assert_eq!((event.issuer_fingerprint[0], event.issuer_fingerprint[31]), (0xaa, 0xbb));
    assert_eq!(event.is_new, 1);
    let swapped = read_event(&data, false).unwrap();
    assert_eq!(swapped.timestamp_ns, 0x0807_0605_0403_0201);
    assert_eq!(swapped.dst_port, 443u16.swap_bytes());
    assert!(read_event(&data[..4456], true).is_some());
    assert!(read_event(&data[..4455], true).is_none());
}

#[test]
fn directives_and_logs_survive_their_columns() {
    let directive = ActionDirectiveRow {
        id: "d".to_string(),
        correlation_id: "c".to_string(),
        cert_fingerprint: [5; 32],
        action_type: "renew".to_string(),
        severity: "low".to_string(),
        reasoning: Some("r".to_string()),
        status: "pending".to_string(),
        attempt_count: 2,
        created_at: 3,
        executed_at: Some(4),
        expired_at: None,
        failure_reason: None,
    };
    let back = row_to_action_directive(directive_columns(&directive));
    assert_eq!(back.cert_fingerprint, [5; 32]);
    assert_eq!(back.executed_at, Some(4));
    assert_eq!(back.reasoning, Some("r".to_string()));
    let prediction = RenewalPredictionRow {
        cert_fingerprint: [6; 32],
        failure_probability: 725,
        severity: "high".to_string(),
        days_until_expiry: -1,
        renewal_activity_detected: true,
        reasoning: None,
        last_evaluated: 1,
        created_at: 2,
    };
    let columns = prediction_columns(&prediction);
    assert_eq!(columns.renewal_activity_detected, 1);
    assert!(row_to_renewal_prediction(columns).renewal_activity_detected);
    let entry = AuditLogRow {
        id: 9,
        correlation_id: "c".to_string(),
        cert_fingerprint: [7; 32],
        stage: "action".to_string(),
        timestamp: 1,
        details: "{}".to_string(),
        created_at: 1,
    };
    assert_eq!(row_to_audit_log(audit_columns(&entry)).cert_fingerprint, [7; 32]);
    let log = InventoryRefreshLogRow {
        id: "l".to_string(),
        timestamp: 1,
        source: "file".to_string(),
        total_entries: Some(1),
        new_entries: None,
        removed_entries: Some(0),
        skipped_invalid: None,
        success: false,
    };
    let columns = refresh_columns(&log);
    assert_eq!(columns.success, 0);
    assert!(!row_to_refresh_log(columns).success);
}
