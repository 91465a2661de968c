use chrono::{DateTime, Duration, Utc};
use tlapix::completeness;
use tlapix::reconciliation::{reconcile_inventory, RemovedEntry, ShadowState};
use tlapix::storage::{ActionDirectiveRow, ShadowCertificateRow};
use tlapix::time::Timestamp;
use tlapix::types::{CertificateMetadata, RiskLevel};

fn ts(t: DateTime<Utc>) -> Timestamp {
    Timestamp::new(t.timestamp(), t.timestamp_subsec_nanos()).unwrap()
}

fn make_test_cert(fingerprint: [u8; 32], last_seen: DateTime<Utc>) -> CertificateMetadata {
    let now = Utc::now();
    CertificateMetadata {
        fingerprint,
        subject: "CN=test.example.com".to_string(),
        issuer: "CN=Test CA".to_string(),
        serial_number: "ABCD1234".to_string(),
        not_before: ts(now - Duration::days(335)),
        not_after: ts(now + Duration::days(335)),
        sans: vec!["test.example.com".to_string()],
        key_algorithm: "RSA".to_string(),
        key_size: 2048,
        chain_depth: 2,
        issuer_fingerprint: Some([1u8; 32]),
        first_seen: ts(now - Duration::days(100)),
        last_seen: ts(last_seen),
        connection_count: 50,
        source_ip: Some("10.0.0.1".to_string()),
        destination_ip: Some("10.0.0.2".to_string()),
        sni_hostname: Some("test.example.com".to_string()),
        completeness_flags: completeness::ALL_REQUIRED | completeness::SANS,
    }
}

fn make_shadow_row(fingerprint: [u8; 32]) -> ShadowCertificateRow {
    let now_ms = Utc::now().timestamp_millis();
    ShadowCertificateRow {
        fingerprint,
        risk_level: RiskLevel::High,
        first_classified: now_ms - 86_400_000, // 1 day ago
        last_escalated: None,
        escalation_count: 0,
        source_ip: Some("192.168.1.1".to_string()),
        destination_ip: Some("10.0.0.1".to_string()),
        first_seen: now_ms - 172_800_000, // 2 days ago
        is_resolved: false,
        resolved_at: None,
    }
}

fn make_pending_directive(fingerprint: [u8; 32], id: &str) -> ActionDirectiveRow {
    let now_ms = Utc::now().timestamp_millis();
    ActionDirectiveRow {
        id: id.to_string(),
        correlation_id: format!("corr-{}", id),
        cert_fingerprint: fingerprint,
        action_type: "alert".to_string(),
        severity: "high".to_string(),
        reasoning: Some("Shadow certificate detected".to_string()),
        status: "pending".to_string(),
        attempt_count: 0,
        created_at: now_ms,
        executed_at: None,
        expired_at: None,
        failure_reason: None,
    }
}

fn state(fp: [u8; 32], in_inventory: bool, pending: Vec<ActionDirectiveRow>) -> ShadowState {
    ShadowState { row: make_shadow_row(fp), in_inventory, pending }
}

fn removed(fp: [u8; 32], last_seen: DateTime<Utc>, is_shadow: bool) -> RemovedEntry {
    RemovedEntry {
        fingerprint: fp,
        certificate: Some(make_test_cert(fp, last_seen)),
        shadow: if is_shadow { Some(make_shadow_row(fp)) } else { None },
    }
}

#[test]
fn test_shadow_resolved_when_appears_in_inventory() {
    let fp = [0xAA; 32];
    let now = Utc::now();
    let plan = reconcile_inventory(&vec![state(fp, true, vec![])], &vec![], &ts(now));
    assert_eq!(plan.result.shadows_resolved, 1);
    assert_eq!(plan.result.new_shadows_from_removal, 0);
    assert!(plan.resolved[0].is_resolved);
    assert_eq!(plan.resolved[0].resolved_at, Some(now.timestamp_millis()));
    assert_eq!(plan.resolved[0].fingerprint, fp);
    assert_eq!(plan.resolved[0].risk_level, RiskLevel::High);
}

#[test]
fn shadow_outside_inventory_stays() {
    let pending = vec![make_pending_directive([1; 32], "d")];
    let plan = reconcile_inventory(&vec![state([1; 32], false, pending)], &vec![], &ts(Utc::now()));
    assert!(plan.resolved.is_empty());
    assert!(plan.cancelled.is_empty());
    assert_eq!(plan.result.shadows_resolved, 0);
}

#[test]
fn test_pending_directives_cancelled_on_resolution() {
    let fp = [0xBB; 32];
    let pending = vec![
        make_pending_directive(fp, "dir-001"),
        make_pending_directive(fp, "dir-002"),
    ];
    let plan = reconcile_inventory(&vec![state(fp, true, pending)], &vec![], &ts(Utc::now()));
    assert_eq!(plan.result.shadows_resolved, 1);
    assert_eq!(plan.result.directives_cancelled, 2);
    assert_eq!(plan.cancelled[0].id, "dir-001");
    assert_eq!(plan.cancelled[0].status, "expired");
    assert_eq!(
        plan.cancelled[0].reason.as_deref(),
        Some("Certificate appeared in inventory; shadow resolved")
    );
    assert_eq!(plan.cancelled[1].id, "dir-002");
    assert_eq!(plan.cancelled[1].status, "expired");
}

#[test]
fn test_known_reclassified_as_shadow_when_removed_but_still_in_traffic() {
    let fp = [0xCC; 32];
    let now = Utc::now();
    let entries = vec![removed(fp, now - Duration::hours(2), false)];
    let plan = reconcile_inventory(&vec![], &entries, &ts(now));
    assert_eq!(plan.result.new_shadows_from_removal, 1);
    assert_eq!(plan.result.shadows_resolved, 0);
    let shadow = &plan.new_shadows[0];
    assert!(!shadow.is_resolved);
    assert_eq!(shadow.risk_level, RiskLevel::Low);
    assert_eq!(shadow.first_classified, now.timestamp_millis());
    assert_eq!(shadow.source_ip, Some("10.0.0.1".to_string()));
}

#[test]
fn test_no_reclassification_if_cert_not_in_traffic() {
    let now = Utc::now();
    let entries = vec![removed([0xDD; 32], now - Duration::hours(48), false)];
    let plan = reconcile_inventory(&vec![], &entries, &ts(now));
    assert_eq!(plan.result.new_shadows_from_removal, 0);
    assert_eq!(plan.result.shadows_resolved, 0);
    assert!(plan.new_shadows.is_empty());
}

#[test]
fn traffic_window_is_24_hours() {
    let now = Utc::now();
    let inside = vec![removed([1; 32], now - Duration::hours(24), false)];
    assert_eq!(reconcile_inventory(&vec![], &inside, &ts(now)).new_shadows.len(), 1);
    let outside =
        vec![removed([1; 32], now - Duration::hours(24) - Duration::milliseconds(1), false)];
    assert_eq!(reconcile_inventory(&vec![], &outside, &ts(now)).new_shadows.len(), 0);
}

#[test]
fn test_no_reclassification_if_cert_not_found() {
    let entries =
        vec![RemovedEntry { fingerprint: [0xEE; 32], certificate: None, shadow: None }];
    let plan = reconcile_inventory(&vec![], &entries, &ts(Utc::now()));
    assert_eq!(plan.result.new_shadows_from_removal, 0);
    assert_eq!(plan.result.shadows_resolved, 0);
}

#[test]
fn test_already_shadow_not_duplicated() {
    let now = Utc::now();
    let entries = vec![removed([0xFF; 32], now - Duration::hours(1), true)];
    let plan = reconcile_inventory(&vec![], &entries, &ts(now));
    assert_eq!(plan.result.new_shadows_from_removal, 0);
}

#[test]
fn resolved_shadow_is_opened_again() {
    let fp = [0xAB; 32];
    let now = Utc::now();
    let mut entry = removed(fp, now - Duration::hours(1), true);
    if let Some(row) = &mut entry.shadow {
        row.is_resolved = true;
        row.resolved_at = Some(now.timestamp_millis() - 1000);
    }
    let plan = reconcile_inventory(&vec![], &vec![entry], &ts(now));
    assert_eq!(plan.result.new_shadows_from_removal, 1);
    assert_eq!(plan.result.shadows_resolved, 0);
    assert_eq!(plan.new_shadows[0].fingerprint, fp);
    assert!(!plan.new_shadows[0].is_resolved);
    assert_eq!(plan.new_shadows[0].resolved_at, None);
    assert_eq!(plan.new_shadows[0].first_classified, now.timestamp_millis());
}

#[test]
fn removed_twice_becomes_shadow_once() {
    let now = Utc::now();
    let entries = vec![
        removed([5; 32], now, false),
        removed([6; 32], now, false),
        removed([5; 32], now, false),
    ];
    let plan = reconcile_inventory(&vec![], &entries, &ts(now));
    let fps: Vec<u8> = plan.new_shadows.iter().map(|r| r.fingerprint[0]).collect();
    assert_eq!(fps, vec![5, 6]);
}

#[test]
fn test_combined_reconciliation() {
    let now = Utc::now();
    let fp = [0x11; 32];
    let shadows = vec![state(fp, true, vec![make_pending_directive(fp, "dir-resolve")])];
    let entries = vec![removed([0x22; 32], now - Duration::hours(3), false)];
    let plan = reconcile_inventory(&shadows, &entries, &ts(now));
    assert_eq!(plan.result.shadows_resolved, 1);
    assert_eq!(plan.result.directives_cancelled, 1);
    assert_eq!(plan.result.new_shadows_from_removal, 1);
}
