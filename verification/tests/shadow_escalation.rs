use chrono::{DateTime, Utc};
use tlapix::shadow_escalation::{escalate_stale_shadows, replace_prior_directives};
use tlapix::storage::{pending_row, ActionDirectiveRow, ShadowCertificateRow};
use tlapix::time::Timestamp;
use tlapix::types::{ActionType, RiskLevel, Severity};

fn ts(t: DateTime<Utc>) -> Timestamp {
    Timestamp::new(t.timestamp(), t.timestamp_subsec_nanos()).unwrap()
}

const HOUR: i64 = 60 * 60 * 1000;

fn shadow(
    fingerprint: [u8; 32],
    risk_level: RiskLevel,
    first_classified: i64,
    last_escalated: Option<i64>,
    escalation_count: i32,
) -> ShadowCertificateRow {
    ShadowCertificateRow {
        fingerprint,
        risk_level,
        first_classified,
        last_escalated,
        escalation_count,
        source_ip: Some("192.168.1.100".to_string()),
        destination_ip: Some("10.0.0.50".to_string()),
        first_seen: first_classified,
        is_resolved: false,
        resolved_at: None,
    }
}

fn make_pending_directive(fingerprint: [u8; 32], id: &str) -> ActionDirectiveRow {
    let now_ms = Utc::now().timestamp_millis();
    ActionDirectiveRow {
        id: id.to_string(),
        correlation_id: format!("corr-{}", id),
        cert_fingerprint: fingerprint,
        action_type: "alert".to_string(),
        severity: "high".to_string(),
        reasoning: Some("Shadow certificate detected".to_string()),
        status: "pending".to_string(),
        attempt_count: 0,
        created_at: now_ms,
        executed_at: None,
        expired_at: None,
        failure_reason: None,
    }
}

#[test]
fn test_escalation_low_to_medium_after_24h() {
    let fp = [0xA1; 32];
    let now = Utc::now();
    let now_ms = now.timestamp_millis();
    let rows = vec![shadow(fp, RiskLevel::Low, now_ms - 25 * HOUR, None, 0)];
    let plan = escalate_stale_shadows(&rows, &ts(now));
    assert_eq!(plan.len(), 1);
    // No critical directive generated (only escalated to Medium)
    assert!(plan[0].directive.is_none());
    let updated = &plan[0].updated;
    assert_eq!(updated.fingerprint, fp);
    assert_eq!(updated.risk_level, RiskLevel::Medium);
    assert_eq!(updated.escalation_count, 1);
    assert_eq!(updated.last_escalated, Some(now_ms));
    assert_eq!(updated.source_ip, Some("192.168.1.100".to_string()));
}

#[test]
fn test_escalation_medium_to_high_after_24h() {
    let now = Utc::now();
    let now_ms = now.timestamp_millis();
    let rows = vec![shadow(
        [0xA2; 32],
        RiskLevel::Medium,
        now_ms - 50 * HOUR,
        Some(now_ms - 25 * HOUR),
        1,
    )];
    let plan = escalate_stale_shadows(&rows, &ts(now));
    assert!(plan[0].directive.is_none());
    assert_eq!(plan[0].updated.risk_level, RiskLevel::High);
    assert_eq!(plan[0].updated.escalation_count, 2);
}

#[test]
fn test_escalation_high_to_critical_generates_directive() {
    let fp = [0xA3; 32];
    let now = Utc::now();
    let now_ms = now.timestamp_millis();
    let rows = vec![shadow(fp, RiskLevel::High, now_ms - 75 * HOUR, Some(now_ms - 25 * HOUR), 2)];
    let plan = escalate_stale_shadows(&rows, &ts(now));
    let directive = plan[0].directive.as_ref().unwrap();
    assert_eq!(directive.severity, Severity::Critical);
    assert_eq!(directive.cert_fingerprint, fp);
    assert_eq!(directive.action_type, ActionType::Alert);
    assert_eq!(
        directive.reasoning,
        "Shadow certificate escalated to critical after 3 escalation(s). Unresolved shadow certificate requires immediate attention."
    );
    assert_eq!(plan[0].updated.risk_level, RiskLevel::Critical);
    assert_eq!(plan[0].updated.escalation_count, 3);
    let stored = pending_row(directive);
    assert_eq!(stored.severity, "critical");
    assert_eq!(stored.status, "pending");
    assert_eq!(stored.action_type, "alert");
    assert_eq!(stored.created_at, now_ms);
}

#[test]
fn test_no_escalation_if_less_than_24h() {
    let now = Utc::now();
    let now_ms = now.timestamp_millis();
    let rows = vec![shadow([0xA4; 32], RiskLevel::Low, now_ms - 12 * HOUR, None, 0)];
    assert!(escalate_stale_shadows(&rows, &ts(now)).is_empty());
}

#[test]
fn escalation_starts_at_exactly_24h() {
    let now = Utc::now();
    let now_ms = now.timestamp_millis();
    let early = vec![shadow([1; 32], RiskLevel::Low, now_ms - 24 * HOUR + 1, None, 0)];
    assert!(escalate_stale_shadows(&early, &ts(now)).is_empty());
    let due = vec![shadow([1; 32], RiskLevel::Low, now_ms - 24 * HOUR, None, 0)];
    assert_eq!(escalate_stale_shadows(&due, &ts(now)).len(), 1);
}

#[test]
fn test_critical_stays_at_critical() {
    let now = Utc::now();
    let now_ms = now.timestamp_millis();
    let rows = vec![shadow(
        [0xA5; 32],
        RiskLevel::Critical,
        now_ms - 100 * HOUR,
        Some(now_ms - 25 * HOUR),
        3,
    )];
    assert!(escalate_stale_shadows(&rows, &ts(now)).is_empty());
}

#[test]
fn test_escalation_replaces_prior_directives() {
    let prior = vec![
        make_pending_directive([0xA6; 32], "prior-dir-001"),
        make_pending_directive([0xA6; 32], "prior-dir-002"),
    ];
    let changes = replace_prior_directives(&prior);
    assert_eq!(changes.len(), 2);
    assert_eq!(changes[0].id, "prior-dir-001");
    assert_eq!(changes[1].id, "prior-dir-002");
    assert_eq!(changes[0].status, "replaced");
    assert_eq!(changes[0].reason, None);
}

#[test]
fn test_resolved_shadows_not_escalated() {
    let now = Utc::now();
    let now_ms = now.timestamp_millis();
    let mut row = shadow([0xA7; 32], RiskLevel::Low, now_ms - 25 * HOUR, None, 0);
    row.is_resolved = true;
    row.resolved_at = Some(now_ms);
    assert!(escalate_stale_shadows(&vec![row], &ts(now)).is_empty());
}

#[test]
fn repeated_passes_climb_one_tier_a_day() {
    let start = Utc::now();
    let mut row = shadow([9; 32], RiskLevel::Low, start.timestamp_millis(), None, 0);
    let mut levels = Vec::new();
    for day in 1..6 {
        let now = start + chrono::Duration::days(day);
        let plan = escalate_stale_shadows(&vec![row.clone()], &ts(now));
        if plan.len() == 1 {
            row = plan[0].updated.clone();
        }
        // A second pass on the same day changes nothing.
        let soon = now + chrono::Duration::hours(23);
        assert!(escalate_stale_shadows(&vec![row.clone()], &ts(soon)).is_empty());
        levels.push(row.risk_level);
    }
    assert_eq!(
        levels,
        vec![
            RiskLevel::Medium,
            RiskLevel::High,
            RiskLevel::Critical,
            RiskLevel::Critical,
            RiskLevel::Critical
        ]
    );
}
