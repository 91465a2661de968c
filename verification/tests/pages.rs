use tlapix::storage::{ActionDirectiveRow, RenewalPredictionRow};
use tlapix::time::Timestamp;
use tlapix::types::CertificateMetadata;
use tlapix::web_ui::{
    actions_page, anomalies_page, certificates_page, dashboard_page, format_timestamp, hex_full,
    hex_short, predictions_page,
};

fn directive(status: &str, executed_at: Option<i64>) -> ActionDirectiveRow {
    ActionDirectiveRow {
        id: "d".to_string(),
        correlation_id: "c".to_string(),
        cert_fingerprint: [0xab; 32],
        action_type: "alert".to_string(),
        severity: "high".to_string(),
        reasoning: None,
        status: status.to_string(),
        attempt_count: 0,
        created_at: 0,
        executed_at,
        expired_at: None,
        failure_reason: Some("why".to_string()),
    }
}

fn prediction(thousandths: u32, activity: bool) -> RenewalPredictionRow {
    RenewalPredictionRow {
        cert_fingerprint: [1; 32],
        failure_probability: thousandths,
        severity: "medium".to_string(),
        days_until_expiry: -3,
        renewal_activity_detected: activity,
        reasoning: None,
        last_evaluated: 0,
        created_at: 0,
    }
}

fn certificate(not_after: Timestamp) -> CertificateMetadata {
    let epoch = Timestamp::epoch();
    CertificateMetadata {
        fingerprint: [0x0f; 32],
        subject: "CN=a".to_string(),
        issuer: "CN=b".to_string(),
        serial_number: "1".to_string(),
        not_before: epoch,
        not_after,
        sans: vec![],
        key_algorithm: "RSA".to_string(),
        key_size: 2048,
        chain_depth: 0,
        issuer_fingerprint: None,
        first_seen: epoch,
        last_seen: epoch,
        connection_count: 12,
        source_ip: None,
        destination_ip: None,
        sni_hostname: None,
        completeness_flags: 0,
    }
}

#[test]
fn test_web_ui_starts_and_responds() {
    let body = dashboard_page(0, 0, &vec![]);
    assert!(body.contains("Tlapix"));
    assert!(body.contains("Dashboard"));
    assert!(body.contains("No recent actions"));
    assert!(certificates_page(&vec![], &Timestamp::epoch()).contains("Certificate Inventory"));
    assert!(anomalies_page(&vec![]).contains("Active Anomalies"));
    assert!(actions_page(&vec![]).contains("Recent Actions"));
    assert!(predictions_page(&vec![]).contains("Renewal Predictions"));
}

#[test]
fn dashboard_shows_counts_and_rows() {
    let body = dashboard_page(42, 7, &vec![directive("executed", Some(1_000)), directive("x", None)]);
    assert!(body.starts_with("<!DOCTYPE html>\n<html lang=\"en\">\n<head>\n<meta charset"));
    assert!(body.contains("<div class=\"stat-value\">42</div>\n<div class=\"stat-label\">Certificates</div>"));
    assert!(body.contains("<div class=\"stat-value\">7</div>\n<div class=\"stat-label\">Active Anomalies</div>"));
    assert!(body.contains("<div class=\"stat-value\">2</div>\n<div class=\"stat-label\">Recent Actions</div>"));
    assert!(body.contains(
        "<tr><td>alert</td><td><span class=\"badge badge-high\">high</span></td><td>executed</td><td>1970-01-01 00:00:01 UTC</td></tr><tr><td>alert</td>"
    ));
    assert!(body.ends_with("</tbody>\n</table>\n</div>\n</main>\n</body>\n</html>"));
}

#[test]
fn certificate_rows_mark_the_remaining_days() {
    let now = Timestamp::new(1_000_000, 0).unwrap();
    let day = 86_400;
    for (days, mark, shown) in [
        (-2, "expired", "-2 days"),
        (0, "critical", "0 days"),
        (13, "critical", "13 days"),
        (14, "warning", "14 days"),
        (30, "ok", "30 days"),
    ] {
        let cert = certificate(Timestamp::new(1_000_000 + days * day, 0).unwrap());
        let body = certificates_page(&vec![cert], &now);
        let row = format!(
            "<tr><td title=\"{}\">0f0f0f..0f0f0f</td><td>CN=a</td><td>CN=b</td><td class=\"{}\">{}</td><td>RSA</td><td>12</td></tr>",
            "0f".repeat(32),
            mark,
            shown
        );
        assert!(body.contains(&row), "{}", body);
    }
}

#[test]
fn action_rows_mark_the_status() {
    for (status, mark) in
        [("executed", "ok"), ("failed", "critical"), ("expired", "warning"), ("pending", "")]
    {
        let body = actions_page(&vec![directive(status, None)]);
        let cell = format!("<td class=\"{}\">{}</td><td>why</td>", mark, status);
        assert!(body.contains(&cell), "{}", body);
    }
}

#[test]
fn anomaly_rows_show_a_dash_without_reason() {
    let body = anomalies_page(&vec![directive("pending", None)]);
    assert!(body.contains("<td>-</td><td>1970-01-01 00:00:00 UTC</td></tr>"));
}

#[test]
fn prediction_rows_show_the_percentage() {
    for (thousandths, mark, shown) in [
        (450, "ok", "45%"),
        (499, "ok", "50%"),
        (500, "warning", "50%"),
        (515, "warning", "52%"),
        (545, "warning", "55%"),
        (575, "warning", "57%"),
        (605, "warning", "60%"),
        (700, "critical", "70%"),
        (1000, "critical", "100%"),
    ] {
        let body = predictions_page(&vec![prediction(thousandths, true)]);
        let cells = format!(
            "<td>-3 days</td><td class=\"{}\">{}</td><td><span class=\"badge badge-medium\">medium</span></td><td>&#10003;</td></tr>",
            mark, shown
        );
        assert!(body.contains(&cells), "{}", body);
    }
    assert!(predictions_page(&vec![prediction(1, false)]).contains("<td>&#10007;</td>"));
}

#[test]
fn percentages_agree_with_floating_point() {
    for days in 0..31u32 {
        let thousandths = 500 + 15 * (30 - days);
        let exact = 0.5 + (30 - days) as f64 * 0.015;
        let body = predictions_page(&vec![prediction(thousandths, true)]);
        assert!(body.contains(&format!("\">{:.0}%</td>", exact * 100.0)));
    }
}

#[test]
fn fingerprints_and_times() {
    let mut fp = [0u8; 32];
    fp[0] = 0x12;
    fp[31] = 0x34;
    assert_eq!(hex_short(&fp), "120000..000034");
    assert_eq!(hex_full(&fp).len(), 64);
    assert_eq!(format_timestamp(-1), "1969-12-31 23:59:59 UTC");
    assert_eq!(format_timestamp(1_700_000_000_123), "2023-11-14 22:13:20 UTC");
    assert_eq!(format_timestamp(i64::MAX), "-");
}
