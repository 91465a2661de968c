//! Pages of the operator dashboard, rendered as HTML that refreshes itself.

use vstd::prelude::*;
use crate::hex::{hex, hex_encode, hex_range};
use crate::probability::{percent, push_percent};
use crate::storage::{ActionDirectiveRow, RenewalPredictionRow};
use crate::text::{decimal, push_decimal, push_signed, same_text, signed_decimal};
use crate::time::{
    in_calendar, whole_days, Timestamp, DASHBOARD_SECONDS, MAX_SECS, MIN_SECS, NANOS_PER_MILLI,
};
use crate::types::CertificateMetadata;

verus! {

/// The links at the top of every page.
pub const NAV: &'static str = r#"<nav>
    <a href="/" class="brand">&#128026; Tlapix</a>
    <a href="/certificates">Certificates</a>
    <a href="/anomalies">Anomalies</a>
    <a href="/actions">Actions</a>
    <a href="/predictions">Predictions</a>
</nav>"#;

/// The style sheet of every page.
pub const STYLES: &'static str = r#"<style>
    * { margin: 0; padding: 0; box-sizing: border-box; }
    body { font-family: -apple-system, BlinkMacSystemFont, "Segoe UI", Roboto, sans-serif; background: #1a1a2e; color: #e0e0e0; line-height: 1.6; }
    nav { background: #16213e; padding: 0.75rem 1.5rem; display: flex; gap: 1.5rem; align-items: center; border-bottom: 1px solid #0f3460; }
    nav a { color: #a0c4ff; text-decoration: none; font-size: 0.9rem; }
    nav a:hover { color: #fff; }
    nav .brand { font-weight: bold; font-size: 1.1rem; margin-right: auto; }
    main { max-width: 1200px; margin: 2rem auto; padding: 0 1.5rem; }
    h1 { margin-bottom: 1.5rem; color: #fff; }
    h2 { margin: 1.5rem 0 1rem; color: #ccc; font-size: 1.1rem; }
    .stats { display: grid; grid-template-columns: repeat(auto-fit, minmax(180px, 1fr)); gap: 1rem; margin-bottom: 2rem; }
    .stat-card { background: #16213e; border: 1px solid #0f3460; border-radius: 8px; padding: 1.25rem; text-align: center; }
    .stat-value { font-size: 2rem; font-weight: bold; color: #a0c4ff; }
    .stat-label { font-size: 0.85rem; color: #888; margin-top: 0.25rem; }
    table { width: 100%; border-collapse: collapse; background: #16213e; border-radius: 8px; overflow: hidden; }
    th, td { padding: 0.6rem 0.8rem; text-align: left; border-bottom: 1px solid #0f3460; font-size: 0.85rem; }
    th { background: #0f3460; color: #a0c4ff; font-weight: 600; }
    tr:hover { background: #1a2744; }
    .badge { padding: 0.2rem 0.5rem; border-radius: 4px; font-size: 0.75rem; font-weight: 600; }
    .badge-critical { background: #ff4444; color: #fff; }
    .badge-high { background: #ff8800; color: #fff; }
    .badge-medium { background: #ffcc00; color: #000; }
    .badge-low { background: #44aa44; color: #fff; }
    .expired, .critical { color: #ff4444; }
    .warning { color: #ffcc00; }
    .ok { color: #44aa44; }
</style>"#;

/// A dashboard up to the style sheet.
pub const DASHBOARD_TOP: &'static str = "<!DOCTYPE html>\n<html lang=\"en\">\n<head>\n<meta charset=\"utf-8\">\n<meta name=\"viewport\" content=\"width=device-width, initial-scale=1\">\n<title>Tlapix Certificate Guardian</title>\n<script src=\"https://unpkg.com/htmx.org@1.9.12\"></script>\n";

/// A dashboard up to the number of certificates.
pub const DASHBOARD_CERTIFICATES: &'static str = "\n<main>\n<h1>Dashboard</h1>\n<div class=\"stats\">\n<div class=\"stat-card\">\n<div class=\"stat-value\">";

/// A dashboard up to the number of anomalies.
pub const DASHBOARD_ANOMALIES: &'static str = "</div>\n<div class=\"stat-label\">Certificates</div>\n</div>\n<div class=\"stat-card\">\n<div class=\"stat-value\">";

/// A dashboard up to the number of actions.
pub const DASHBOARD_ACTIONS: &'static str = "</div>\n<div class=\"stat-label\">Active Anomalies</div>\n</div>\n<div class=\"stat-card\">\n<div class=\"stat-value\">";

/// A dashboard up to its table's rows.
pub const DASHBOARD_TABLE: &'static str = "</div>\n<div class=\"stat-label\">Recent Actions</div>\n</div>\n</div>\n<h2>Recent Actions</h2>\n<div hx-get=\"/actions\" hx-trigger=\"every 30s\" hx-select=\"table\" hx-swap=\"outerHTML\">\n<table>\n<thead><tr><th>Action</th><th>Severity</th><th>Status</th><th>Time</th></tr></thead>\n<tbody>";

/// The end of a dashboard.
pub const DASHBOARD_END: &'static str = "</tbody>\n</table>\n</div>\n</main>\n</body>\n</html>";

/// A table page up to its title.
pub const PAGE_TOP: &'static str = "<!DOCTYPE html>\n<html lang=\"en\">\n<head>\n    <meta charset=\"utf-8\">\n    <meta name=\"viewport\" content=\"width=device-width, initial-scale=1\">\n    <title>";

/// A table page up to the style sheet.
pub const PAGE_STYLES: &'static str = " - Tlapix</title>\n    <script src=\"https://unpkg.com/htmx.org@1.9.12\"></script>\n    ";

/// A table page up to its heading.
pub const PAGE_HEADING: &'static str = "\n    <main>\n        <h1>";

/// A table page up to the path that it refreshes from.
pub const PAGE_PATH: &'static str = "</h1>\n        <div hx-get=\"/";

/// A table page up to the heads of the columns.
pub const PAGE_COLUMNS: &'static str = "\" hx-trigger=\"every 30s\" hx-swap=\"outerHTML\" hx-select=\"table\">\n            <table>\n                <thead><tr>";

/// A table page up to its rows.
pub const PAGE_ROWS: &'static str = "</tr></thead>\n                <tbody>";

/// The end of a table page.
pub const PAGE_END: &'static str = "</tbody>\n            </table>\n        </div>\n    </main>\n</body>\n</html>";

/// Between the head and the body of a table page.
pub const PAGE_BODY: &'static str = "\n</head>\n<body>\n    ";

/// Between the head and the body of a dashboard.
pub const DASHBOARD_BODY: &'static str = "\n</head>\n<body>\n";

/// The only row where there is nothing to show.
pub const NO_RECENT_ACTIONS: &'static str = "<tr><td colspan=\"4\" style=\"text-align:center;color:#888;\">No recent actions</td></tr>";

/// The only row where there is nothing to show.
pub const NO_CERTIFICATES: &'static str = "<tr><td colspan=\"6\" style=\"text-align:center;color:#888;\">No certificates discovered</td></tr>";

/// The only row where there is nothing to show.
pub const NO_ANOMALIES: &'static str = "<tr><td colspan=\"5\" style=\"text-align:center;color:#888;\">No active anomalies</td></tr>";

/// The only row where there is nothing to show.
pub const NO_ACTIONS: &'static str = "<tr><td colspan=\"6\" style=\"text-align:center;color:#888;\">No actions recorded</td></tr>";

/// The only row where there is nothing to show.
pub const NO_PREDICTIONS: &'static str = "<tr><td colspan=\"5\" style=\"text-align:center;color:#888;\">No active predictions</td></tr>";

/// Heads of the columns.
pub const CERTIFICATE_COLUMNS: &'static str = "<th>Fingerprint</th><th>Subject</th><th>Issuer</th><th>Expires</th><th>Algorithm</th><th>Connections</th>";

/// Heads of the columns.
pub const ANOMALY_COLUMNS: &'static str = "<th>Certificate</th><th>Action</th><th>Severity</th><th>Reason</th><th>Detected</th>";

/// Heads of the columns.
pub const ACTION_COLUMNS: &'static str = "<th>Certificate</th><th>Action</th><th>Severity</th><th>Status</th><th>Reason</th><th>Time</th>";

/// Heads of the columns.
pub const PREDICTION_COLUMNS: &'static str = "<th>Certificate</th><th>Expires In</th><th>Failure Prob.</th><th>Severity</th><th>Renewal Activity</th>";

// ---------------------------------------------------------------------------
// Cells
// ---------------------------------------------------------------------------

/// The first and last three bytes of a fingerprint.
pub open spec fn abridged(fp: Seq<u8>) -> Seq<char> {
    hex(fp.subrange(0, 3)) + ".."@ + hex(fp.subrange(29, 32))
}

/// The first and last three bytes of a fingerprint, in hexadecimal.
pub fn hex_short(bytes: &[u8; 32]) -> (r: String)
    ensures
        r@ == abridged(bytes@),
{
    let mut out = hex_range(bytes.as_slice(), 0, 3);
    out.append("..");
    out.append(hex_range(bytes.as_slice(), 29, 32).as_str());
    out
}

/// A fingerprint in hexadecimal.
pub fn hex_full(bytes: &[u8; 32]) -> (r: String)
    ensures
        r@ == hex(bytes@),
{
    hex_encode(bytes.as_slice())
}

/// The text of the instant `ms` milliseconds after the Unix epoch, or a dash where the
/// calendar does not reach it.
pub open spec fn time_text(ms: int) -> Seq<char> {
    if MIN_SECS * 1000 <= ms <= MAX_SECS * 1000 + 999 {
        crate::time::utc_text(ms / 1000, (ms % 1000) * NANOS_PER_MILLI, DASHBOARD_SECONDS@)
    } else {
        "-"@
    }
}

/// An instant given in milliseconds since the Unix epoch, or a dash where the calendar does
/// not reach it.
pub fn format_timestamp(ms: i64) -> (r: String)
    ensures
        r@ == time_text(ms as int),
{
    match Timestamp::from_timestamp_millis(ms) {
        Some(instant) => {
            proof {
                assert((ms * 1_000_000) / 1_000_000_000 == ms / 1000) by (nonlinear_arith);
                assert((ms * 1_000_000) % 1_000_000_000 == (ms % 1000) * 1_000_000) by (nonlinear_arith);
            }
            instant.dashboard_text()
        },
        None => String::from_str("-"),
    }
}

/// How a certificate's remaining days are marked.
pub open spec fn expiry_mark(days_left: int) -> Seq<char> {
    if days_left < 0 {
        "expired"@
    } else if days_left < 14 {
        "critical"@
    } else if days_left < 30 {
        "warning"@
    } else {
        "ok"@
    }
}

/// How a certificate's remaining days are marked.
pub fn expiry_class(days_left: i64) -> (r: &'static str)
    ensures
        r@ == expiry_mark(days_left as int),
{
    if days_left < 0 {
        "expired"
    } else if days_left < 14 {
        "critical"
    } else if days_left < 30 {
        "warning"
    } else {
        "ok"
    }
}

/// How a directive's status is marked.
pub open spec fn status_mark(status: Seq<char>) -> Seq<char> {
    if status == "executed"@ {
        "ok"@
    } else if status == "failed"@ {
        "critical"@
    } else if status == "expired"@ {
        "warning"@
    } else {
        ""@
    }
}

/// How a directive's status is marked.
pub fn status_class(status: &str) -> (r: &'static str)
    ensures
        r@ == status_mark(status@),
{
    if same_text(status, "executed") {
        "ok"
    } else if same_text(status, "failed") {
        "critical"
    } else if same_text(status, "expired") {
        "warning"
    } else {
        ""
    }
}

/// How a probability of failure, in thousandths, is marked.
pub open spec fn probability_mark(thousandths: u32) -> Seq<char> {
    if thousandths >= 700 {
        "critical"@
    } else if thousandths >= 500 {
        "warning"@
    } else {
        "ok"@
    }
}

/// How a probability of failure, in thousandths, is marked.
pub fn probability_class(thousandths: u32) -> (r: &'static str)
    ensures
        r@ == probability_mark(thousandths),
{
    if thousandths >= 700 {
        "critical"
    } else if thousandths >= 500 {
        "warning"
    } else {
        "ok"
    }
}

/// An optional text, or a dash.
pub open spec fn or_dash(s: Option<String>) -> Seq<char> {
    match s {
        Some(t) => t@,
        None => "-"@,
    }
}

/// When a directive was carried out, or else made.
pub open spec fn action_time(d: ActionDirectiveRow) -> i64 {
    match d.executed_at {
        Some(t) => t,
        None => d.created_at,
    }
}

/// Appends an optional text, or a dash.
fn append_or_dash(out: &mut String, s: &Option<String>)
    ensures
        final(out)@ == old(out)@ + or_dash(*s),
{
    match s {
        Some(t) => out.append(t.as_str()),
        None => out.append("-"),
    }
}

/// A cell with a fingerprint: abridged, and in full as its title.
pub open spec fn fingerprint_cell(fp: Seq<u8>) -> Seq<char> {
    "<td title=\""@ + hex(fp) + "\">"@ + abridged(fp) + "</td>"@
}

/// Appends a cell with a fingerprint.
fn append_fingerprint_cell(out: &mut String, fp: &[u8; 32])
    ensures
        final(out)@ == old(out)@ + fingerprint_cell(fp@),
{
    out.append("<td title=\"");
    out.append(hex_full(fp).as_str());
    out.append("\">");
    out.append(hex_short(fp).as_str());
    out.append("</td>");
    proof {
        assert(final(out)@ =~= old(out)@ + fingerprint_cell(fp@));
    }
}

/// A cell with a severity as a badge of its colour.
pub open spec fn badge_cell(severity: Seq<char>) -> Seq<char> {
    "<td><span class=\"badge badge-"@ + severity + "\">"@ + severity + "</span></td>"@
}

/// Appends a cell with a severity.
fn append_badge_cell(out: &mut String, severity: &str)
    ensures
        final(out)@ == old(out)@ + badge_cell(severity@),
{
    out.append("<td><span class=\"badge badge-");
    out.append(severity);
    out.append("\">");
    out.append(severity);
    out.append("</span></td>");
    proof {
        assert(final(out)@ =~= old(out)@ + badge_cell(severity@));
    }
}

/// A plain cell.
pub open spec fn cell(content: Seq<char>) -> Seq<char> {
    "<td>"@ + content + "</td>"@
}

/// Appends a plain cell.
fn append_cell(out: &mut String, content: &str)
    ensures
        final(out)@ == old(out)@ + cell(content@),
{
    out.append("<td>");
    out.append(content);
    out.append("</td>");
    proof {
        assert(final(out)@ =~= old(out)@ + cell(content@));
    }
}

// ---------------------------------------------------------------------------
// Rows
// ---------------------------------------------------------------------------

/// A row of the dashboard: action, severity and status of a directive, and its time in words.
pub open spec fn recent_row(action: ActionDirectiveRow, time: Seq<char>) -> Seq<char> {
    "<tr>"@ + cell(action.action_type@) + badge_cell(action.severity@) + cell(action.status@) + cell(time) + "</tr>"@
}

/// The rows in order.
pub open spec fn recent_rows(actions: Seq<ActionDirectiveRow>) -> Seq<char>
    decreases actions.len(),
{
    if actions.len() == 0 {
        Seq::empty()
    } else {
        recent_rows(actions.drop_last()) + recent_row(
            actions.last(),
            time_text(action_time(actions.last()) as int),
        )
    }
}

/// Appends one row, with the time in words.
pub fn append_recent_row(out: &mut String, action: &ActionDirectiveRow, time: &str)
    ensures
        final(out)@ == old(out)@ + recent_row(*action, time@),
{
    out.append("<tr>");
    append_cell(out, action.action_type.as_str());
    append_badge_cell(out, action.severity.as_str());
    append_cell(out, action.status.as_str());
    append_cell(out, time);
    out.append("</tr>");
    proof {
        assert(final(out)@ =~= old(out)@ + recent_row(*action, time@));
    }
}

/// All rows, one after the other.
fn render_recent_rows(actions: &Vec<ActionDirectiveRow>) -> (r: String)
    ensures
        r@ == recent_rows(actions@),
{
    let mut out = String::new();
    let mut i: usize = 0;
    while i < actions.len()
        invariant
            i <= actions.len(),
            out@ == recent_rows(actions@.take(i as int)),
        decreases actions.len() - i,
    {
        let at: i64 = match actions[i].executed_at {
            Some(t) => t,
            None => actions[i].created_at,
        };
        append_recent_row(&mut out, &actions[i], format_timestamp(at).as_str());
        assert(actions@.take(i + 1).drop_last() =~= actions@.take(i as int));
        i += 1;
    }
    assert(actions@.take(i as int) =~= actions@);
    out
}

/// A row of the certificate page: fingerprint, subject, issuer, remaining days, algorithm and
/// number of connections.
pub open spec fn certificate_row(cert: CertificateMetadata, now: Timestamp) -> Seq<char> {
    let days_left = whole_days(cert.not_after.at() - now.at());
    "<tr>"@ + fingerprint_cell(cert.fingerprint@) + cell(cert.subject@) + cell(cert.issuer@)
        + "<td class=\""@ + expiry_mark(days_left) + "\">"@ + signed_decimal(days_left)
        + " days</td>"@ + cell(cert.key_algorithm@) + cell(decimal(cert.connection_count as nat))
        + "</tr>"@
}

/// The rows in order.
pub open spec fn certificate_rows(certs: Seq<CertificateMetadata>, now: Timestamp) -> Seq<char>
    decreases certs.len(),
{
    if certs.len() == 0 {
        Seq::empty()
    } else {
        certificate_rows(certs.drop_last(), now) + certificate_row(certs.last(), now)
    }
}

/// Appends one row.
fn append_certificate_row(out: &mut String, cert: &CertificateMetadata, now: &Timestamp)
    ensures
        final(out)@ == old(out)@ + certificate_row(*cert, *now),
{
    out.append("<tr>");
    append_fingerprint_cell(out, &cert.fingerprint);
    append_cell(out, cert.subject.as_str());
    append_cell(out, cert.issuer.as_str());
    let days_left: i64 = cert.not_after.days_since(now);
    out.append("<td class=\"");
    out.append(expiry_class(days_left));
    out.append("\">");
    push_signed(out, days_left);
    out.append(" days</td>");
    append_cell(out, cert.key_algorithm.as_str());
    append_cell(out, crate::text::decimal_text(cert.connection_count).as_str());
    out.append("</tr>");
    proof {
        assert(final(out)@ =~= old(out)@ + certificate_row(*cert, *now));
    }
}

/// All rows, one after the other.
fn render_certificate_rows(certs: &Vec<CertificateMetadata>, now: &Timestamp) -> (r: String)
    ensures
        r@ == certificate_rows(certs@, *now),
{
    let mut out = String::new();
    let mut i: usize = 0;
    while i < certs.len()
        invariant
            i <= certs.len(),
            out@ == certificate_rows(certs@.take(i as int), *now),
        decreases certs.len() - i,
    {
        append_certificate_row(&mut out, &certs[i], now);
        assert(certs@.take(i + 1).drop_last() =~= certs@.take(i as int));
        i += 1;
    }
    assert(certs@.take(i as int) =~= certs@);
    out
}

/// A row of the anomaly page: fingerprint, action, severity, reason, and the time of detection
/// in words.
pub open spec fn anomaly_row(directive: ActionDirectiveRow, time: Seq<char>) -> Seq<char> {
    "<tr>"@ + fingerprint_cell(directive.cert_fingerprint@) + cell(directive.action_type@)
        + badge_cell(directive.severity@) + cell(or_dash(directive.reasoning)) + cell(time) + "</tr>"@
}

/// The rows in order.
pub open spec fn anomaly_rows(directives: Seq<ActionDirectiveRow>) -> Seq<char>
    decreases directives.len(),
{
    if directives.len() == 0 {
        Seq::empty()
    } else {
        anomaly_rows(directives.drop_last()) + anomaly_row(
            directives.last(),
            time_text(directives.last().created_at as int),
        )
    }
}

/// Appends one row, with the time in words.
pub fn append_anomaly_row(out: &mut String, directive: &ActionDirectiveRow, time: &str)
    ensures
        final(out)@ == old(out)@ + anomaly_row(*directive, time@),
{
    out.append("<tr>");
    append_fingerprint_cell(out, &directive.cert_fingerprint);
    append_cell(out, directive.action_type.as_str());
    append_badge_cell(out, directive.severity.as_str());
    out.append("<td>");
    append_or_dash(out, &directive.reasoning);
    out.append("</td>");
    append_cell(out, time);
    out.append("</tr>");
    proof {
        assert(final(out)@ =~= old(out)@ + anomaly_row(*directive, time@));
    }
}

/// All rows, one after the other.
fn render_anomaly_rows(directives: &Vec<ActionDirectiveRow>) -> (r: String)
    ensures
        r@ == anomaly_rows(directives@),
{
    let mut out = String::new();
    let mut i: usize = 0;
    while i < directives.len()
        invariant
            i <= directives.len(),
            out@ == anomaly_rows(directives@.take(i as int)),
        decreases directives.len() - i,
    {
        append_anomaly_row(
            &mut out,
            &directives[i],
            format_timestamp(directives[i].created_at).as_str(),
        );
        assert(directives@.take(i + 1).drop_last() =~= directives@.take(i as int));
        i += 1;
    }
    assert(directives@.take(i as int) =~= directives@);
    out
}

/// A row of the action page: fingerprint, action, severity, status, reason of failure, and the
/// time in words.
pub open spec fn action_row(action: ActionDirectiveRow, time: Seq<char>) -> Seq<char> {
    "<tr>"@ + fingerprint_cell(action.cert_fingerprint@) + cell(action.action_type@) + badge_cell(
        action.severity@,
    ) + "<td class=\""@ + status_mark(action.status@) + "\">"@ + action.status@ + "</td>"@ + cell(
        or_dash(action.failure_reason),
    ) + cell(time) + "</tr>"@
}

/// The rows in order.
pub open spec fn action_rows(actions: Seq<ActionDirectiveRow>) -> Seq<char>
    decreases actions.len(),
{
    if actions.len() == 0 {
        Seq::empty()
    } else {
        action_rows(actions.drop_last()) + action_row(
            actions.last(),
            time_text(action_time(actions.last()) as int),
        )
    }
}

/// Appends one row, with the time in words.
pub fn append_action_row(out: &mut String, action: &ActionDirectiveRow, time: &str)
    ensures
        final(out)@ == old(out)@ + action_row(*action, time@),
{
    out.append("<tr>");
    append_fingerprint_cell(out, &action.cert_fingerprint);
    append_cell(out, action.action_type.as_str());
    append_badge_cell(out, action.severity.as_str());
    out.append("<td class=\"");
    out.append(status_class(action.status.as_str()));
    out.append("\">");
    out.append(action.status.as_str());
    out.append("</td>");
    out.append("<td>");
    append_or_dash(out, &action.failure_reason);
    out.append("</td>");
    append_cell(out, time);
    out.append("</tr>");
    proof {
        assert(final(out)@ =~= old(out)@ + action_row(*action, time@));
    }
}

/// All rows, one after the other.
fn render_action_rows(actions: &Vec<ActionDirectiveRow>) -> (r: String)
    ensures
        r@ == action_rows(actions@),
{
    let mut out = String::new();
    let mut i: usize = 0;
    while i < actions.len()
        invariant
            i <= actions.len(),
            out@ == action_rows(actions@.take(i as int)),
        decreases actions.len() - i,
    {
        let at: i64 = match actions[i].executed_at {
            Some(t) => t,
            None => actions[i].created_at,
        };
        append_action_row(&mut out, &actions[i], format_timestamp(at).as_str());
        assert(actions@.take(i + 1).drop_last() =~= actions@.take(i as int));
        i += 1;
    }
    assert(actions@.take(i as int) =~= actions@);
    out
}

/// A row of the prediction page: fingerprint, days, probability, severity, and a tick or a
/// cross for renewal activity.
pub open spec fn prediction_row(prediction: RenewalPredictionRow) -> Seq<char> {
    "<tr>"@ + fingerprint_cell(prediction.cert_fingerprint@) + "<td>"@ + signed_decimal(
        prediction.days_until_expiry as int,
    ) + " days</td>"@ + "<td class=\""@ + probability_mark(prediction.failure_probability) + "\">"@
        + decimal(percent(prediction.failure_probability as nat)) + "%"@ + "</td>"@ + badge_cell(
        prediction.severity@,
    ) + cell(
        if prediction.renewal_activity_detected {
            "&#10003;"@
        } else {
            "&#10007;"@
        },
    ) + "</tr>"@
}

/// The rows in order.
pub open spec fn prediction_rows(predictions: Seq<RenewalPredictionRow>) -> Seq<char>
    decreases predictions.len(),
{
    if predictions.len() == 0 {
        Seq::empty()
    } else {
        prediction_rows(predictions.drop_last()) + prediction_row(predictions.last())
    }
}

/// Appends one row.
fn append_prediction_row(out: &mut String, prediction: &RenewalPredictionRow)
    ensures
        final(out)@ == old(out)@ + prediction_row(*prediction),
{
    out.append("<tr>");
    append_fingerprint_cell(out, &prediction.cert_fingerprint);
    out.append("<td>");
    push_signed(out, prediction.days_until_expiry as i64);
    out.append(" days</td>");
    out.append("<td class=\"");
    out.append(probability_class(prediction.failure_probability));
    out.append("\">");
    push_percent(out, prediction.failure_probability);
    out.append("</td>");
    append_badge_cell(out, prediction.severity.as_str());
    append_cell(
        out,
        if prediction.renewal_activity_detected {
            "&#10003;"
        } else {
            "&#10007;"
        },
    );
    out.append("</tr>");
    proof {
        assert(final(out)@ =~= old(out)@ + prediction_row(*prediction));
    }
}

/// All rows, one after the other.
fn render_prediction_rows(predictions: &Vec<RenewalPredictionRow>) -> (r: String)
    ensures
        r@ == prediction_rows(predictions@),
{
    let mut out = String::new();
    let mut i: usize = 0;
    while i < predictions.len()
        invariant
            i <= predictions.len(),
            out@ == prediction_rows(predictions@.take(i as int)),
        decreases predictions.len() - i,
    {
        append_prediction_row(&mut out, &predictions[i]);
        assert(predictions@.take(i + 1).drop_last() =~= predictions@.take(i as int));
        i += 1;
    }
    assert(predictions@.take(i as int) =~= predictions@);
    out
}

// ---------------------------------------------------------------------------
// Pages
// ---------------------------------------------------------------------------

/// The rows, or the given row where there is none.
pub open spec fn rows_or(rows: Seq<char>, any: bool, empty: Seq<char>) -> Seq<char> {
    if any {
        rows
    } else {
        empty
    }
}

/// A page with one table that refreshes itself from its own path.
pub open spec fn table_page(
    title: Seq<char>,
    heading: Seq<char>,
    path: Seq<char>,
    columns: Seq<char>,
    rows: Seq<char>,
) -> Seq<char> {
    PAGE_TOP@ + title + PAGE_STYLES@ + STYLES@ + PAGE_BODY@ + NAV@ + PAGE_HEADING@ + heading
        + PAGE_PATH@ + path + PAGE_COLUMNS@ + columns + PAGE_ROWS@ + rows + PAGE_END@
}

/// A page with one table that refreshes itself from its own path.
fn render_table_page(title: &str, heading: &str, path: &str, columns: &str, rows: &str) -> (r:
    String)
    ensures
        r@ == table_page(title@, heading@, path@, columns@, rows@),
{
    let mut out = String::from_str(PAGE_TOP);
    out.append(title);
    out.append(PAGE_STYLES);
    out.append(STYLES);
    out.append(PAGE_BODY);
    out.append(NAV);
    out.append(PAGE_HEADING);
    out.append(heading);
    out.append(PAGE_PATH);
    out.append(path);
    out.append(PAGE_COLUMNS);
    out.append(columns);
    out.append(PAGE_ROWS);
    out.append(rows);
    out.append(PAGE_END);
    out
}

/// The dashboard: three counts, and the most recent actions.
pub open spec fn dashboard(
    certificates: nat,
    anomalies: nat,
    actions: Seq<ActionDirectiveRow>,
) -> Seq<char> {
    DASHBOARD_TOP@ + STYLES@ + DASHBOARD_BODY@ + NAV@ + DASHBOARD_CERTIFICATES@ + decimal(
        certificates,
    ) + DASHBOARD_ANOMALIES@ + decimal(anomalies) + DASHBOARD_ACTIONS@ + decimal(actions.len())
        + DASHBOARD_TABLE@ + rows_or(recent_rows(actions), actions.len() > 0, NO_RECENT_ACTIONS@)
        + DASHBOARD_END@
}

/// The dashboard: three counts, and the most recent actions.
pub fn dashboard_page(
    cert_count: u64,
    anomaly_count: u64,
    recent_actions: &Vec<ActionDirectiveRow>,
) -> (r: String)
    ensures
        r@ == dashboard(cert_count as nat, anomaly_count as nat, recent_actions@),
{
    let mut out = String::from_str(DASHBOARD_TOP);
    out.append(STYLES);
    out.append(DASHBOARD_BODY);
    out.append(NAV);
    out.append(DASHBOARD_CERTIFICATES);
    push_decimal(&mut out, cert_count);
    out.append(DASHBOARD_ANOMALIES);
    push_decimal(&mut out, anomaly_count);
    out.append(DASHBOARD_ACTIONS);
    push_decimal(&mut out, recent_actions.len() as u64);
    out.append(DASHBOARD_TABLE);
    if recent_actions.len() == 0 {
        out.append(NO_RECENT_ACTIONS);
    } else {
        out.append(render_recent_rows(recent_actions).as_str());
    }
    out.append(DASHBOARD_END);
    out
}

/// The certificates and how long each is valid at the given instant.
pub fn certificates_page(certs: &Vec<CertificateMetadata>, now: &Timestamp) -> (r: String)
    ensures
        r@ == table_page(
            "Certificates"@,
            "Certificate Inventory"@,
            "certificates"@,
            CERTIFICATE_COLUMNS@,
            rows_or(certificate_rows(certs@, *now), certs@.len() > 0, NO_CERTIFICATES@),
        ),
{
    if certs.len() == 0 {
        render_table_page("Certificates", "Certificate Inventory", "certificates", CERTIFICATE_COLUMNS, NO_CERTIFICATES)
    } else {
        let rows = render_certificate_rows(certs, now);
        render_table_page("Certificates", "Certificate Inventory", "certificates", CERTIFICATE_COLUMNS, rows.as_str())
    }
}

/// The pending directives.
pub fn anomalies_page(directives: &Vec<ActionDirectiveRow>) -> (r: String)
    ensures
        r@ == table_page(
            "Anomalies"@,
            "Active Anomalies"@,
            "anomalies"@,
            ANOMALY_COLUMNS@,
            rows_or(anomaly_rows(directives@), directives@.len() > 0, NO_ANOMALIES@),
        ),
{
    if directives.len() == 0 {
        render_table_page("Anomalies", "Active Anomalies", "anomalies", ANOMALY_COLUMNS, NO_ANOMALIES)
    } else {
        let rows = render_anomaly_rows(directives);
        render_table_page("Anomalies", "Active Anomalies", "anomalies", ANOMALY_COLUMNS, rows.as_str())
    }
}

/// The most recent directives.
pub fn actions_page(actions: &Vec<ActionDirectiveRow>) -> (r: String)
    ensures
        r@ == table_page(
            "Actions"@,
            "Recent Actions"@,
            "actions"@,
            ACTION_COLUMNS@,
            rows_or(action_rows(actions@), actions@.len() > 0, NO_ACTIONS@),
        ),
{
    if actions.len() == 0 {
        render_table_page("Actions", "Recent Actions", "actions", ACTION_COLUMNS, NO_ACTIONS)
    } else {
        let rows = render_action_rows(actions);
        render_table_page("Actions", "Recent Actions", "actions", ACTION_COLUMNS, rows.as_str())
    }
}

/// The renewal predictions.
pub fn predictions_page(predictions: &Vec<RenewalPredictionRow>) -> (r: String)
    ensures
        r@ == table_page(
            "Predictions"@,
            "Renewal Predictions"@,
            "predictions"@,
            PREDICTION_COLUMNS@,
            rows_or(prediction_rows(predictions@), predictions@.len() > 0, NO_PREDICTIONS@),
        ),
{
    if predictions.len() == 0 {
        render_table_page("Predictions", "Renewal Predictions", "predictions", PREDICTION_COLUMNS, NO_PREDICTIONS)
    } else {
        let rows = render_prediction_rows(predictions);
        render_table_page("Predictions", "Renewal Predictions", "predictions", PREDICTION_COLUMNS, rows.as_str())
    }
}

// ---------------------------------------------------------------------------
// Laws
// ---------------------------------------------------------------------------

/// A certificate is marked as expired once it has, as critical in its last fortnight, as a
/// warning in its last 30 days, and else as in order.
pub proof fn expiry_marks_by_days(days_left: int)
    ensures
        days_left < 0 ==> expiry_mark(days_left) == "expired"@,
        0 <= days_left <= 13 ==> expiry_mark(days_left) == "critical"@,
        14 <= days_left <= 29 ==> expiry_mark(days_left) == "warning"@,
        days_left >= 30 ==> expiry_mark(days_left) == "ok"@,
{
}

/// An executed directive is marked as in order, a failed one as critical, an expired one as a
/// warning, and any other not at all.
pub proof fn status_marks_by_status(status: Seq<char>)
    ensures
        status == "executed"@ ==> status_mark(status) == "ok"@,
        status == "failed"@ ==> status_mark(status) == "critical"@,
        status == "expired"@ ==> status_mark(status) == "warning"@,
        status != "executed"@ && status != "failed"@ && status != "expired"@ ==> status_mark(
            status,
        ) == ""@,
{
    reveal_strlit("executed");
    reveal_strlit("failed");
    reveal_strlit("expired");
    assert("executed"@.len() == 8 && "failed"@.len() == 6 && "expired"@.len() == 7);
}

/// A probability is marked as critical from 700 thousandths on, as a warning from 500, and below
/// as in order.
pub proof fn probability_marks_by_value(thousandths: u32)
    ensures
        thousandths >= 700 ==> probability_mark(thousandths) == "critical"@,
        500 <= thousandths <= 699 ==> probability_mark(thousandths) == "warning"@,
        thousandths <= 499 ==> probability_mark(thousandths) == "ok"@,
{
}

/// An abridged fingerprint has the first and the last six digits of the full one.
pub proof fn abridged_has_both_ends(fp: Seq<u8>)
    requires
        fp.len() == 32,
    ensures
        abridged(fp) == hex(fp).subrange(0, 6) + seq!['.', '.'] + hex(fp).subrange(58, 64),
{
    reveal_strlit("..");
    assert(".."@ =~= seq!['.', '.']);
    let a = fp.subrange(0, 3);
    let b = fp.subrange(3, 29);
    let c = fp.subrange(29, 32);
    assert(fp =~= a + b + c);
    crate::hex::hex_tells_bytes_apart(a, b);
    crate::hex::hex_tells_bytes_apart(a + b, c);
    crate::hex::hex_doubles_length(a);
    crate::hex::hex_doubles_length(b);
    crate::hex::hex_doubles_length(c);
    assert(hex(fp).subrange(0, 6) =~= hex(a));
    assert(hex(fp).subrange(58, 64) =~= hex(c));
}

/// A time within the calendar is shown to the second, and any other as a dash.
pub proof fn times_are_shown_to_the_second(ms: int, secs: int, rest: int)
    requires
        ms == 1000 * secs + rest,
        0 <= rest < 1000,
    ensures
        in_calendar(secs, 0) ==> time_text(ms) == crate::time::utc_text(
            secs,
            rest * 1_000_000,
            "%Y-%m-%d %H:%M:%S UTC"@,
        ),
        !in_calendar(secs, 0) ==> time_text(ms) == "-"@,
{
}

/// Every recent action has its row, in order.
pub proof fn every_recent_row_is_shown(a: Seq<ActionDirectiveRow>, b: Seq<ActionDirectiveRow>, one: ActionDirectiveRow)
    ensures
        recent_rows(a + b) == recent_rows(a) + recent_rows(b),
        recent_rows(seq![one]) == recent_row(one, time_text(
            (match one.executed_at {
                Some(t) => t,
                None => one.created_at,
            }) as int,
        )),
    decreases b.len(),
{
    assert(seq![one].drop_last() =~= Seq::<ActionDirectiveRow>::empty());
    reveal_with_fuel(recent_rows, 2);
    assert(recent_rows(seq![one]) =~= recent_row(one, time_text(
            (match one.executed_at {
                Some(t) => t,
                None => one.created_at,
            }) as int,
        )));
    if b.len() == 0 {
        assert(a + b =~= a);
        assert(recent_rows(a) + recent_rows(b) =~= recent_rows(a));
    } else {
        assert((a + b).drop_last() =~= a + b.drop_last());
        every_recent_row_is_shown(a, b.drop_last(), one);
        assert(recent_rows(a + b) =~= recent_rows(a) + recent_rows(b));
    }
}

/// Every certificate has its row, in order.
pub proof fn every_certificate_row_is_shown(a: Seq<CertificateMetadata>, b: Seq<CertificateMetadata>, one: CertificateMetadata, now: Timestamp)
    ensures
        certificate_rows(a + b, now) == certificate_rows(a, now) + certificate_rows(b, now),
        certificate_rows(seq![one], now) == certificate_row(one, now),
    decreases b.len(),
{
    assert(seq![one].drop_last() =~= Seq::<CertificateMetadata>::empty());
    reveal_with_fuel(certificate_rows, 2);
    assert(certificate_rows(seq![one], now) =~= certificate_row(one, now));
    if b.len() == 0 {
        assert(a + b =~= a);
        assert(certificate_rows(a, now) + certificate_rows(b, now) =~= certificate_rows(a, now));
    } else {
        assert((a + b).drop_last() =~= a + b.drop_last());
        every_certificate_row_is_shown(a, b.drop_last(), one, now);
        assert(certificate_rows(a + b, now) =~= certificate_rows(a, now) + certificate_rows(b, now));
    }
}

/// Every waiting directive has its row, in order.
pub proof fn every_anomaly_row_is_shown(a: Seq<ActionDirectiveRow>, b: Seq<ActionDirectiveRow>, one: ActionDirectiveRow)
    ensures
        anomaly_rows(a + b) == anomaly_rows(a) + anomaly_rows(b),
        anomaly_rows(seq![one]) == anomaly_row(one, time_text(one.created_at as int)),
    decreases b.len(),
{
    assert(seq![one].drop_last() =~= Seq::<ActionDirectiveRow>::empty());
    reveal_with_fuel(anomaly_rows, 2);
    assert(anomaly_rows(seq![one]) =~= anomaly_row(one, time_text(one.created_at as int)));
    if b.len() == 0 {
        assert(a + b =~= a);
        assert(anomaly_rows(a) + anomaly_rows(b) =~= anomaly_rows(a));
    } else {
        assert((a + b).drop_last() =~= a + b.drop_last());
        every_anomaly_row_is_shown(a, b.drop_last(), one);
        assert(anomaly_rows(a + b) =~= anomaly_rows(a) + anomaly_rows(b));
    }
}

/// Every action has its row, in order.
pub proof fn every_action_row_is_shown(a: Seq<ActionDirectiveRow>, b: Seq<ActionDirectiveRow>, one: ActionDirectiveRow)
    ensures
        action_rows(a + b) == action_rows(a) + action_rows(b),
        action_rows(seq![one]) == action_row(one, time_text(
            (match one.executed_at {
                Some(t) => t,
                None => one.created_at,
            }) as int,
        )),
    decreases b.len(),
{
    assert(seq![one].drop_last() =~= Seq::<ActionDirectiveRow>::empty());
    reveal_with_fuel(action_rows, 2);
    assert(action_rows(seq![one]) =~= action_row(one, time_text(
            (match one.executed_at {
                Some(t) => t,
                None => one.created_at,
            }) as int,
        )));
    if b.len() == 0 {
        assert(a + b =~= a);
        assert(action_rows(a) + action_rows(b) =~= action_rows(a));
    } else {
        assert((a + b).drop_last() =~= a + b.drop_last());
        every_action_row_is_shown(a, b.drop_last(), one);
        assert(action_rows(a + b) =~= action_rows(a) + action_rows(b));
    }
}

/// Every prediction has its row, in order.
pub proof fn every_prediction_row_is_shown(a: Seq<RenewalPredictionRow>, b: Seq<RenewalPredictionRow>, one: RenewalPredictionRow)
    ensures
        prediction_rows(a + b) == prediction_rows(a) + prediction_rows(b),
        prediction_rows(seq![one]) == prediction_row(one),
    decreases b.len(),
{
    assert(seq![one].drop_last() =~= Seq::<RenewalPredictionRow>::empty());
    reveal_with_fuel(prediction_rows, 2);
    assert(prediction_rows(seq![one]) =~= prediction_row(one));
    if b.len() == 0 {
        assert(a + b =~= a);
        assert(prediction_rows(a) + prediction_rows(b) =~= prediction_rows(a));
    } else {
        assert((a + b).drop_last() =~= a + b.drop_last());
        every_prediction_row_is_shown(a, b.drop_last(), one);
        assert(prediction_rows(a + b) =~= prediction_rows(a) + prediction_rows(b));
    }
}

/// The row of a certificate shows its fingerprint, subject, issuer, whole days left with their
/// mark, algorithm and number of connections, each in its own cell and in this order.
pub proof fn certificate_row_by_cells(cert: CertificateMetadata, now: Timestamp)
    ensures
        ({
            let days = whole_days(cert.not_after.at() - now.at());
            certificate_row(cert, now) == "<tr>"@ + ("<td title=\""@ + hex(cert.fingerprint@)
                + "\">"@ + abridged(cert.fingerprint@) + "</td>"@) + ("<td>"@ + cert.subject@
                + "</td>"@) + ("<td>"@ + cert.issuer@ + "</td>"@) + "<td class=\""@ + expiry_mark(days)
                + "\">"@ + signed_decimal(days) + " days</td>"@ + ("<td>"@ + cert.key_algorithm@
                + "</td>"@) + ("<td>"@ + decimal(cert.connection_count as nat) + "</td>"@)
                + "</tr>"@
        }),
{
}

/// The rows of directives show what is stored of them, each in its own cell: the severity as a
/// badge, the reasoning of a waiting directive or the reason of a failure, and a dash for what is
/// missing.
pub proof fn directive_rows_by_cells(d: ActionDirectiveRow, time: Seq<char>)
    ensures
        ({
            let fingerprint = "<td title=\""@ + hex(d.cert_fingerprint@) + "\">"@ + abridged(
                d.cert_fingerprint@,
            ) + "</td>"@;
            let action = "<td>"@ + d.action_type@ + "</td>"@;
            let badge = "<td><span class=\"badge badge-"@ + d.severity@ + "\">"@ + d.severity@
                + "</span></td>"@;
            let reasoning = "<td>"@ + (match d.reasoning {
                Some(text) => text@,
                None => "-"@,
            }) + "</td>"@;
            let failure = "<td>"@ + (match d.failure_reason {
                Some(text) => text@,
                None => "-"@,
            }) + "</td>"@;
            let shown = "<td>"@ + time + "</td>"@;
            &&& recent_row(d, time) == "<tr>"@ + action + badge + ("<td>"@ + d.status@ + "</td>"@)
                + shown + "</tr>"@
            &&& anomaly_row(d, time) == "<tr>"@ + fingerprint + action + badge + reasoning + shown
                + "</tr>"@
            &&& action_row(d, time) == "<tr>"@ + fingerprint + action + badge + "<td class=\""@
                + status_mark(d.status@) + "\">"@ + d.status@ + "</td>"@ + failure + shown + "</tr>"@
        }),
{
}

/// The row of a prediction shows its fingerprint, days left, probability in percent with its
/// mark, severity as a badge, and a tick exactly where a renewal is under way.
pub proof fn prediction_row_by_cells(p: RenewalPredictionRow)
    ensures
        prediction_row(p) == "<tr>"@ + ("<td title=\""@ + hex(p.cert_fingerprint@) + "\">"@
            + abridged(p.cert_fingerprint@) + "</td>"@) + "<td>"@ + signed_decimal(
            p.days_until_expiry as int,
        ) + " days</td>"@ + "<td class=\""@ + probability_mark(p.failure_probability) + "\">"@
            + decimal(percent(p.failure_probability as nat)) + "%"@ + "</td>"@ + (
        "<td><span class=\"badge badge-"@ + p.severity@ + "\">"@ + p.severity@ + "</span></td>"@) + (
        "<td>"@ + (if p.renewal_activity_detected {
            "&#10003;"@
        } else {
            "&#10007;"@
        }) + "</td>"@) + "</tr>"@,
{
}

/// A page has its title, heading, path, columns and rows at their places, and a list without
/// rows shows the notice instead. The dashboard shows the three counts in order.
pub proof fn pages_by_parts(
    title: Seq<char>,
    heading: Seq<char>,
    path: Seq<char>,
    columns: Seq<char>,
    rows: Seq<char>,
    notice: Seq<char>,
    certificates: nat,
    anomalies: nat,
    actions: Seq<ActionDirectiveRow>,
)
    ensures
        rows_or(rows, true, notice) == rows,
        rows_or(rows, false, notice) == notice,
        table_page(title, heading, path, columns, rows) == PAGE_TOP@ + title + PAGE_STYLES@
            + STYLES@ + PAGE_BODY@ + NAV@ + PAGE_HEADING@ + heading + PAGE_PATH@ + path
            + PAGE_COLUMNS@ + columns + PAGE_ROWS@ + rows + PAGE_END@,
        dashboard(certificates, anomalies, actions) == DASHBOARD_TOP@ + STYLES@ + DASHBOARD_BODY@
            + NAV@ + DASHBOARD_CERTIFICATES@ + decimal(certificates) + DASHBOARD_ANOMALIES@
            + decimal(anomalies) + DASHBOARD_ACTIONS@ + decimal(actions.len()) + DASHBOARD_TABLE@
            + (if actions.len() >= 1 {
            recent_rows(actions)
        } else {
            NO_RECENT_ACTIONS@
        }) + DASHBOARD_END@,
{
}

} // verus!
