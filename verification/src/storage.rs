//! Rows of the database and their conversion to and from the types of the library.

use vstd::prelude::*;
use crate::ids::hyphenated;
use crate::text::{clone_text, led_in, same_text, views};
use crate::time::{Timestamp, MAX_SECS, MILLIS_PER_DAY, MIN_SECS, NANOS_PER_MILLI};
use crate::types::{
    zero_fingerprint, ActionDirective, ActionType, CertificateMetadata, RiskLevel, Severity,
};

verus! {

/// A row of the table of shadow certificates.
#[derive(Clone, Debug)]
pub struct ShadowCertificateRow {
    pub fingerprint: [u8; 32],
    pub risk_level: RiskLevel,
    /// Milliseconds since the Unix epoch, as are the other times of the rows.
    pub first_classified: i64,
    pub last_escalated: Option<i64>,
    pub escalation_count: i32,
    pub source_ip: Option<String>,
    pub destination_ip: Option<String>,
    pub first_seen: i64,
    pub is_resolved: bool,
    pub resolved_at: Option<i64>,
}

/// A row of the audit log.
#[derive(Clone, Debug)]
pub struct AuditLogRow {
    pub id: i64,
    pub correlation_id: String,
    pub cert_fingerprint: [u8; 32],
    pub stage: String,
    pub timestamp: i64,
    pub details: String,
    pub created_at: i64,
}

/// A row of the inventory of known certificates.
#[derive(Clone, Debug)]
pub struct CertificateInventoryRow {
    pub fingerprint: [u8; 32],
    pub subject: String,
    pub source: String,
    pub imported_at: i64,
    pub last_refresh_id: String,
}

/// A row of the log of inventory imports.
#[derive(Clone, Debug)]
pub struct InventoryRefreshLogRow {
    pub id: String,
    pub timestamp: i64,
    pub source: String,
    pub total_entries: Option<i32>,
    pub new_entries: Option<i32>,
    pub removed_entries: Option<i32>,
    pub skipped_invalid: Option<i32>,
    pub success: bool,
}

/// A row of the table of directives.
#[derive(Clone, Debug)]
pub struct ActionDirectiveRow {
    pub id: String,
    pub correlation_id: String,
    pub cert_fingerprint: [u8; 32],
    pub action_type: String,
    pub severity: String,
    pub reasoning: Option<String>,
    pub status: String,
    pub attempt_count: i32,
    pub created_at: i64,
    pub executed_at: Option<i64>,
    pub expired_at: Option<i64>,
    pub failure_reason: Option<String>,
}

/// A row of the table of renewal predictions.
#[derive(Clone, Debug)]
pub struct RenewalPredictionRow {
    pub cert_fingerprint: [u8; 32],
    /// Probability of failure in thousandths.
    pub failure_probability: u32,
    pub severity: String,
    pub days_until_expiry: i32,
    pub renewal_activity_detected: bool,
    pub reasoning: Option<String>,
    pub last_evaluated: i64,
    pub created_at: i64,
}

/// The name of a severity in the database.
pub open spec fn severity_text(severity: Severity) -> Seq<char> {
    match severity {
        Severity::Low => "low"@,
        Severity::Medium => "medium"@,
        Severity::High => "high"@,
        Severity::Critical => "critical"@,
    }
}

/// The name of a severity in the database.
pub fn severity_to_str(severity: Severity) -> (r: &'static str)
    ensures
        r@ == severity_text(severity),
{
    match severity {
        Severity::Low => "low",
        Severity::Medium => "medium",
        Severity::High => "high",
        Severity::Critical => "critical",
    }
}

/// The name of an action in the database.
pub open spec fn action_text(action_type: ActionType) -> Seq<char> {
    match action_type {
        ActionType::Alert => "alert"@,
        ActionType::Renew => "renew"@,
        ActionType::Protect { .. } => "protect"@,
        ActionType::Isolate { .. } => "isolate"@,
    }
}

/// The name of an action in the database.
pub fn action_type_to_str(action_type: &ActionType) -> (r: String)
    ensures
        r@ == action_text(*action_type),
{
    match action_type {
        ActionType::Alert => String::from_str("alert"),
        ActionType::Renew => String::from_str("renew"),
        ActionType::Protect { .. } => String::from_str("protect"),
        ActionType::Isolate { .. } => String::from_str("isolate"),
    }
}

/// The name of a risk level in the database.
pub open spec fn risk_level_text(level: RiskLevel) -> Seq<char> {
    match level {
        RiskLevel::Low => "low"@,
        RiskLevel::Medium => "medium"@,
        RiskLevel::High => "high"@,
        RiskLevel::Critical => "critical"@,
    }
}

/// The name of a risk level in the database.
pub fn risk_level_to_str(level: &RiskLevel) -> (r: &'static str)
    ensures
        r@ == risk_level_text(*level),
{
    match level {
        RiskLevel::Low => "low",
        RiskLevel::Medium => "medium",
        RiskLevel::High => "high",
        RiskLevel::Critical => "critical",
    }
}

/// The risk level that a name in the database stands for; a name that means nothing stands
/// for the lowest.
pub open spec fn risk_level_named(name: Seq<char>) -> RiskLevel {
    if name == "medium"@ {
        RiskLevel::Medium
    } else if name == "high"@ {
        RiskLevel::High
    } else if name == "critical"@ {
        RiskLevel::Critical
    } else {
        RiskLevel::Low
    }
}

/// The risk level that a name in the database stands for; a name that means nothing stands
/// for the lowest.
pub fn str_to_risk_level(name: &str) -> (r: RiskLevel)
    ensures
        r == risk_level_named(name@),
{
    if same_text(name, "medium") {
        RiskLevel::Medium
    } else if same_text(name, "high") {
        RiskLevel::High
    } else if same_text(name, "critical") {
        RiskLevel::Critical
    } else {
        RiskLevel::Low
    }
}

/// A risk level that was written to the database is read back unchanged.
pub proof fn risk_level_round_trip(level: RiskLevel)
    ensures
        risk_level_named(risk_level_text(level)) == level,
{
    reveal_strlit("low");
    reveal_strlit("medium");
    reveal_strlit("high");
    reveal_strlit("critical");
    assert("low"@.len() == 3 && "medium"@.len() == 6 && "high"@.len() == 4 && "critical"@.len()
        == 8);
}

/// A change of a directive's status.
#[derive(Clone, Debug)]
pub struct StatusChange {
    /// The directive's identifier.
    pub id: String,
    /// The new status.
    pub status: String,
    /// Why it failed or was given up.
    pub reason: Option<String>,
}

/// A change of a directive's status as a mathematical value.
pub struct StatusChangeView {
    pub id: Seq<char>,
    pub status: Seq<char>,
    pub reason: Option<Seq<char>>,
}

impl View for StatusChange {
    type V = StatusChangeView;

    open spec fn view(&self) -> StatusChangeView {
        StatusChangeView {
            id: self.id@,
            status: self.status@,
            reason: match self.reason {
                Some(t) => Some(t@),
                None => None,
            },
        }
    }
}

/// The changes as mathematical values.
pub open spec fn change_views(changes: Seq<StatusChange>) -> Seq<StatusChangeView> {
    Seq::new(changes.len(), |i: int| changes[i]@)
}

/// The changes that give every directive the same status for the same reason.
pub open spec fn all_changed(
    rows: Seq<ActionDirectiveRow>,
    status: Seq<char>,
    reason: Option<Seq<char>>,
) -> Seq<StatusChangeView> {
    Seq::new(rows.len(), |i: int| StatusChangeView { id: rows[i].id@, status, reason })
}

/// Changing one directive more in the same way.
pub proof fn lemma_one_more_changed(
    start: Seq<StatusChangeView>,
    before: Seq<StatusChange>,
    change: StatusChange,
    rows: Seq<ActionDirectiveRow>,
    i: int,
    status: Seq<char>,
    reason: Option<Seq<char>>,
)
    requires
        0 <= i < rows.len(),
        change_views(before) == start + all_changed(rows.take(i), status, reason),
        change@ == (StatusChangeView { id: rows[i].id@, status, reason }),
    ensures
        change_views(before.push(change)) == start + all_changed(rows.take(i + 1), status, reason),
{
    let new = change_views(before.push(change));
    let goal = start + all_changed(rows.take(i + 1), status, reason);
    assert(change_views(before).len() == before.len());
    assert forall|j: int| 0 <= j < new.len() implies new[j] == goal[j] by {
        if j < before.len() {
            assert(new[j] == change_views(before)[j]);
        }
    }
    assert(new =~= goal);
}

/// Whether two fingerprints are the same.
pub fn same_fingerprint(a: &[u8; 32], b: &[u8; 32]) -> (r: bool)
    ensures
        r == (a@ == b@),
{
    let mut i: usize = 0;
    while i < 32
        invariant
            i <= 32,
            forall|j: int| 0 <= j < i ==> a@[j] == b@[j],
        decreases 32 - i,
    {
        if a[i] != b[i] {
            return false;
        }
        i += 1;
    }
    assert(a@ =~= b@);
    true
}

/// A copy of a row.
pub fn clone_shadow_row(row: &ShadowCertificateRow) -> (r: ShadowCertificateRow)
    ensures
        r == *row,
{
    ShadowCertificateRow {
        fingerprint: row.fingerprint,
        risk_level: row.risk_level,
        first_classified: row.first_classified,
        last_escalated: row.last_escalated,
        escalation_count: row.escalation_count,
        source_ip: clone_text(&row.source_ip),
        destination_ip: clone_text(&row.destination_ip),
        first_seen: row.first_seen,
        is_resolved: row.is_resolved,
        resolved_at: row.resolved_at,
    }
}

/// The row holds the directive, which waits for execution.
pub open spec fn is_pending_row(row: ActionDirectiveRow, d: ActionDirective) -> bool {
    &&& row.id@ == hyphenated(d.id.bits)
    &&& row.correlation_id@ == hyphenated(d.correlation_id.bits)
    &&& row.cert_fingerprint == d.cert_fingerprint
    &&& row.action_type@ == action_text(d.action_type)
    &&& row.severity@ == severity_text(d.severity)
    &&& row.reasoning == Some(d.reasoning)
    &&& row.status@ == "pending"@
    &&& row.attempt_count == 0
    &&& row.created_at == d.created_at.millis()
    &&& row.executed_at is None
    &&& row.expired_at is None
    &&& row.failure_reason is None
}

/// The row of a directive that waits for execution.
pub fn pending_row(d: &ActionDirective) -> (r: ActionDirectiveRow)
    ensures
        is_pending_row(r, *d),
{
    ActionDirectiveRow {
        id: d.id.to_text(),
        correlation_id: d.correlation_id.to_text(),
        cert_fingerprint: d.cert_fingerprint,
        action_type: action_type_to_str(&d.action_type),
        severity: String::from_str(severity_to_str(d.severity)),
        reasoning: Some(d.reasoning.clone()),
        status: String::from_str("pending"),
        attempt_count: 0,
        created_at: d.created_at.timestamp_millis(),
        executed_at: None,
        expired_at: None,
        failure_reason: None,
    }
}


// ---------------------------------------------------------------------------
// Columns
// ---------------------------------------------------------------------------

/// What went wrong with the database.
#[derive(Clone, Debug)]
pub enum StorageError {
    /// The database reported an error.
    Sqlite(String),
    /// Something around the database failed.
    Internal(String),
    /// A value could not be converted.
    Conversion(String),
}

impl StorageError {
    /// The error in words.
    pub fn message(&self) -> (r: String)
        ensures
            r@ == (match self {
                StorageError::Sqlite(text) => "SQLite error: "@ + text@,
                StorageError::Internal(text) => "Internal error: "@ + text@,
                StorageError::Conversion(text) => "Data conversion error: "@ + text@,
            }),
    {
        match self {
            StorageError::Sqlite(text) => led_in("SQLite error: ", text.as_str()),
            StorageError::Internal(text) => led_in("Internal error: ", text.as_str()),
            StorageError::Conversion(text) => led_in("Data conversion error: ", text.as_str()),
        }
    }
}

/// The JSON array of strings that `serde_json::to_string` writes for a list of texts.
pub uninterp spec fn json_list(texts: Seq<Seq<char>>) -> Seq<char>;

/// The list of texts that `serde_json::from_str` reads; `None` where the input is not a JSON
/// array of strings.
pub uninterp spec fn json_strings(json: Seq<char>) -> Option<Seq<Seq<char>>>;

/// `serde_json::to_string` of a list of texts, which does not fail. Its result depends on the
/// texts alone, and `serde_json::from_str` reads the same list back from it.
#[verifier::external_body]
fn write_json_list(texts: &Vec<String>) -> (r: String)
    ensures
        r@ == json_list(views(texts@)),
        json_strings(r@) == Some(views(texts@)),
{
    serde_json::to_string(texts).unwrap()
}

/// `serde_json::from_str` into a list of texts: its result depends on the input alone.
#[verifier::external_body]
fn read_json_list(json: &str) -> (r: Option<Vec<String>>)
    ensures
        match r {
            Some(texts) => json_strings(json@) == Some(views(texts@)),
            None => json_strings(json@) is None,
        },
{
    serde_json::from_str(json).ok()
}

/// The columns of a certificate.
#[derive(Clone, Debug)]
pub struct CertificateColumns {
    pub fingerprint: Vec<u8>,
    pub subject: String,
    pub issuer: String,
    pub serial_number: String,
    pub not_before: i64,
    pub not_after: i64,
    /// The names as a JSON array.
    pub sans: Option<String>,
    pub key_algorithm: String,
    pub key_size: u32,
    pub chain_depth: i32,
    pub issuer_fingerprint: Option<Vec<u8>>,
    pub first_seen: i64,
    pub last_seen: i64,
    pub connection_count: i64,
    pub source_ip: Option<String>,
    pub destination_ip: Option<String>,
    pub sni_hostname: Option<String>,
    pub completeness_flags: i64,
}

/// The calendar reaches the instant that many milliseconds after the Unix epoch.
pub open spec fn in_calendar_millis(ms: int) -> bool {
    MIN_SECS * 1000 <= ms <= MAX_SECS * 1000 + 999
}

/// The times of the row are within the calendar.
pub open spec fn times_in_calendar(c: CertificateColumns) -> bool {
    &&& in_calendar_millis(c.not_before as int)
    &&& in_calendar_millis(c.not_after as int)
    &&& in_calendar_millis(c.first_seen as int)
    &&& in_calendar_millis(c.last_seen as int)
}

/// The columns of a stored certificate once it was observed again.
pub open spec fn touched(c: CertificateColumns, last_seen: i64) -> CertificateColumns {
    CertificateColumns {
        last_seen,
        connection_count: (c.connection_count + 1) as i64,
        ..c
    }
}

/// The columns to store for an observation: those of a certificate that is stored already stay,
/// and only count one observation more.
pub open spec fn merged(stored: Option<CertificateColumns>, seen: CertificateColumns) -> CertificateColumns {
    match stored {
        Some(c) => touched(c, seen.last_seen),
        None => seen,
    }
}

/// The columns stored for a certificate after several observations of it, one after the other.
pub open spec fn merged_all(seen: Seq<CertificateColumns>) -> Option<CertificateColumns>
    decreases seen.len(),
{
    if seen.len() == 0 {
        None
    } else {
        Some(merged(merged_all(seen.drop_last()), seen.last()))
    }
}

/// A certificate that was observed any number of times, each time in one connection, is stored
/// with that number of connections. It was first seen with the first observation and last seen
/// with the last, and all else is as it was first observed.
pub proof fn every_observation_is_counted(seen: Seq<CertificateColumns>)
    requires
        0 < seen.len() <= i64::MAX,
        forall|i: int| 0 <= i < seen.len() ==> (#[trigger] seen[i]).connection_count == 1,
    ensures
        merged_all(seen) == Some(
            CertificateColumns {
                last_seen: seen.last().last_seen,
                connection_count: seen.len() as i64,
                ..seen[0]
            },
        ),
    decreases seen.len(),
{
    let before = seen.drop_last();
    assert(seen[0].connection_count == 1);
    if before.len() > 0 {
        assert forall|i: int| 0 <= i < before.len() implies (
        #[trigger] before[i]).connection_count == 1 by {
            assert(before[i] == seen[i]);
        }
        every_observation_is_counted(before);
        assert(before[0] == seen[0]);
    } else {
        assert(merged_all(before) is None);
        assert(seen.last() == seen[0]);
    }
}

/// The columns of a stored certificate once it was observed again.
pub fn touch_columns(c: CertificateColumns, last_seen: i64) -> (r: CertificateColumns)
    requires
        c.connection_count < i64::MAX,
    ensures
        r == touched(c, last_seen),
{
    let connection_count: i64 = c.connection_count + 1;
    CertificateColumns { last_seen, connection_count, ..c }
}

/// The columns to store for an observation, given those that are stored already.
pub fn merge_columns(stored: Option<CertificateColumns>, seen: CertificateColumns) -> (r: CertificateColumns)
    requires
        stored matches Some(c) ==> c.connection_count < i64::MAX,
    ensures
        r == merged(stored, seen),
{
    match stored {
        Some(c) => touch_columns(c, seen.last_seen),
        None => seen,
    }
}

/// A fingerprint from its column: that of 32 bytes, or zeros where there are not as many.
pub open spec fn blob_fingerprint(blob: Seq<u8>) -> Seq<u8> {
    if blob.len() == 32 {
        blob
    } else {
        zero_fingerprint()
    }
}

/// The names from their column: none where the column is empty or cannot be read.
pub open spec fn column_sans(sans: Option<String>) -> Seq<Seq<char>> {
    match sans {
        Some(json) => match json_strings(json@) {
            Some(texts) => texts,
            None => Seq::empty(),
        },
        None => Seq::empty(),
    }
}

/// The columns hold the certificate.
pub open spec fn holds_certificate(c: CertificateColumns, cert: CertificateMetadata) -> bool {
    &&& times_in_calendar(c)
    &&& c.fingerprint@ == cert.fingerprint@
    &&& c.subject == cert.subject
    &&& c.issuer == cert.issuer
    &&& c.serial_number == cert.serial_number
    &&& c.not_before == cert.not_before.millis()
    &&& c.not_after == cert.not_after.millis()
    &&& c.sans matches Some(json) && json@ == json_list(views(cert.sans@)) && json_strings(json@)
        == Some(views(cert.sans@))
    &&& c.key_algorithm == cert.key_algorithm
    &&& c.key_size == cert.key_size
    &&& c.chain_depth == cert.chain_depth
    &&& match (c.issuer_fingerprint, cert.issuer_fingerprint) {
        (Some(blob), Some(fp)) => blob@ == fp@,
        (None, None) => true,
        _ => false,
    }
    &&& c.first_seen == cert.first_seen.millis()
    &&& c.last_seen == cert.last_seen.millis()
    &&& c.connection_count == cert.connection_count as i64
    &&& c.source_ip == cert.source_ip
    &&& c.destination_ip == cert.destination_ip
    &&& c.sni_hostname == cert.sni_hostname
    &&& c.completeness_flags == cert.completeness_flags
}

/// The certificate is the one that the columns tell of.
pub open spec fn is_certificate_in(cert: CertificateMetadata, c: CertificateColumns) -> bool {
    is_certificate_with(cert, c, column_sans(c.sans))
}

/// The certificate is the one that the columns tell of, where its names are the given ones.
pub open spec fn is_certificate_with(
    cert: CertificateMetadata,
    c: CertificateColumns,
    sans: Seq<Seq<char>>,
) -> bool {
    &&& cert.fingerprint@ == blob_fingerprint(c.fingerprint@)
    &&& cert.subject == c.subject
    &&& cert.issuer == c.issuer
    &&& cert.serial_number == c.serial_number
    &&& cert.not_before.at() == c.not_before * NANOS_PER_MILLI
    &&& cert.not_after.at() == c.not_after * NANOS_PER_MILLI
    &&& views(cert.sans@) == sans
    &&& cert.key_algorithm == c.key_algorithm
    &&& cert.key_size == c.key_size
    &&& cert.chain_depth == c.chain_depth as u8
    &&& match cert.issuer_fingerprint {
        Some(fp) => c.issuer_fingerprint matches Some(blob) && blob@.len() == 32 && fp@ == blob@,
        None => c.issuer_fingerprint matches Some(blob) ==> blob@.len() != 32,
    }
    &&& cert.first_seen.at() == c.first_seen * NANOS_PER_MILLI
    &&& cert.last_seen.at() == c.last_seen * NANOS_PER_MILLI
    &&& cert.connection_count == c.connection_count as u64
    &&& cert.source_ip == c.source_ip
    &&& cert.destination_ip == c.destination_ip
    &&& cert.sni_hostname == c.sni_hostname
    &&& cert.completeness_flags == c.completeness_flags as u32
}

/// A certificate that was written to the database is read back as it was, save that its times
/// are cut to whole milliseconds.
pub proof fn certificate_round_trip(
    cert: CertificateMetadata,
    c: CertificateColumns,
    back: CertificateMetadata,
)
    requires
        holds_certificate(c, cert),
        is_certificate_in(back, c),
    ensures
        back.fingerprint@ == cert.fingerprint@,
        back.subject == cert.subject,
        back.issuer == cert.issuer,
        back.serial_number == cert.serial_number,
        back.not_before.millis() == cert.not_before.millis(),
        back.not_after.millis() == cert.not_after.millis(),
        views(back.sans@) == views(cert.sans@),
        back.key_algorithm == cert.key_algorithm,
        back.key_size == cert.key_size,
        back.chain_depth == cert.chain_depth,
        back.issuer_fingerprint is Some <==> cert.issuer_fingerprint is Some,
        back.issuer_fingerprint matches Some(fp) ==> fp@ == cert.issuer_fingerprint->0@,
        back.first_seen.millis() == cert.first_seen.millis(),
        back.last_seen.millis() == cert.last_seen.millis(),
        back.connection_count == cert.connection_count,
        back.source_ip == cert.source_ip,
        back.destination_ip == cert.destination_ip,
        back.sni_hostname == cert.sni_hostname,
        back.completeness_flags == cert.completeness_flags,
{
    let count = cert.connection_count;
    assert((count as i64) as u64 == count) by (bit_vector);
}

/// The bytes of a fingerprint.
fn fingerprint_blob(fp: &[u8; 32]) -> (r: Vec<u8>)
    ensures
        r@ == fp@,
{
    let mut out: Vec<u8> = Vec::new();
    let mut i: usize = 0;
    while i < 32
        invariant
            i <= 32,
            out@ == fp@.take(i as int),
        decreases 32 - i,
    {
        out.push(fp[i]);
        assert(fp@.take(i + 1) =~= fp@.take(i as int).push(fp@[i as int]));
        i += 1;
    }
    assert(fp@.take(32) =~= fp@);
    out
}

/// A fingerprint from its column: that of 32 bytes, or zeros where there are not as many.
pub fn fingerprint_from_blob(blob: &Vec<u8>) -> (r: [u8; 32])
    ensures
        r@ == blob_fingerprint(blob@),
{
    let mut out: [u8; 32] = [0u8; 32];
    if blob.len() == 32 {
        let mut i: usize = 0;
        while i < 32
            invariant
                i <= 32,
                blob.len() == 32,
                forall|j: int| 0 <= j < i ==> #[trigger] out@[j] == blob@[j],
            decreases 32 - i,
        {
            out[i] = blob[i];
            i += 1;
        }
        assert(out@ =~= blob@);
    } else {
        assert(out@ =~= zero_fingerprint());
    }
    out
}

/// The columns of 32 bytes, in order.
pub open spec fn whole_blobs(blobs: Seq<Vec<u8>>) -> Seq<Seq<u8>>
    decreases blobs.len(),
{
    if blobs.len() == 0 {
        Seq::empty()
    } else if blobs.last()@.len() == 32 {
        whole_blobs(blobs.drop_last()).push(blobs.last()@)
    } else {
        whole_blobs(blobs.drop_last())
    }
}

/// The fingerprints among a list of columns, in order: those of 32 bytes.
pub fn fingerprints_from_blobs(blobs: &Vec<Vec<u8>>) -> (r: Vec<[u8; 32]>)
    ensures
        crate::dedup::fingerprint_views(r@) == whole_blobs(blobs@),
{
    let mut out: Vec<[u8; 32]> = Vec::new();
    let mut i: usize = 0;
    assert(crate::dedup::fingerprint_views(out@) =~= whole_blobs(blobs@.take(0)));
    while i < blobs.len()
        invariant
            i <= blobs.len(),
            crate::dedup::fingerprint_views(out@) == whole_blobs(blobs@.take(i as int)),
        decreases blobs.len() - i,
    {
        assert(blobs@.take(i + 1).drop_last() =~= blobs@.take(i as int));
        let ghost before = out@;
        if blobs[i].len() == 32 {
            let fp = fingerprint_from_blob(&blobs[i]);
            out.push(fp);
            assert(crate::dedup::fingerprint_views(out@) =~= crate::dedup::fingerprint_views(
                before,
            ).push(fp@));
        }
        i += 1;
    }
    assert(blobs@.take(i as int) =~= blobs@);
    out
}

/// The columns of a certificate.
pub fn certificate_columns(cert: &CertificateMetadata) -> (r: CertificateColumns)
    ensures
        holds_certificate(r, *cert),
{
    let issuer_fingerprint = match &cert.issuer_fingerprint {
        Some(fp) => Some(fingerprint_blob(fp)),
        None => None,
    };
    CertificateColumns {
        fingerprint: fingerprint_blob(&cert.fingerprint),
        subject: cert.subject.clone(),
        issuer: cert.issuer.clone(),
        serial_number: cert.serial_number.clone(),
        not_before: cert.not_before.timestamp_millis(),
        not_after: cert.not_after.timestamp_millis(),
        sans: Some(write_json_list(&cert.sans)),
        key_algorithm: cert.key_algorithm.clone(),
        key_size: cert.key_size,
        chain_depth: cert.chain_depth as i32,
        issuer_fingerprint,
        first_seen: cert.first_seen.timestamp_millis(),
        last_seen: cert.last_seen.timestamp_millis(),
        connection_count: cert.connection_count as i64,
        source_ip: clone_text(&cert.source_ip),
        destination_ip: clone_text(&cert.destination_ip),
        sni_hostname: clone_text(&cert.sni_hostname),
        completeness_flags: cert.completeness_flags as i64,
    }
}

/// The instant that many milliseconds after the Unix epoch.
fn instant_of(ms: i64) -> (r: Timestamp)
    requires
        in_calendar_millis(ms as int),
    ensures
        r.at() == ms * NANOS_PER_MILLI,
{
    match Timestamp::from_timestamp_millis(ms) {
        Some(t) => t,
        None => Timestamp::epoch(),
    }
}

/// The certificate that the columns of a row tell of.
pub fn row_to_certificate_metadata(c: CertificateColumns) -> (r: CertificateMetadata)
    requires
        times_in_calendar(c),
    ensures
        is_certificate_in(r, c),
{
    let sans: Vec<String> = match &c.sans {
        Some(json) => match read_json_list(json.as_str()) {
            Some(texts) => texts,
            None => Vec::new(),
        },
        None => Vec::new(),
    };
    assert(views(sans@) =~= column_sans(c.sans));
    certificate_with_sans(c, sans)
}

/// The certificate that the columns of a row tell of, where its names were read before.
pub fn certificate_with_sans(c: CertificateColumns, sans: Vec<String>) -> (r: CertificateMetadata)
    requires
        times_in_calendar(c),
    ensures
        is_certificate_with(r, c, views(sans@)),
{
    let issuer_fingerprint = match &c.issuer_fingerprint {
        Some(blob) => {
            if blob.len() == 32 {
                Some(fingerprint_from_blob(blob))
            } else {
                None
            }
        },
        None => None,
    };
    CertificateMetadata {
        fingerprint: fingerprint_from_blob(&c.fingerprint),
        subject: c.subject,
        issuer: c.issuer,
        serial_number: c.serial_number,
        not_before: instant_of(c.not_before),
        not_after: instant_of(c.not_after),
        sans,
        key_algorithm: c.key_algorithm,
        key_size: c.key_size,
        chain_depth: c.chain_depth as u8,
        issuer_fingerprint,
        first_seen: instant_of(c.first_seen),
        last_seen: instant_of(c.last_seen),
        connection_count: c.connection_count as u64,
        source_ip: c.source_ip,
        destination_ip: c.destination_ip,
        sni_hostname: c.sni_hostname,
        completeness_flags: c.completeness_flags as u32,
    }
}

/// Whether the times of a row are within the calendar.
pub fn has_times_in_calendar(c: &CertificateColumns) -> (r: bool)
    ensures
        r == times_in_calendar(*c),
{
    Timestamp::from_timestamp_millis(c.not_before).is_some() && Timestamp::from_timestamp_millis(
        c.not_after,
    ).is_some() && Timestamp::from_timestamp_millis(c.first_seen).is_some()
        && Timestamp::from_timestamp_millis(c.last_seen).is_some()
}

/// How a yes or no is stored.
pub open spec fn flag_number(flag: bool) -> i32 {
    if flag {
        1
    } else {
        0
    }
}

/// How a yes or no is stored.
fn number_of_flag(flag: bool) -> (r: i32)
    ensures
        r == flag_number(flag),
{
    if flag {
        1
    } else {
        0
    }
}

/// The columns of a shadow certificate.
#[derive(Clone, Debug)]
pub struct ShadowColumns {
    pub fingerprint: Vec<u8>,
    pub risk_level: String,
    pub first_classified: i64,
    pub last_escalated: Option<i64>,
    pub escalation_count: i32,
    pub source_ip: Option<String>,
    pub destination_ip: Option<String>,
    pub first_seen: i64,
    pub is_resolved: i32,
    pub resolved_at: Option<i64>,
}

/// The columns hold the shadow certificate.
pub open spec fn holds_shadow(c: ShadowColumns, row: ShadowCertificateRow) -> bool {
    &&& c.fingerprint@ == row.fingerprint@
    &&& c.risk_level@ == risk_level_text(row.risk_level)
    &&& c.first_classified == row.first_classified
    &&& c.last_escalated == row.last_escalated
    &&& c.escalation_count == row.escalation_count
    &&& c.source_ip == row.source_ip
    &&& c.destination_ip == row.destination_ip
    &&& c.first_seen == row.first_seen
    &&& c.is_resolved == flag_number(row.is_resolved)
    &&& c.resolved_at == row.resolved_at
}

/// The shadow certificate is the one that the columns tell of.
pub open spec fn is_shadow_in(row: ShadowCertificateRow, c: ShadowColumns) -> bool {
    &&& row.fingerprint@ == blob_fingerprint(c.fingerprint@)
    &&& row.risk_level == risk_level_named(c.risk_level@)
    &&& row.first_classified == c.first_classified
    &&& row.last_escalated == c.last_escalated
    &&& row.escalation_count == c.escalation_count
    &&& row.source_ip == c.source_ip
    &&& row.destination_ip == c.destination_ip
    &&& row.first_seen == c.first_seen
    &&& row.is_resolved == (c.is_resolved != 0)
    &&& row.resolved_at == c.resolved_at
}

/// A shadow certificate that was written to the database is read back as it was.
pub proof fn shadow_round_trip(
    row: ShadowCertificateRow,
    c: ShadowColumns,
    back: ShadowCertificateRow,
)
    requires
        holds_shadow(c, row),
        is_shadow_in(back, c),
    ensures
        back.fingerprint@ == row.fingerprint@,
        back.risk_level == row.risk_level,
        back.first_classified == row.first_classified,
        back.last_escalated == row.last_escalated,
        back.escalation_count == row.escalation_count,
        back.source_ip == row.source_ip,
        back.destination_ip == row.destination_ip,
        back.first_seen == row.first_seen,
        back.is_resolved == row.is_resolved,
        back.resolved_at == row.resolved_at,
{
    risk_level_round_trip(row.risk_level);
}

/// The columns of a shadow certificate.
pub fn shadow_columns(row: &ShadowCertificateRow) -> (r: ShadowColumns)
    ensures
        holds_shadow(r, *row),
{
    ShadowColumns {
        fingerprint: fingerprint_blob(&row.fingerprint),
        risk_level: String::from_str(risk_level_to_str(&row.risk_level)),
        first_classified: row.first_classified,
        last_escalated: row.last_escalated,
        escalation_count: row.escalation_count,
        source_ip: clone_text(&row.source_ip),
        destination_ip: clone_text(&row.destination_ip),
        first_seen: row.first_seen,
        is_resolved: number_of_flag(row.is_resolved),
        resolved_at: row.resolved_at,
    }
}

/// The shadow certificate that the columns of a row tell of.
pub fn row_to_shadow_certificate(c: ShadowColumns) -> (r: ShadowCertificateRow)
    ensures
        is_shadow_in(r, c),
{
    ShadowCertificateRow {
        fingerprint: fingerprint_from_blob(&c.fingerprint),
        risk_level: str_to_risk_level(c.risk_level.as_str()),
        first_classified: c.first_classified,
        last_escalated: c.last_escalated,
        escalation_count: c.escalation_count,
        source_ip: c.source_ip,
        destination_ip: c.destination_ip,
        first_seen: c.first_seen,
        is_resolved: c.is_resolved != 0,
        resolved_at: c.resolved_at,
    }
}

/// The columns of a directive.
#[derive(Clone, Debug)]
pub struct DirectiveColumns {
    pub id: String,
    pub correlation_id: String,
    pub cert_fingerprint: Vec<u8>,
    pub action_type: String,
    pub severity: String,
    pub reasoning: Option<String>,
    pub status: String,
    pub attempt_count: i32,
    pub created_at: i64,
    pub executed_at: Option<i64>,
    pub expired_at: Option<i64>,
    pub failure_reason: Option<String>,
}

/// The columns hold the directive.
pub open spec fn holds_directive(c: DirectiveColumns, row: ActionDirectiveRow) -> bool {
    &&& c.id == row.id
    &&& c.correlation_id == row.correlation_id
    &&& c.cert_fingerprint@ == row.cert_fingerprint@
    &&& c.action_type == row.action_type
    &&& c.severity == row.severity
    &&& c.reasoning == row.reasoning
    &&& c.status == row.status
    &&& c.attempt_count == row.attempt_count
    &&& c.created_at == row.created_at
    &&& c.executed_at == row.executed_at
    &&& c.expired_at == row.expired_at
    &&& c.failure_reason == row.failure_reason
}

/// The directive is the one that the columns tell of.
pub open spec fn is_directive_in(row: ActionDirectiveRow, c: DirectiveColumns) -> bool {
    &&& row.id == c.id
    &&& row.correlation_id == c.correlation_id
    &&& row.cert_fingerprint@ == blob_fingerprint(c.cert_fingerprint@)
    &&& row.action_type == c.action_type
    &&& row.severity == c.severity
    &&& row.reasoning == c.reasoning
    &&& row.status == c.status
    &&& row.attempt_count == c.attempt_count
    &&& row.created_at == c.created_at
    &&& row.executed_at == c.executed_at
    &&& row.expired_at == c.expired_at
    &&& row.failure_reason == c.failure_reason
}

/// A directive that was written to the database is read back as it was.
pub proof fn directive_round_trip(row: ActionDirectiveRow, c: DirectiveColumns, back: ActionDirectiveRow)
    requires
        holds_directive(c, row),
        is_directive_in(back, c),
    ensures
        back.id == row.id,
        back.correlation_id == row.correlation_id,
        back.cert_fingerprint@ == row.cert_fingerprint@,
        back.action_type == row.action_type,
        back.severity == row.severity,
        back.reasoning == row.reasoning,
        back.status == row.status,
        back.attempt_count == row.attempt_count,
        back.created_at == row.created_at,
        back.executed_at == row.executed_at,
        back.expired_at == row.expired_at,
        back.failure_reason == row.failure_reason,
{
}

/// The columns of a directive.
pub fn directive_columns(row: &ActionDirectiveRow) -> (r: DirectiveColumns)
    ensures
        holds_directive(r, *row),
{
    DirectiveColumns {
        id: row.id.clone(),
        correlation_id: row.correlation_id.clone(),
        cert_fingerprint: fingerprint_blob(&row.cert_fingerprint),
        action_type: row.action_type.clone(),
        severity: row.severity.clone(),
        reasoning: clone_text(&row.reasoning),
        status: row.status.clone(),
        attempt_count: row.attempt_count,
        created_at: row.created_at,
        executed_at: row.executed_at,
        expired_at: row.expired_at,
        failure_reason: clone_text(&row.failure_reason),
    }
}

/// The directive that the columns of a row tell of.
pub fn row_to_action_directive(c: DirectiveColumns) -> (r: ActionDirectiveRow)
    ensures
        is_directive_in(r, c),
{
    ActionDirectiveRow {
        id: c.id,
        correlation_id: c.correlation_id,
        cert_fingerprint: fingerprint_from_blob(&c.cert_fingerprint),
        action_type: c.action_type,
        severity: c.severity,
        reasoning: c.reasoning,
        status: c.status,
        attempt_count: c.attempt_count,
        created_at: c.created_at,
        executed_at: c.executed_at,
        expired_at: c.expired_at,
        failure_reason: c.failure_reason,
    }
}

/// The columns of a renewal prediction.
#[derive(Clone, Debug)]
pub struct PredictionColumns {
    pub cert_fingerprint: Vec<u8>,
    pub failure_probability: u32,
    pub severity: String,
    pub days_until_expiry: i32,
    pub renewal_activity_detected: i32,
    pub reasoning: Option<String>,
    pub last_evaluated: i64,
    pub created_at: i64,
}

/// The columns hold the renewal prediction.
pub open spec fn holds_prediction(c: PredictionColumns, row: RenewalPredictionRow) -> bool {
    &&& c.cert_fingerprint@ == row.cert_fingerprint@
    &&& c.failure_probability == row.failure_probability
    &&& c.severity == row.severity
    &&& c.days_until_expiry == row.days_until_expiry
    &&& c.renewal_activity_detected == flag_number(row.renewal_activity_detected)
    &&& c.reasoning == row.reasoning
    &&& c.last_evaluated == row.last_evaluated
    &&& c.created_at == row.created_at
}

/// The renewal prediction is the one that the columns tell of.
pub open spec fn is_prediction_in(row: RenewalPredictionRow, c: PredictionColumns) -> bool {
    &&& row.cert_fingerprint@ == blob_fingerprint(c.cert_fingerprint@)
    &&& row.failure_probability == c.failure_probability
    &&& row.severity == c.severity
    &&& row.days_until_expiry == c.days_until_expiry
    &&& row.renewal_activity_detected == (c.renewal_activity_detected != 0)
    &&& row.reasoning == c.reasoning
    &&& row.last_evaluated == c.last_evaluated
    &&& row.created_at == c.created_at
}

/// A renewal prediction that was written to the database is read back as it was.
pub proof fn prediction_round_trip(row: RenewalPredictionRow, c: PredictionColumns, back: RenewalPredictionRow)
    requires
        holds_prediction(c, row),
        is_prediction_in(back, c),
    ensures
        back.cert_fingerprint@ == row.cert_fingerprint@,
        back.failure_probability == row.failure_probability,
        back.severity == row.severity,
        back.days_until_expiry == row.days_until_expiry,
        back.renewal_activity_detected == row.renewal_activity_detected,
        back.reasoning == row.reasoning,
        back.last_evaluated == row.last_evaluated,
        back.created_at == row.created_at,
{
}

/// The columns of a renewal prediction.
pub fn prediction_columns(row: &RenewalPredictionRow) -> (r: PredictionColumns)
    ensures
        holds_prediction(r, *row),
{
    PredictionColumns {
        cert_fingerprint: fingerprint_blob(&row.cert_fingerprint),
        failure_probability: row.failure_probability,
        severity: row.severity.clone(),
        days_until_expiry: row.days_until_expiry,
        renewal_activity_detected: number_of_flag(row.renewal_activity_detected),
        reasoning: clone_text(&row.reasoning),
        last_evaluated: row.last_evaluated,
        created_at: row.created_at,
    }
}

/// The renewal prediction that the columns of a row tell of.
pub fn row_to_renewal_prediction(c: PredictionColumns) -> (r: RenewalPredictionRow)
    ensures
        is_prediction_in(r, c),
{
    RenewalPredictionRow {
        cert_fingerprint: fingerprint_from_blob(&c.cert_fingerprint),
        failure_probability: c.failure_probability,
        severity: c.severity,
        days_until_expiry: c.days_until_expiry,
        renewal_activity_detected: c.renewal_activity_detected != 0,
        reasoning: c.reasoning,
        last_evaluated: c.last_evaluated,
        created_at: c.created_at,
    }
}

/// The columns of an audit entry.
#[derive(Clone, Debug)]
pub struct AuditColumns {
    pub id: i64,
    pub correlation_id: String,
    pub cert_fingerprint: Vec<u8>,
    pub stage: String,
    pub timestamp: i64,
    pub details: String,
    pub created_at: i64,
}

/// The columns hold the audit entry.
pub open spec fn holds_audit(c: AuditColumns, row: AuditLogRow) -> bool {
    &&& c.id == row.id
    &&& c.correlation_id == row.correlation_id
    &&& c.cert_fingerprint@ == row.cert_fingerprint@
    &&& c.stage == row.stage
    &&& c.timestamp == row.timestamp
    &&& c.details == row.details
    &&& c.created_at == row.created_at
}

/// The audit entry is the one that the columns tell of.
pub open spec fn is_audit_in(row: AuditLogRow, c: AuditColumns) -> bool {
    &&& row.id == c.id
    &&& row.correlation_id == c.correlation_id
    &&& row.cert_fingerprint@ == blob_fingerprint(c.cert_fingerprint@)
    &&& row.stage == c.stage
    &&& row.timestamp == c.timestamp
    &&& row.details == c.details
    &&& row.created_at == c.created_at
}

/// An audit entry that was written to the database is read back as it was.
pub proof fn audit_round_trip(row: AuditLogRow, c: AuditColumns, back: AuditLogRow)
    requires
        holds_audit(c, row),
        is_audit_in(back, c),
    ensures
        back.id == row.id,
        back.correlation_id == row.correlation_id,
        back.cert_fingerprint@ == row.cert_fingerprint@,
        back.stage == row.stage,
        back.timestamp == row.timestamp,
        back.details == row.details,
        back.created_at == row.created_at,
{
}

/// The columns of an audit entry.
pub fn audit_columns(row: &AuditLogRow) -> (r: AuditColumns)
    ensures
        holds_audit(r, *row),
{
    AuditColumns {
        id: row.id,
        correlation_id: row.correlation_id.clone(),
        cert_fingerprint: fingerprint_blob(&row.cert_fingerprint),
        stage: row.stage.clone(),
        timestamp: row.timestamp,
        details: row.details.clone(),
        created_at: row.created_at,
    }
}

/// The audit entry that the columns of a row tell of.
pub fn row_to_audit_log(c: AuditColumns) -> (r: AuditLogRow)
    ensures
        is_audit_in(r, c),
{
    AuditLogRow {
        id: c.id,
        correlation_id: c.correlation_id,
        cert_fingerprint: fingerprint_from_blob(&c.cert_fingerprint),
        stage: c.stage,
        timestamp: c.timestamp,
        details: c.details,
        created_at: c.created_at,
    }
}

/// The columns of an import.
#[derive(Clone, Debug)]
pub struct RefreshColumns {
    pub id: String,
    pub timestamp: i64,
    pub source: String,
    pub total_entries: Option<i32>,
    pub new_entries: Option<i32>,
    pub removed_entries: Option<i32>,
    pub skipped_invalid: Option<i32>,
    pub success: i32,
}

/// The columns hold the import.
pub open spec fn holds_refresh(c: RefreshColumns, row: InventoryRefreshLogRow) -> bool {
    &&& c.id == row.id
    &&& c.timestamp == row.timestamp
    &&& c.source == row.source
    &&& c.total_entries == row.total_entries
    &&& c.new_entries == row.new_entries
    &&& c.removed_entries == row.removed_entries
    &&& c.skipped_invalid == row.skipped_invalid
    &&& c.success == flag_number(row.success)
}

/// The import is the one that the columns tell of.
pub open spec fn is_refresh_in(row: InventoryRefreshLogRow, c: RefreshColumns) -> bool {
    &&& row.id == c.id
    &&& row.timestamp == c.timestamp
    &&& row.source == c.source
    &&& row.total_entries == c.total_entries
    &&& row.new_entries == c.new_entries
    &&& row.removed_entries == c.removed_entries
    &&& row.skipped_invalid == c.skipped_invalid
    &&& row.success == (c.success != 0)
}

/// An import that was written to the database is read back as it was.
pub proof fn refresh_round_trip(row: InventoryRefreshLogRow, c: RefreshColumns, back: InventoryRefreshLogRow)
    requires
        holds_refresh(c, row),
        is_refresh_in(back, c),
    ensures
        back.id == row.id,
        back.timestamp == row.timestamp,
        back.source == row.source,
        back.total_entries == row.total_entries,
        back.new_entries == row.new_entries,
        back.removed_entries == row.removed_entries,
        back.skipped_invalid == row.skipped_invalid,
        back.success == row.success,
{
}

/// The columns of an import.
pub fn refresh_columns(row: &InventoryRefreshLogRow) -> (r: RefreshColumns)
    ensures
        holds_refresh(r, *row),
{
    RefreshColumns {
        id: row.id.clone(),
        timestamp: row.timestamp,
        source: row.source.clone(),
        total_entries: row.total_entries,
        new_entries: row.new_entries,
        removed_entries: row.removed_entries,
        skipped_invalid: row.skipped_invalid,
        success: number_of_flag(row.success),
    }
}

/// The import that the columns of a row tell of.
pub fn row_to_refresh_log(c: RefreshColumns) -> (r: InventoryRefreshLogRow)
    ensures
        is_refresh_in(r, c),
{
    InventoryRefreshLogRow {
        id: c.id,
        timestamp: c.timestamp,
        source: c.source,
        total_entries: c.total_entries,
        new_entries: c.new_entries,
        removed_entries: c.removed_entries,
        skipped_invalid: c.skipped_invalid,
        success: c.success != 0,
    }
}

// ---------------------------------------------------------------------------
// Retention
// ---------------------------------------------------------------------------

/// Days for which certificates and audit entries are kept by a routine clean-up.
pub const RETENTION_DAYS: u32 = 90;

/// What was noted at `at_ms` is kept for the given number of days: it is no older than that
/// at instant `now_ms`.
pub open spec fn is_retained(at_ms: int, now_ms: int, days: nat) -> bool {
    now_ms - at_ms <= days * MILLIS_PER_DAY
}

/// The time before which a clean-up at instant `now` deletes: exactly what is not retained.
pub fn retention_cutoff(now: &Timestamp, days: u32) -> (r: i64)
    ensures
        r == now.millis() - days * MILLIS_PER_DAY,
        forall|at_ms: int| #![auto] at_ms < r <==> !is_retained(at_ms, now.millis(), days as nat),
{
    let now_ms: i64 = now.timestamp_millis();
    now_ms - days as i64 * MILLIS_PER_DAY
}

/// The latest expiry of a certificate that expires within the given number of days of instant
/// `now`.
pub fn expiry_horizon(now: &Timestamp, days: i32) -> (r: i64)
    ensures
        r == now.millis() + days * MILLIS_PER_DAY,
        forall|at_ms: int| #![auto] at_ms <= r <==> expires_within(at_ms, now.millis(), days as int),
{
    let now_ms: i64 = now.timestamp_millis();
    now_ms + days as i64 * MILLIS_PER_DAY
}

/// What is older than the retention period is deleted, and what is not is kept; and a longer
/// period never deletes more.
pub proof fn longer_retention_keeps_more(at_ms: int, now_ms: int, days: nat, more_days: nat)
    requires
        days <= more_days,
        is_retained(at_ms, now_ms, days),
    ensures
        is_retained(at_ms, now_ms, more_days),
{
    assert(days * MILLIS_PER_DAY <= more_days * MILLIS_PER_DAY) by (nonlinear_arith)
        requires
            days <= more_days,
            MILLIS_PER_DAY == 86_400_000,
    ;
}

// ---------------------------------------------------------------------------
// Laws
// ---------------------------------------------------------------------------

/// Severities, actions and risk levels are stored under their own names, in lowercase.
pub proof fn names_in_the_database(severity: Severity, action: ActionType, level: RiskLevel)
    ensures
        severity is Low ==> severity_text(severity) == "low"@,
        severity is Medium ==> severity_text(severity) == "medium"@,
        severity is High ==> severity_text(severity) == "high"@,
        severity is Critical ==> severity_text(severity) == "critical"@,
        action is Alert ==> action_text(action) == "alert"@,
        action is Renew ==> action_text(action) == "renew"@,
        action is Protect ==> action_text(action) == "protect"@,
        action is Isolate ==> action_text(action) == "isolate"@,
        level is Low ==> risk_level_text(level) == "low"@,
        level is Medium ==> risk_level_text(level) == "medium"@,
        level is High ==> risk_level_text(level) == "high"@,
        level is Critical ==> risk_level_text(level) == "critical"@,
{
}

/// A name that is that of no risk level stands for the lowest.
pub proof fn unknown_risk_is_low(name: Seq<char>)
    ensures
        risk_level_named(name) is Medium <==> name == "medium"@,
        risk_level_named(name) is High <==> name == "high"@,
        risk_level_named(name) is Critical <==> name == "critical"@,
{
    reveal_strlit("medium");
    reveal_strlit("high");
    reveal_strlit("critical");
    assert("medium"@.len() == 6 && "high"@.len() == 4 && "critical"@.len() == 8);
}

/// A directive that waits is stored with its own identifiers and all that it says, as never
/// executed.
pub proof fn waiting_directive_is_stored_whole(row: ActionDirectiveRow, d: ActionDirective)
    requires
        is_pending_row(row, d),
    ensures
        row.id@ == hyphenated(d.id.bits),
        row.correlation_id@ == hyphenated(d.correlation_id.bits),
        row.cert_fingerprint == d.cert_fingerprint,
        row.action_type@ == action_text(d.action_type),
        row.severity@ == severity_text(d.severity),
        row.reasoning == Some(d.reasoning),
        row.status@ == "pending"@,
        row.attempt_count == 0,
        row.created_at * 1_000_000 <= d.created_at.at() < (row.created_at + 1) * 1_000_000,
        row.executed_at is None,
        row.expired_at is None,
        row.failure_reason is None,
{
    crate::time::millis_of_an_instant(d.created_at);
}

/// Every directive gets the same change, in order, under its own identifier.
pub proof fn every_directive_is_changed(
    rows: Seq<ActionDirectiveRow>,
    status: Seq<char>,
    reason: Option<Seq<char>>,
    i: int,
)
    requires
        0 <= i < rows.len(),
    ensures
        all_changed(rows, status, reason).len() == rows.len(),
        all_changed(rows, status, reason)[i].id == rows[i].id@,
        all_changed(rows, status, reason)[i].status == status,
        all_changed(rows, status, reason)[i].reason == reason,
{
}

/// Another observation is counted and moves the time of the last one; all else stays as it was.
pub proof fn observation_changes_nothing_else(c: CertificateColumns, last_seen: i64)
    requires
        c.connection_count < i64::MAX,
    ensures
        ({
            let r = touched(c, last_seen);
            &&& r.connection_count == c.connection_count + 1
            &&& r.last_seen == last_seen
            &&& r.first_seen == c.first_seen
            &&& r.fingerprint == c.fingerprint
            &&& r.subject == c.subject
            &&& r.issuer == c.issuer
            &&& r.serial_number == c.serial_number
            &&& r.not_before == c.not_before
            &&& r.not_after == c.not_after
            &&& r.sans == c.sans
            &&& r.key_algorithm == c.key_algorithm
            &&& r.key_size == c.key_size
            &&& r.chain_depth == c.chain_depth
            &&& r.issuer_fingerprint == c.issuer_fingerprint
            &&& r.source_ip == c.source_ip
            &&& r.destination_ip == c.destination_ip
            &&& r.sni_hostname == c.sni_hostname
            &&& r.completeness_flags == c.completeness_flags
        }),
{
}

/// Each column of a certificate holds the field of its name, times in whole milliseconds.
pub proof fn certificate_columns_by_name(c: CertificateColumns, cert: CertificateMetadata)
    requires
        holds_certificate(c, cert),
    ensures
        c.fingerprint@ == cert.fingerprint@,
        c.subject == cert.subject,
        c.issuer == cert.issuer,
        c.serial_number == cert.serial_number,
        c.not_before * 1_000_000 <= cert.not_before.at() < (c.not_before + 1) * 1_000_000,
        c.not_after * 1_000_000 <= cert.not_after.at() < (c.not_after + 1) * 1_000_000,
        c.sans matches Some(json) && json_strings(json@) == Some(views(cert.sans@)),
        c.key_algorithm == cert.key_algorithm,
        c.key_size == cert.key_size,
        c.chain_depth == cert.chain_depth,
        c.issuer_fingerprint is Some <==> cert.issuer_fingerprint is Some,
        c.issuer_fingerprint matches Some(blob) ==> blob@ == cert.issuer_fingerprint->0@,
        c.first_seen * 1_000_000 <= cert.first_seen.at() < (c.first_seen + 1) * 1_000_000,
        c.last_seen * 1_000_000 <= cert.last_seen.at() < (c.last_seen + 1) * 1_000_000,
        cert.connection_count <= i64::MAX ==> c.connection_count == cert.connection_count,
        c.source_ip == cert.source_ip,
        c.destination_ip == cert.destination_ip,
        c.sni_hostname == cert.sni_hostname,
        c.completeness_flags == cert.completeness_flags,
{
    crate::time::millis_of_an_instant(cert.not_before);
    crate::time::millis_of_an_instant(cert.not_after);
    crate::time::millis_of_an_instant(cert.first_seen);
    crate::time::millis_of_an_instant(cert.last_seen);
}

/// A certificate is read from columns whoever wrote them: damaged fingerprints are taken as
/// zeros or as missing, and names that cannot be read as none.
pub proof fn damaged_columns_do_not_fail(cert: CertificateMetadata, c: CertificateColumns)
    requires
        is_certificate_in(cert, c),
    ensures
        c.fingerprint@.len() == 32 ==> cert.fingerprint@ == c.fingerprint@,
        c.fingerprint@.len() != 32 ==> forall|i: int|
            0 <= i < 32 ==> #[trigger] cert.fingerprint@[i] == 0,
        c.issuer_fingerprint matches Some(blob) ==> (cert.issuer_fingerprint is Some
            <==> blob@.len() == 32),
        c.issuer_fingerprint is None ==> cert.issuer_fingerprint is None,
        c.sans is None ==> cert.sans@.len() == 0,
        c.sans matches Some(json) ==> (json_strings(json@) is None ==> cert.sans@.len() == 0),
        c.sans matches Some(json) ==> (json_strings(json@) matches Some(texts) ==> views(cert.sans@)
            == texts),
        cert.subject == c.subject,
        cert.issuer == c.issuer,
        cert.serial_number == c.serial_number,
        cert.not_before.at() == c.not_before * 1_000_000,
        cert.not_after.at() == c.not_after * 1_000_000,
        cert.first_seen.at() == c.first_seen * 1_000_000,
        cert.last_seen.at() == c.last_seen * 1_000_000,
        cert.key_algorithm == c.key_algorithm,
        cert.key_size == c.key_size,
        0 <= c.chain_depth < 256 ==> cert.chain_depth == c.chain_depth,
        c.connection_count >= 0 ==> cert.connection_count == c.connection_count,
        cert.source_ip == c.source_ip,
        cert.destination_ip == c.destination_ip,
        cert.sni_hostname == c.sni_hostname,
        0 <= c.completeness_flags < 0x1_0000_0000 ==> cert.completeness_flags
            == c.completeness_flags,
{
    assert(views(cert.sans@).len() == cert.sans@.len());
}

/// Each column of a shadow certificate holds the field of its name.
pub proof fn shadow_columns_by_name(c: ShadowColumns, row: ShadowCertificateRow)
    requires
        holds_shadow(c, row),
    ensures
        c.fingerprint@ == row.fingerprint@,
        c.risk_level@ == risk_level_text(row.risk_level),
        c.first_classified == row.first_classified,
        c.last_escalated == row.last_escalated,
        c.escalation_count == row.escalation_count,
        c.source_ip == row.source_ip,
        c.destination_ip == row.destination_ip,
        c.first_seen == row.first_seen,
        row.is_resolved ==> c.is_resolved == 1,
        !row.is_resolved ==> c.is_resolved == 0,
        c.resolved_at == row.resolved_at,
{
}

/// Each column of a directive holds the field of its name.
pub proof fn directive_columns_by_name(c: DirectiveColumns, row: ActionDirectiveRow)
    requires
        holds_directive(c, row),
    ensures
        c.id == row.id,
        c.correlation_id == row.correlation_id,
        c.cert_fingerprint@ == row.cert_fingerprint@,
        c.action_type == row.action_type,
        c.severity == row.severity,
        c.reasoning == row.reasoning,
        c.status == row.status,
        c.attempt_count == row.attempt_count,
        c.created_at == row.created_at,
        c.executed_at == row.executed_at,
        c.expired_at == row.expired_at,
        c.failure_reason == row.failure_reason,
{
}

/// Each column of a renewal prediction holds the field of its name.
pub proof fn prediction_columns_by_name(c: PredictionColumns, row: RenewalPredictionRow)
    requires
        holds_prediction(c, row),
    ensures
        c.cert_fingerprint@ == row.cert_fingerprint@,
        c.failure_probability == row.failure_probability,
        c.severity == row.severity,
        c.days_until_expiry == row.days_until_expiry,
        row.renewal_activity_detected ==> c.renewal_activity_detected == 1,
        !row.renewal_activity_detected ==> c.renewal_activity_detected == 0,
        c.reasoning == row.reasoning,
        c.last_evaluated == row.last_evaluated,
        c.created_at == row.created_at,
{
}

/// Each column of an audit entry holds the field of its name.
pub proof fn audit_columns_by_name(c: AuditColumns, row: AuditLogRow)
    requires
        holds_audit(c, row),
    ensures
        c.id == row.id,
        c.correlation_id == row.correlation_id,
        c.cert_fingerprint@ == row.cert_fingerprint@,
        c.stage == row.stage,
        c.timestamp == row.timestamp,
        c.details == row.details,
        c.created_at == row.created_at,
{
}

/// Each column of an import holds the field of its name.
pub proof fn refresh_columns_by_name(c: RefreshColumns, row: InventoryRefreshLogRow)
    requires
        holds_refresh(c, row),
    ensures
        c.id == row.id,
        c.timestamp == row.timestamp,
        c.source == row.source,
        c.total_entries == row.total_entries,
        c.new_entries == row.new_entries,
        c.removed_entries == row.removed_entries,
        c.skipped_invalid == row.skipped_invalid,
        row.success ==> c.success == 1,
        !row.success ==> c.success == 0,
{
}

/// Of a list of columns those of 32 bytes are fingerprints; they are picked in order.
pub proof fn fingerprints_are_picked_in_order(a: Seq<Vec<u8>>, b: Seq<Vec<u8>>, blob: Vec<u8>)
    ensures
        whole_blobs(a + b) == whole_blobs(a) + whole_blobs(b),
        blob@.len() == 32 ==> whole_blobs(seq![blob]) == seq![blob@],
        blob@.len() != 32 ==> whole_blobs(seq![blob]).len() == 0,
    decreases b.len(),
{
    assert(seq![blob].drop_last() =~= Seq::<Vec<u8>>::empty());
    reveal_with_fuel(whole_blobs, 2);
    assert(blob@.len() == 32 ==> whole_blobs(seq![blob]) =~= seq![blob@]);
    if b.len() == 0 {
        assert(a + b =~= a);
        assert(whole_blobs(a) + whole_blobs(b) =~= whole_blobs(a));
    } else {
        assert((a + b).drop_last() =~= a + b.drop_last());
        fingerprints_are_picked_in_order(a, b.drop_last(), blob);
        assert(whole_blobs(a + b) =~= whole_blobs(a) + whole_blobs(b));
    }
}

/// What is noted is kept for its number of days to the millisecond, and no longer.
pub proof fn kept_for_its_days(at_ms: int, now_ms: int, days: nat)
    ensures
        is_retained(at_ms, now_ms, days) <==> now_ms <= at_ms + days * (24 * 60 * 60 * 1000),
{
}

/// What ends at `at_ms` ends within the given number of days of `now_ms`, or has ended.
pub open spec fn expires_within(at_ms: int, now_ms: int, days: int) -> bool {
    at_ms - now_ms <= days * MILLIS_PER_DAY
}

/// A certificate is listed as expiring exactly where it has expired or at most that many days
/// are left, to the millisecond.
pub proof fn expiring_within_its_days(at_ms: int, now_ms: int, days: int)
    ensures
        expires_within(at_ms, now_ms, days) <==> at_ms <= now_ms + days * (24 * 60 * 60 * 1000),
        days >= 0 && at_ms <= now_ms ==> expires_within(at_ms, now_ms, days),
{
    if days >= 0 {
        assert(days * MILLIS_PER_DAY >= 0) by (nonlinear_arith)
            requires
                days >= 0,
                MILLIS_PER_DAY == 86_400_000,
        ;
    }
}

} // verus!
