//! Audit trail: its entries, and whether it can be written.
//!
//! Directives are processed only while the trail can be written: a failed write makes the
//! logger unhealthy until a write, of an entry or of a test entry, succeeds.

use vstd::prelude::*;
use crate::ids::{hyphenated, is_random_uuid, Uuid};
use crate::storage::AuditLogRow;
use crate::text::led_in;
use crate::time::Timestamp;
use crate::types::zero_fingerprint;

verus! {

/// The correlation identifier of a test entry.
pub const HEALTH_PROBE: &'static str = "__health_check__";

/// The stage of a test entry.
pub const HEALTH_STAGE: &'static str = "health_check";

/// The stage of a decision that an entry belongs to.
#[derive(Clone, Copy, Debug, PartialEq, Eq, Structural)]
pub enum AuditStage {
    Observation,
    Analysis,
    Action,
}

/// The name of a stage in the database.
pub open spec fn stage_text(stage: AuditStage) -> Seq<char> {
    match stage {
        AuditStage::Observation => "observation"@,
        AuditStage::Analysis => "analysis"@,
        AuditStage::Action => "action"@,
    }
}

impl AuditStage {
    /// The name of the stage in the database.
    pub fn name(&self) -> (r: &'static str)
        ensures
            r@ == stage_text(*self),
    {
        match self {
            AuditStage::Observation => "observation",
            AuditStage::Analysis => "analysis",
            AuditStage::Action => "action",
        }
    }
}

/// Why an entry was not written.
#[derive(Clone, Debug)]
pub enum AuditError {
    /// The database could not be written.
    Storage(String),
    /// The details could not be put into words.
    Serialization(String),
}

impl AuditError {
    /// The error in words.
    pub fn message(&self) -> (r: String)
        ensures
            r@ == (match self {
                AuditError::Storage(text) => "Audit storage error: "@ + text@,
                AuditError::Serialization(text) => "Audit serialization error: "@ + text@,
            }),
    {
        match self {
            AuditError::Storage(text) => led_in("Audit storage error: ", text.as_str()),
            AuditError::Serialization(text) => led_in("Audit serialization error: ", text.as_str()),
        }
    }
}

/// The row is the entry of one stage, made at instant `now`.
pub open spec fn is_audit_entry(
    row: AuditLogRow,
    correlation_id: Uuid,
    fingerprint: Seq<u8>,
    stage: AuditStage,
    details: Seq<char>,
    now: Timestamp,
) -> bool {
    &&& row.id == 0
    &&& row.correlation_id@ == hyphenated(correlation_id.bits)
    &&& row.cert_fingerprint@ == fingerprint
    &&& row.stage@ == stage_text(stage)
    &&& row.timestamp == now.millis()
    &&& row.details@ == details
    &&& row.created_at == now.millis()
}

/// The entries of two stages of one decision can be found together, and those of different
/// decisions are told apart: they name the same decision exactly where they were made for
/// the same one.
pub proof fn entries_are_linked(
    a: AuditLogRow,
    b: AuditLogRow,
    id_a: Uuid,
    id_b: Uuid,
    fp_a: Seq<u8>,
    fp_b: Seq<u8>,
    stage_a: AuditStage,
    stage_b: AuditStage,
    details_a: Seq<char>,
    details_b: Seq<char>,
    now_a: Timestamp,
    now_b: Timestamp,
)
    requires
        is_audit_entry(a, id_a, fp_a, stage_a, details_a, now_a),
        is_audit_entry(b, id_b, fp_b, stage_b, details_b, now_b),
    ensures
        a.correlation_id@ == b.correlation_id@ <==> id_a == id_b,
        a.stage@ == b.stage@ <==> stage_a == stage_b,
{
    if hyphenated(id_a.bits) == hyphenated(id_b.bits) {
        crate::ids::distinct_ids_have_distinct_texts(id_a, id_b);
    }
    reveal_strlit("observation");
    reveal_strlit("analysis");
    reveal_strlit("action");
    assert("observation"@.len() == 11 && "analysis"@.len() == 8 && "action"@.len() == 6);
}

/// The row is the test entry made at instant `now`: it belongs to no certificate and to no
/// stage of a decision.
pub open spec fn is_probe_entry(row: AuditLogRow, now: Timestamp) -> bool {
    &&& row.id == 0
    &&& row.correlation_id@ == HEALTH_PROBE@
    &&& row.cert_fingerprint@ == zero_fingerprint()
    &&& row.stage@ == HEALTH_STAGE@
    &&& row.timestamp == now.millis()
    &&& row.details@ == ""@
    &&& row.created_at == now.millis()
}

/// A test entry is never found among the entries of a decision.
pub proof fn probe_is_in_no_decision(
    probe: AuditLogRow,
    entry: AuditLogRow,
    correlation_id: Uuid,
    fingerprint: Seq<u8>,
    stage: AuditStage,
    details: Seq<char>,
    probed: Timestamp,
    made: Timestamp,
)
    requires
        is_probe_entry(probe, probed),
        is_audit_entry(entry, correlation_id, fingerprint, stage, details, made),
    ensures
        probe.correlation_id@ != entry.correlation_id@,
        probe.stage@ != entry.stage@,
{
    reveal_strlit("__health_check__");
    reveal_strlit("health_check");
    reveal_strlit("observation");
    reveal_strlit("analysis");
    reveal_strlit("action");
    assert(HEALTH_PROBE@.len() == 16 && HEALTH_STAGE@.len() == 12);
    assert("observation"@.len() == 11 && "analysis"@.len() == 8 && "action"@.len() == 6);
}

/// Makes entries and keeps track of whether they can be written.
#[derive(Clone, Copy, Debug, PartialEq, Eq, Structural)]
pub struct AuditLogger {
    pub healthy: bool,
}

/// The health after a sequence of writes, each of which succeeded or not: that of the last.
pub open spec fn health_after(healthy: bool, writes: Seq<bool>) -> bool {
    if writes.len() == 0 {
        healthy
    } else {
        writes.last()
    }
}

/// One write more makes the health that of this write, whatever came before.
pub proof fn health_is_that_of_last_write(healthy: bool, writes: Seq<bool>, ok: bool)
    ensures
        health_after(healthy, writes.push(ok)) == ok,
        health_after(healthy, writes.push(ok)) == health_after(
            health_after(healthy, writes),
            seq![ok],
        ),
{
}

impl AuditLogger {
    /// A healthy logger.
    pub fn new() -> (r: Self)
        ensures
            r.healthy,
    {
        AuditLogger { healthy: true }
    }

    /// Whether the last write succeeded. While it did not, directives are not processed.
    pub fn is_healthy(&self) -> (r: bool)
        ensures
            r == self.healthy,
    {
        self.healthy
    }

    /// A new identifier for a decision.
    pub fn new_correlation_id() -> (r: Uuid)
        ensures
            is_random_uuid(r.bits),
    {
        Uuid::new_v4()
    }

    /// The entry of one stage of a decision at a given instant. The database numbers it.
    pub fn entry_at(
        correlation_id: Uuid,
        fingerprint: &[u8; 32],
        stage: AuditStage,
        details: &str,
        now: &Timestamp,
    ) -> (r: AuditLogRow)
        ensures
            is_audit_entry(r, correlation_id, fingerprint@, stage, details@, *now),
    {
        AuditLogRow {
            id: 0,
            correlation_id: correlation_id.to_text(),
            cert_fingerprint: *fingerprint,
            stage: String::from_str(stage.name()),
            timestamp: now.timestamp_millis(),
            details: String::from_str(details),
            created_at: now.timestamp_millis(),
        }
    }

    /// The entry of the observation of a certificate, with which a decision begins.
    pub fn log_observation(correlation_id: Uuid, fingerprint: &[u8; 32], details: &str) -> (r: AuditLogRow)
        ensures
            exists|now: Timestamp| #[trigger]
                is_audit_entry(
                    r,
                    correlation_id,
                    fingerprint@,
                    AuditStage::Observation,
                    details@,
                    now,
                ),
    {
        let now = Timestamp::now();
        AuditLogger::entry_at(correlation_id, fingerprint, AuditStage::Observation, details, &now)
    }

    /// The entry of what the analyzer made of a certificate.
    pub fn log_analysis(correlation_id: Uuid, fingerprint: &[u8; 32], details: &str) -> (r: AuditLogRow)
        ensures
            exists|now: Timestamp| #[trigger]
                is_audit_entry(
                    r,
                    correlation_id,
                    fingerprint@,
                    AuditStage::Analysis,
                    details@,
                    now,
                ),
    {
        let now = Timestamp::now();
        AuditLogger::entry_at(correlation_id, fingerprint, AuditStage::Analysis, details, &now)
    }

    /// The entry of what was done about a certificate.
    pub fn log_action(correlation_id: Uuid, fingerprint: &[u8; 32], details: &str) -> (r: AuditLogRow)
        ensures
            exists|now: Timestamp| #[trigger]
                is_audit_entry(
                    r,
                    correlation_id,
                    fingerprint@,
                    AuditStage::Action,
                    details@,
                    now,
                ),
    {
        let now = Timestamp::now();
        AuditLogger::entry_at(correlation_id, fingerprint, AuditStage::Action, details, &now)
    }

    /// Takes the outcome of a write: the logger is healthy exactly where it succeeded.
    pub fn record_write(&mut self, outcome: Result<(), String>) -> (r: Result<(), AuditError>)
        ensures
            final(self).healthy == (outcome is Ok),
            final(self).healthy == health_after(old(self).healthy, seq![outcome is Ok]),
            match (outcome, r) {
                (Ok(_), Ok(_)) => true,
                (Err(text), Err(AuditError::Storage(kept))) => kept == text,
                _ => false,
            },
    {
        match outcome {
            Ok(()) => {
                self.healthy = true;
                Ok(())
            },
            Err(text) => {
                self.healthy = false;
                Err(AuditError::Storage(text))
            },
        }
    }

    /// The test entry that is written, at a given instant, to find out whether the trail can be
    /// written again.
    pub fn probe_entry_at(now: &Timestamp) -> (r: AuditLogRow)
        ensures
            is_probe_entry(r, *now),
    {
        let row = AuditLogRow {
            id: 0,
            correlation_id: String::from_str(HEALTH_PROBE),
            cert_fingerprint: [0; 32],
            stage: String::from_str(HEALTH_STAGE),
            timestamp: now.timestamp_millis(),
            details: String::from_str(""),
            created_at: now.timestamp_millis(),
        };
        assert(row.cert_fingerprint@ =~= zero_fingerprint());
        row
    }

    /// Takes the outcome of the write of a test entry: a success makes the logger healthy, a
    /// failure leaves it as it is. Says whether the write succeeded.
    pub fn try_restore_health(&mut self, written: bool) -> (r: bool)
        ensures
            r == written,
            final(self).healthy == (old(self).healthy || written),
            final(self).healthy == restored(old(self).healthy, written),
    {
        if written {
            self.healthy = true;
        }
        written
    }
}

/// An entry tells the decision, the certificate, the stage under its name, the details and the
/// instant, twice.
pub proof fn entry_tells_its_stage(
    row: AuditLogRow,
    correlation_id: Uuid,
    fingerprint: Seq<u8>,
    stage: AuditStage,
    details: Seq<char>,
    now: Timestamp,
)
    requires
        is_audit_entry(row, correlation_id, fingerprint, stage, details, now),
    ensures
        row.id == 0,
        row.correlation_id@ == hyphenated(correlation_id.bits),
        row.cert_fingerprint@ == fingerprint,
        stage is Observation ==> row.stage@ == "observation"@,
        stage is Analysis ==> row.stage@ == "analysis"@,
        stage is Action ==> row.stage@ == "action"@,
        row.details@ == details,
        row.timestamp * 1_000_000 <= now.at() < (row.timestamp + 1) * 1_000_000,
        row.created_at == row.timestamp,
{
    crate::time::millis_of_an_instant(now);
}

/// The health is that of the last write, and without any write as it was.
pub proof fn health_follows_the_last_write(healthy: bool, writes: Seq<bool>)
    ensures
        writes.len() == 0 ==> health_after(healthy, writes) == healthy,
        writes.len() > 0 ==> health_after(healthy, writes) == writes[writes.len() - 1],
{
}

/// A test entry says of itself that it is one, and when it was made.
pub proof fn probe_says_what_it_is(row: AuditLogRow, now: Timestamp)
    requires
        is_probe_entry(row, now),
    ensures
        row.id == 0,
        row.correlation_id@ == "__health_check__"@,
        forall|i: int| 0 <= i < 32 ==> #[trigger] row.cert_fingerprint@[i] == 0,
        row.stage@ == "health_check"@,
        row.details@ == ""@,
        row.timestamp * 1_000_000 <= now.at() < (row.timestamp + 1) * 1_000_000,
        row.created_at == row.timestamp,
{
    crate::time::millis_of_an_instant(now);
}

/// The health after the write of a test entry.
pub open spec fn restored(healthy: bool, written: bool) -> bool {
    healthy || written
}

/// Health that was lost comes back with a test entry that was written, and only so.
pub proof fn health_comes_back_with_a_write(healthy: bool, writes: Seq<bool>, written: bool)
    ensures
        writes.len() > 0 && !writes.last() ==> (restored(health_after(healthy, writes), written)
            <==> written),
        restored(true, written),
{
}

} // verus!
