//! Escalation of shadow certificates that nobody takes care of.
//!
//! The risk of an unresolved shadow certificate rises by one tier every 24 hours. Where it
//! becomes critical, a critical alert takes the place of the directives that still wait.

use vstd::prelude::*;
use crate::ids::{is_random_uuid, Uuid};
use crate::storage::{
    all_changed, change_views, clone_shadow_row, lemma_one_more_changed, ActionDirectiveRow,
    ShadowCertificateRow, StatusChange, StatusChangeView,
};
use crate::text::{decimal_len_bound, push_signed, signed_decimal, MAX_REASONING};
use crate::time::Timestamp;
use crate::types::{
    escalated, risk_rank, ActionDirective, ActionType, DirectiveContent, RiskLevel, Severity,
};

verus! {

/// Milliseconds between two escalations.
pub const ESCALATION_INTERVAL_MS: i64 = 86_400_000;

/// One escalation to carry out.
#[derive(Clone, Debug)]
pub struct Escalation {
    /// The row with its new risk.
    pub updated: ShadowCertificateRow,
    /// The alert, where the risk became critical.
    pub directive: Option<ActionDirective>,
}

/// The instant from which the interval is counted: the last escalation, or else the first
/// classification.
pub open spec fn reference_time(row: ShadowCertificateRow) -> i64 {
    match row.last_escalated {
        Some(t) => t,
        None => row.first_classified,
    }
}

/// The row is to be escalated: it is not resolved, the interval has passed, and there is a
/// higher risk.
pub open spec fn is_stale(row: ShadowCertificateRow, now_ms: int) -> bool {
    &&& !row.is_resolved
    &&& now_ms - reference_time(row) >= ESCALATION_INTERVAL_MS
    &&& !(row.risk_level is Critical)
}

/// The row after its escalation.
pub open spec fn escalated_row(row: ShadowCertificateRow, now_ms: i64) -> ShadowCertificateRow {
    ShadowCertificateRow {
        risk_level: escalated(row.risk_level),
        last_escalated: Some(now_ms),
        escalation_count: (row.escalation_count + 1) as i32,
        ..row
    }
}

/// The row after a pass at instant `now_ms`.
pub open spec fn after_pass(row: ShadowCertificateRow, now_ms: i64) -> ShadowCertificateRow {
    if is_stale(row, now_ms as int) {
        escalated_row(row, now_ms)
    } else {
        row
    }
}

/// The alert about a certificate that became critical.
pub open spec fn critical_alert(row: ShadowCertificateRow, now: Timestamp) -> DirectiveContent {
    DirectiveContent {
        cert_fingerprint: row.fingerprint@,
        action_type: ActionType::Alert,
        severity: Severity::Critical,
        reasoning: "Shadow certificate escalated to critical after "@ + signed_decimal(
            row.escalation_count as int,
        )
            + " escalation(s). Unresolved shadow certificate requires immediate attention."@,
        created_at: now,
        source_anomaly: None,
        attempt_count: 0,
    }
}

/// The stale rows, in order.
pub open spec fn stale_rows(rows: Seq<ShadowCertificateRow>, now_ms: int) -> Seq<
    ShadowCertificateRow,
>
    decreases rows.len(),
{
    if rows.len() == 0 {
        Seq::empty()
    } else {
        let before = stale_rows(rows.drop_last(), now_ms);
        if is_stale(rows.last(), now_ms) {
            before.push(rows.last())
        } else {
            before
        }
    }
}

/// The escalation is that of the row at instant `now`: the next higher risk, and an alert
/// exactly where that is critical.
pub open spec fn is_escalation(e: Escalation, row: ShadowCertificateRow, now: Timestamp) -> bool {
    &&& e.updated == escalated_row(row, now.millis() as i64)
    &&& e.directive is Some <==> e.updated.risk_level is Critical
    &&& e.directive matches Some(d) ==> d.content() == critical_alert(e.updated, now)
        && is_random_uuid(d.id.bits) && is_random_uuid(d.correlation_id.bits)
}

/// The reasoning of an alert is within the bound on a reasoning's length.
pub proof fn escalation_reasoning_is_short(row: ShadowCertificateRow, now: Timestamp)
    ensures
        critical_alert(row, now).reasoning.len() <= MAX_REASONING,
{
    reveal_strlit("Shadow certificate escalated to critical after ");
    reveal_strlit(
        " escalation(s). Unresolved shadow certificate requires immediate attention.",
    );
    let count = row.escalation_count as int;
    let size: nat = if count < 0 {
        (-count) as nat
    } else {
        count as nat
    };
    assert(size < vstd::arithmetic::power::pow(10, 20)) by {
        reveal(vstd::arithmetic::power::pow);
        reveal_with_fuel(vstd::arithmetic::power::pow, 11);
        vstd::arithmetic::power::lemma_pow_increases(10, 10, 20);
        assert(vstd::arithmetic::power::pow(10, 10) == 10_000_000_000);
    }
    decimal_len_bound(size, 20);
}

/// Within 24 hours of an escalation nothing more happens; a pass after 24 hours raises the
/// risk by one tier, up to critical, where it stays.
pub proof fn one_tier_per_interval(row: ShadowCertificateRow, first: i64, second: i64)
    requires
        is_stale(row, first as int),
        row.escalation_count < i32::MAX - 1,
        first <= second,
    ensures
        risk_rank(after_pass(row, first).risk_level) == risk_rank(row.risk_level) + 1,
        second - first < ESCALATION_INTERVAL_MS ==> after_pass(after_pass(row, first), second)
            == after_pass(row, first),
        second - first >= ESCALATION_INTERVAL_MS ==> risk_rank(
            after_pass(after_pass(row, first), second).risk_level,
        ) == if risk_rank(row.risk_level) + 2 <= 3 {
            risk_rank(row.risk_level) + 2
        } else {
            3
        },
{
}

/// The risk after passes at the given instants, one after the other.
pub open spec fn after_passes(row: ShadowCertificateRow, times: Seq<i64>) -> ShadowCertificateRow
    decreases times.len(),
{
    if times.len() == 0 {
        row
    } else {
        after_pass(after_passes(row, times.drop_last()), times.last())
    }
}

/// No sequence of passes lowers the risk, changes the certificate or resolves it.
pub proof fn passes_never_lower_risk(row: ShadowCertificateRow, times: Seq<i64>)
    ensures
        risk_rank(after_passes(row, times).risk_level) >= risk_rank(row.risk_level),
        after_passes(row, times).fingerprint == row.fingerprint,
        after_passes(row, times).is_resolved == row.is_resolved,
        after_passes(row, times).first_classified == row.first_classified,
    decreases times.len(),
{
    if times.len() > 0 {
        passes_never_lower_risk(row, times.drop_last());
    }
}

/// Passes 24 hours apart, the first 24 hours after the reference time, raise the risk by one
/// tier each until it is critical.
pub proof fn passes_reach_critical(row: ShadowCertificateRow, times: Seq<i64>)
    requires
        forall|i: int|
            0 <= i < times.len() ==> (#[trigger] times[i]) >= reference_time(row)
                + ESCALATION_INTERVAL_MS * (i + 1),
        forall|i: int, j: int|
            0 <= i < j < times.len() ==> (#[trigger] times[j]) - (#[trigger] times[i])
                >= ESCALATION_INTERVAL_MS,
        0 <= row.escalation_count <= i32::MAX - times.len(),
        !row.is_resolved,
    ensures
        !after_passes(row, times).is_resolved,
        risk_rank(after_passes(row, times).risk_level) == if risk_rank(row.risk_level) + times.len()
            <= 3 {
            risk_rank(row.risk_level) + times.len()
        } else {
            3
        },
        times.len() == 0 ==> reference_time(after_passes(row, times)) == reference_time(row),
        times.len() > 0 ==> reference_time(after_passes(row, times)) <= times.last() || reference_time(
            after_passes(row, times),
        ) == reference_time(row),
    decreases times.len(),
{
    if times.len() > 0 {
        let earlier = times.drop_last();
        let last = times.last();
        assert forall|i: int| 0 <= i < earlier.len() implies (#[trigger] earlier[i])
            >= reference_time(row) + ESCALATION_INTERVAL_MS * (i + 1) by {
            assert(earlier[i] == times[i]);
        }
        assert forall|i: int, j: int| 0 <= i < j < earlier.len() implies (#[trigger] earlier[j]) - (
        #[trigger] earlier[i]) >= ESCALATION_INTERVAL_MS by {
            assert(earlier[i] == times[i] && earlier[j] == times[j]);
        }
        passes_reach_critical(row, earlier);
        let n = times.len() - 1;
        assert(last == times[n as int]);
        assert(times[n as int] >= reference_time(row) + ESCALATION_INTERVAL_MS * (n + 1));
        assert(ESCALATION_INTERVAL_MS * (n + 1) >= ESCALATION_INTERVAL_MS) by (nonlinear_arith)
            requires
                n >= 0,
                ESCALATION_INTERVAL_MS == 86_400_000,
        ;
        if n > 0 {
            assert(earlier.last() == times[n - 1]);
            assert(times[n as int] - times[n - 1] >= ESCALATION_INTERVAL_MS);
        }
        assert(last - reference_time(after_passes(row, earlier)) >= ESCALATION_INTERVAL_MS);
    }
}

/// The escalations to carry out among the unresolved shadow certificates at instant `now`:
/// one for each stale row, in order.
pub fn escalate_stale_shadows(unresolved: &Vec<ShadowCertificateRow>, now: &Timestamp) -> (r: Vec<
    Escalation,
>)
    requires
        forall|i: int|
            0 <= i < unresolved.len() && is_stale(#[trigger] unresolved@[i], now.millis())
                ==> unresolved@[i].escalation_count < i32::MAX,
    ensures
        r.len() == stale_rows(unresolved@, now.millis()).len(),
        forall|i: int|
            0 <= i < r.len() ==> is_escalation(
                #[trigger] r@[i],
                stale_rows(unresolved@, now.millis())[i],
                *now,
            ),
{
    let now_ms: i64 = now.timestamp_millis();
    let mut out: Vec<Escalation> = Vec::new();
    let mut i: usize = 0;
    while i < unresolved.len()
        invariant
            i <= unresolved.len(),
            now_ms == now.millis(),
            forall|j: int|
                0 <= j < unresolved.len() && is_stale(#[trigger] unresolved@[j], now.millis())
                    ==> unresolved@[j].escalation_count < i32::MAX,
            out.len() == stale_rows(unresolved@.take(i as int), now.millis()).len(),
            forall|j: int|
                0 <= j < out.len() ==> is_escalation(
                    #[trigger] out@[j],
                    stale_rows(unresolved@.take(i as int), now.millis())[j],
                    *now,
                ),
        decreases unresolved.len() - i,
    {
        assert(unresolved@.take(i + 1).drop_last() =~= unresolved@.take(i as int));
        let shadow = &unresolved[i];
        let reference: i64 = match shadow.last_escalated {
            Some(t) => t,
            None => shadow.first_classified,
        };
        let elapsed: i128 = now_ms as i128 - reference as i128;
        if !shadow.is_resolved && elapsed >= ESCALATION_INTERVAL_MS as i128 && shadow.risk_level
            != RiskLevel::Critical {
            assert(is_stale(unresolved@[i as int], now.millis()));
            out.push(escalate_row(shadow, now));
        }
        i += 1;
    }
    assert(unresolved@.take(i as int) =~= unresolved@);
    out
}

/// The escalation of one row.
fn escalate_row(shadow: &ShadowCertificateRow, now: &Timestamp) -> (r: Escalation)
    requires
        shadow.escalation_count < i32::MAX,
    ensures
        is_escalation(r, *shadow, *now),
{
    let mut updated = clone_shadow_row(shadow);
    updated.risk_level = shadow.risk_level.escalate();
    updated.last_escalated = Some(now.timestamp_millis());
    updated.escalation_count = shadow.escalation_count + 1;
    let directive = if updated.risk_level == RiskLevel::Critical {
        let mut reasoning = String::from_str("Shadow certificate escalated to critical after ");
        push_signed(&mut reasoning, updated.escalation_count as i64);
        reasoning.append(
            " escalation(s). Unresolved shadow certificate requires immediate attention.",
        );
        Some(
            ActionDirective {
                id: Uuid::new_v4(),
                correlation_id: Uuid::new_v4(),
                cert_fingerprint: updated.fingerprint,
                action_type: ActionType::Alert,
                severity: Severity::Critical,
                reasoning,
                created_at: *now,
                source_anomaly: None,
                attempt_count: 0,
            },
        )
    } else {
        None
    };
    Escalation { updated, directive }
}

/// The changes that mark the directives which still wait as replaced.
pub fn replace_prior_directives(pending: &Vec<ActionDirectiveRow>) -> (r: Vec<StatusChange>)
    ensures
        change_views(r@) == all_changed(pending@, "replaced"@, None),
{
    let mut out: Vec<StatusChange> = Vec::new();
    let mut i: usize = 0;
    assert(change_views(out@) =~= Seq::<StatusChangeView>::empty() + all_changed(
        pending@.take(0),
        "replaced"@,
        None,
    ));
    while i < pending.len()
        invariant
            i <= pending.len(),
            change_views(out@) == Seq::<StatusChangeView>::empty() + all_changed(
                pending@.take(i as int),
                "replaced"@,
                None,
            ),
        decreases pending.len() - i,
    {
        let change = StatusChange {
            id: pending[i].id.clone(),
            status: String::from_str("replaced"),
            reason: None,
        };
        proof {
            lemma_one_more_changed(
                Seq::empty(),
                out@,
                change,
                pending@,
                i as int,
                "replaced"@,
                None,
            );
        }
        out.push(change);
        i += 1;
    }
    assert(pending@.take(i as int) =~= pending@);
    assert(change_views(out@) =~= all_changed(pending@, "replaced"@, None));
    out
}

// ---------------------------------------------------------------------------
// Laws
// ---------------------------------------------------------------------------

/// A shadow certificate is escalated exactly where it is unresolved and not critical, and 24
/// hours have passed since its last escalation or, before the first one, since it was
/// classified.
pub proof fn escalated_after_a_day(row: ShadowCertificateRow, now_ms: int)
    ensures
        row.last_escalated matches Some(t) ==> (is_stale(row, now_ms) <==> !row.is_resolved && !(
        row.risk_level is Critical) && now_ms - t >= 24 * 60 * 60 * 1000),
        row.last_escalated is None ==> (is_stale(row, now_ms) <==> !row.is_resolved && !(
        row.risk_level is Critical) && now_ms - row.first_classified >= 24 * 60 * 60 * 1000),
{
}

/// An escalation raises the risk by one tier, is counted and noted, and changes nothing else.
pub proof fn escalation_changes_only_the_risk(row: ShadowCertificateRow, now_ms: i64)
    requires
        row.escalation_count < i32::MAX,
    ensures
        ({
            let r = escalated_row(row, now_ms);
            &&& row.risk_level is Low ==> r.risk_level is Medium
            &&& row.risk_level is Medium ==> r.risk_level is High
            &&& row.risk_level is High ==> r.risk_level is Critical
            &&& r.last_escalated == Some(now_ms)
            &&& r.escalation_count == row.escalation_count + 1
            &&& r.fingerprint == row.fingerprint
            &&& r.first_classified == row.first_classified
            &&& r.source_ip == row.source_ip
            &&& r.destination_ip == row.destination_ip
            &&& r.first_seen == row.first_seen
            &&& r.is_resolved == row.is_resolved
            &&& r.resolved_at == row.resolved_at
        }),
{
}

/// The rows to escalate are picked in order.
pub proof fn stale_rows_are_picked_in_order(rows: Seq<ShadowCertificateRow>, now_ms: int)
    ensures
        stale_rows(rows, now_ms) == rows.filter(
            |row: ShadowCertificateRow|
                {
                    let since = match row.last_escalated {
                        Some(t) => t,
                        None => row.first_classified,
                    };
                    !row.is_resolved && !(row.risk_level is Critical) && now_ms - since
                        >= 86_400_000
                },
        ),
    decreases rows.len(),
{
    reveal(Seq::filter);
    if rows.len() > 0 {
        stale_rows_are_picked_in_order(rows.drop_last(), now_ms);
    } else {
        assert(stale_rows(rows, now_ms) =~= rows);
    }
}

/// A certificate that was of high risk becomes critical and is alerted as such, with the number
/// of its escalations; one of lower risk is not alerted.
pub proof fn only_critical_shadows_are_alerted(
    e: Escalation,
    row: ShadowCertificateRow,
    now: Timestamp,
)
    requires
        is_escalation(e, row, now),
        !(row.risk_level is Critical),
        row.escalation_count < i32::MAX,
    ensures
        e.directive is Some <==> row.risk_level is High,
        e.directive matches Some(d) ==> {
            &&& d.cert_fingerprint@ == row.fingerprint@
            &&& d.action_type is Alert
            &&& d.severity is Critical
            &&& d.created_at == now
            &&& d.source_anomaly is None
            &&& d.attempt_count == 0
            &&& d.reasoning@ == "Shadow certificate escalated to critical after "@ + signed_decimal(
                row.escalation_count + 1,
            )
                + " escalation(s). Unresolved shadow certificate requires immediate attention."@
        },
{
    match e.directive {
        Some(d) => {
            assert(d.content().cert_fingerprint == d.cert_fingerprint@);
            assert(d.content().reasoning == d.reasoning@);
            assert(d.content().source_anomaly is None);
        },
        None => {},
    }
}

} // verus!
