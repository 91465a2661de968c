//! Reconciliation of shadow certificates with a new state of the inventory.
//!
//! A shadow certificate that is now in the inventory is resolved, and its waiting
//! directives are given up. A certificate that left the inventory but is still observed
//! becomes a shadow certificate, again where it was one that had been resolved.

use vstd::prelude::*;
use crate::storage::{
    all_changed, change_views, clone_shadow_row, lemma_one_more_changed, same_fingerprint,
    ActionDirectiveRow, ShadowCertificateRow, StatusChange, StatusChangeView,
};
use crate::text::clone_text;
use crate::time::Timestamp;
use crate::types::{CertificateMetadata, RiskLevel};

verus! {

/// Milliseconds for which a certificate counts as observed.
pub const TRAFFIC_WINDOW_MS: i64 = 86_400_000;

/// Why the directives of a resolved certificate are given up.
pub const RESOLVED_REASON: &'static str = "Certificate appeared in inventory; shadow resolved";

/// Summary of a reconciliation.
#[derive(Clone, Copy, Debug, PartialEq, Eq, Structural)]
pub struct ReconciliationResult {
    /// Shadow certificates resolved.
    pub shadows_resolved: u32,
    /// Directives given up.
    pub directives_cancelled: u32,
    /// Certificates that became shadow certificates.
    pub new_shadows_from_removal: u32,
}

impl Default for ReconciliationResult {
    fn default() -> (r: Self)
        ensures
            r == (ReconciliationResult {
                shadows_resolved: 0,
                directives_cancelled: 0,
                new_shadows_from_removal: 0,
            }),
    {
        ReconciliationResult {
            shadows_resolved: 0,
            directives_cancelled: 0,
            new_shadows_from_removal: 0,
        }
    }
}

/// Why a reconciliation failed.
#[derive(Clone, Debug)]
pub enum ReconciliationError {
    /// The database could not be read or written.
    Storage(String),
}

/// An unresolved shadow certificate, and what the database says of it.
#[derive(Clone, Debug)]
pub struct ShadowState {
    pub row: ShadowCertificateRow,
    /// Whether the certificate is in the inventory.
    pub in_inventory: bool,
    /// Its directives that still wait.
    pub pending: Vec<ActionDirectiveRow>,
}

/// A certificate that left the inventory, and what the database says of it.
#[derive(Clone, Debug)]
pub struct RemovedEntry {
    pub fingerprint: [u8; 32],
    /// What is known of the certificate, where it was ever observed.
    pub certificate: Option<CertificateMetadata>,
    /// The row of a shadow certificate that the database holds for it, resolved or not.
    pub shadow: Option<ShadowCertificateRow>,
}

/// What a reconciliation writes.
#[derive(Clone, Debug)]
pub struct ReconciliationPlan {
    /// Rows of resolved shadow certificates.
    pub resolved: Vec<ShadowCertificateRow>,
    /// Directives to give up.
    pub cancelled: Vec<StatusChange>,
    /// Rows of new shadow certificates, each in place of a resolved row where there is one.
    pub new_shadows: Vec<ShadowCertificateRow>,
    pub result: ReconciliationResult,
}

/// The row of a shadow certificate once it is resolved.
pub open spec fn resolved_row(row: ShadowCertificateRow, now_ms: i64) -> ShadowCertificateRow {
    ShadowCertificateRow { is_resolved: true, resolved_at: Some(now_ms), ..row }
}

/// The rows of the shadow certificates that are in the inventory, resolved, in order.
pub open spec fn resolved_rows(shadows: Seq<ShadowState>, now_ms: i64) -> Seq<ShadowCertificateRow>
    decreases shadows.len(),
{
    if shadows.len() == 0 {
        Seq::empty()
    } else {
        let before = resolved_rows(shadows.drop_last(), now_ms);
        if shadows.last().in_inventory {
            before.push(resolved_row(shadows.last().row, now_ms))
        } else {
            before
        }
    }
}

/// The changes that give up the waiting directives of the resolved certificates, in order.
pub open spec fn cancellations(shadows: Seq<ShadowState>) -> Seq<StatusChangeView>
    decreases shadows.len(),
{
    if shadows.len() == 0 {
        Seq::empty()
    } else {
        let before = cancellations(shadows.drop_last());
        if shadows.last().in_inventory {
            before + all_changed(shadows.last().pending@, "expired"@, Some(RESOLVED_REASON@))
        } else {
            before
        }
    }
}

/// The certificate is a shadow certificate that nobody has resolved.
pub open spec fn is_open_shadow(entry: RemovedEntry) -> bool {
    entry.shadow matches Some(row) && !row.is_resolved
}

/// A certificate that left the inventory was observed within the last 24 hours and is not
/// an unresolved shadow certificate already.
pub open spec fn becomes_shadow(entry: RemovedEntry, now_ms: int) -> bool {
    &&& !is_open_shadow(entry)
    &&& entry.certificate matches Some(cert) && cert.last_seen.millis() >= now_ms
        - TRAFFIC_WINDOW_MS
}

/// The row of a new shadow certificate.
pub open spec fn is_new_shadow(row: ShadowCertificateRow, entry: RemovedEntry, now_ms: i64) -> bool {
    let cert = entry.certificate->0;
    &&& row.fingerprint == entry.fingerprint
    &&& row.risk_level is Low
    &&& row.first_classified == now_ms
    &&& row.last_escalated is None
    &&& row.escalation_count == 0
    &&& row.source_ip == cert.source_ip
    &&& row.destination_ip == cert.destination_ip
    &&& row.first_seen == cert.first_seen.millis()
    &&& !row.is_resolved
    &&& row.resolved_at is None
}

/// Some entry has the given fingerprint.
pub open spec fn has_fingerprint(entries: Seq<RemovedEntry>, fp: Seq<u8>) -> bool {
    exists|i: int| 0 <= i < entries.len() && (#[trigger] entries[i]).fingerprint@ == fp
}

/// The entries that become shadow certificates, in order and each fingerprint once.
pub open spec fn reclassified(entries: Seq<RemovedEntry>, now_ms: int) -> Seq<RemovedEntry>
    decreases entries.len(),
{
    if entries.len() == 0 {
        Seq::empty()
    } else {
        let before = reclassified(entries.drop_last(), now_ms);
        if becomes_shadow(entries.last(), now_ms) && !has_fingerprint(
            before,
            entries.last().fingerprint@,
        ) {
            before.push(entries.last())
        } else {
            before
        }
    }
}

/// Every shadow certificate that is in the inventory is resolved, and every one of its
/// waiting directives is given up.
pub proof fn known_shadow_is_resolved(shadows: Seq<ShadowState>, now_ms: i64, i: int)
    requires
        0 <= i < shadows.len(),
        shadows[i].in_inventory,
    ensures
        resolved_rows(shadows, now_ms).contains(resolved_row(shadows[i].row, now_ms)),
        forall|k: int|
            0 <= k < shadows[i].pending@.len() ==> cancellations(shadows).contains(
                (StatusChangeView {
                    id: (#[trigger] shadows[i].pending@[k]).id@,
                    status: "expired"@,
                    reason: Some(RESOLVED_REASON@),
                }),
            ),
    decreases shadows.len(),
{
    let rows = resolved_rows(shadows, now_ms);
    let changes = cancellations(shadows);
    let before = cancellations(shadows.drop_last());
    if i == shadows.len() - 1 {
        assert(rows[rows.len() - 1] == resolved_row(shadows[i].row, now_ms));
        assert forall|k: int| 0 <= k < shadows[i].pending@.len() implies changes.contains(
            (StatusChangeView {
                id: (#[trigger] shadows[i].pending@[k]).id@,
                status: "expired"@,
                reason: Some(RESOLVED_REASON@),
            }),
        ) by {
            assert(changes[before.len() + k] == (StatusChangeView {
                id: shadows[i].pending@[k].id@,
                status: "expired"@,
                reason: Some(RESOLVED_REASON@),
            }));
        }
    } else {
        known_shadow_is_resolved(shadows.drop_last(), now_ms, i);
        assert(shadows.drop_last()[i] == shadows[i]);
        let old_rows = resolved_rows(shadows.drop_last(), now_ms);
        let at = choose|k: int|
            0 <= k < old_rows.len() && old_rows[k] == resolved_row(shadows[i].row, now_ms);
        assert(rows[at] == resolved_row(shadows[i].row, now_ms));
        assert forall|k: int| 0 <= k < shadows[i].pending@.len() implies changes.contains(
            (StatusChangeView {
                id: (#[trigger] shadows[i].pending@[k]).id@,
                status: "expired"@,
                reason: Some(RESOLVED_REASON@),
            }),
        ) by {
            let change = StatusChangeView {
                id: shadows[i].pending@[k].id@,
                status: "expired"@,
                reason: Some(RESOLVED_REASON@),
            };
            assert(shadows.drop_last()[i].pending@[k] == shadows[i].pending@[k]);
            assert(before.contains(change));
            let p = choose|p: int| 0 <= p < before.len() && before[p] == change;
            assert(changes[p] == change);
        }
    }
}

/// Only shadow certificates that are in the inventory are resolved.
pub proof fn unknown_shadow_is_kept(shadows: Seq<ShadowState>, now_ms: i64, row: ShadowCertificateRow)
    requires
        resolved_rows(shadows, now_ms).contains(row),
    ensures
        exists|i: int|
            0 <= i < shadows.len() && (#[trigger] shadows[i]).in_inventory && row == resolved_row(
                shadows[i].row,
                now_ms,
            ),
    decreases shadows.len(),
{
    let rows = resolved_rows(shadows, now_ms);
    let at = choose|k: int| 0 <= k < rows.len() && rows[k] == row;
    let before = resolved_rows(shadows.drop_last(), now_ms);
    if at < before.len() {
        assert(before[at] == row);
        unknown_shadow_is_kept(shadows.drop_last(), now_ms, row);
        let i = choose|i: int|
            0 <= i < shadows.drop_last().len() && (#[trigger] shadows.drop_last()[i]).in_inventory
                && row == resolved_row(shadows.drop_last()[i].row, now_ms);
        assert(shadows[i].in_inventory && row == resolved_row(shadows[i].row, now_ms));
    } else {
        let last = shadows.len() - 1;
        assert(shadows[last].in_inventory && row == resolved_row(shadows[last].row, now_ms));
    }
}

/// No certificate becomes a shadow certificate twice in one reconciliation.
pub proof fn no_shadow_twice(entries: Seq<RemovedEntry>, now_ms: int, i: int, j: int)
    requires
        0 <= i < j < reclassified(entries, now_ms).len(),
    ensures
        reclassified(entries, now_ms)[i].fingerprint@ != reclassified(entries, now_ms)[j].fingerprint@,
    decreases entries.len(),
{
    let before = reclassified(entries.drop_last(), now_ms);
    if j < before.len() {
        no_shadow_twice(entries.drop_last(), now_ms, i, j);
    } else {
        assert(before[i].fingerprint@ == reclassified(entries, now_ms)[i].fingerprint@);
    }
}

/// A certificate that left the inventory and is still observed is among the new shadow
/// certificates unless it is an unresolved one already. A resolved row is opened again.
pub proof fn observed_removal_is_reclassified(entries: Seq<RemovedEntry>, now_ms: int, i: int)
    requires
        0 <= i < entries.len(),
        entries[i].certificate matches Some(cert) && cert.last_seen.millis() >= now_ms
            - TRAFFIC_WINDOW_MS,
        entries[i].shadow is None || (entries[i].shadow matches Some(row) && row.is_resolved),
    ensures
        has_fingerprint(reclassified(entries, now_ms), entries[i].fingerprint@),
    decreases entries.len(),
{
    let before = reclassified(entries.drop_last(), now_ms);
    let after = reclassified(entries, now_ms);
    let fp = entries[i].fingerprint@;
    if i < entries.len() - 1 {
        assert(entries.drop_last()[i] == entries[i]);
        observed_removal_is_reclassified(entries.drop_last(), now_ms, i);
    }
    if has_fingerprint(before, fp) {
        let k = choose|k: int| 0 <= k < before.len() && (#[trigger] before[k]).fingerprint@ == fp;
        assert(after[k].fingerprint@ == fp);
    } else {
        assert(after[before.len() as int].fingerprint@ == fp);
    }
}

/// Only certificates that left the inventory, are still observed and are not unresolved
/// shadow certificates become new ones.
pub proof fn only_observed_removals_are_reclassified(
    entries: Seq<RemovedEntry>,
    now_ms: int,
    k: int,
)
    requires
        0 <= k < reclassified(entries, now_ms).len(),
    ensures
        entries.contains(reclassified(entries, now_ms)[k]),
        becomes_shadow(reclassified(entries, now_ms)[k], now_ms),
    decreases entries.len(),
{
    let before = reclassified(entries.drop_last(), now_ms);
    if k < before.len() {
        only_observed_removals_are_reclassified(entries.drop_last(), now_ms, k);
        let i = choose|i: int|
            0 <= i < entries.drop_last().len() && entries.drop_last()[i] == before[k];
        assert(entries[i] == before[k]);
    } else {
        assert(entries[entries.len() - 1] == reclassified(entries, now_ms)[k]);
    }
}

/// What a reconciliation at instant `now` writes: the resolved rows, the directives to give
/// up and the rows of the new shadow certificates, with their numbers.
pub fn reconcile_inventory(
    shadows: &Vec<ShadowState>,
    removed: &Vec<RemovedEntry>,
    now: &Timestamp,
) -> (r: ReconciliationPlan)
    requires
        shadows.len() <= u32::MAX,
        cancellations(shadows@).len() <= u32::MAX,
        removed.len() <= u32::MAX,
    ensures
        r.resolved@ == resolved_rows(shadows@, now.millis() as i64),
        change_views(r.cancelled@) == cancellations(shadows@),
        r.new_shadows.len() == reclassified(removed@, now.millis()).len(),
        forall|i: int|
            0 <= i < r.new_shadows.len() ==> is_new_shadow(
                #[trigger] r.new_shadows@[i],
                reclassified(removed@, now.millis())[i],
                now.millis() as i64,
            ),
        r.result.shadows_resolved == r.resolved.len(),
        r.result.directives_cancelled == r.cancelled.len(),
        r.result.new_shadows_from_removal == r.new_shadows.len(),
{
    let now_ms: i64 = now.timestamp_millis();
    let (resolved, cancelled) = resolve_shadows(shadows, now_ms);
    let new_shadows = reclassify_removed(removed, now_ms);
    assert(cancelled.len() == change_views(cancelled@).len());
    let result = ReconciliationResult {
        shadows_resolved: resolved.len() as u32,
        directives_cancelled: cancelled.len() as u32,
        new_shadows_from_removal: new_shadows.len() as u32,
    };
    ReconciliationPlan { resolved, cancelled, new_shadows, result }
}

/// The rows of the shadow certificates that are in the inventory, resolved, and the changes
/// that give up their directives.
fn resolve_shadows(shadows: &Vec<ShadowState>, now_ms: i64) -> (r: (
    Vec<ShadowCertificateRow>,
    Vec<StatusChange>,
))
    ensures
        r.0@ == resolved_rows(shadows@, now_ms),
        r.0.len() <= shadows.len(),
        change_views(r.1@) == cancellations(shadows@),
{
    let mut resolved: Vec<ShadowCertificateRow> = Vec::new();
    let mut cancelled: Vec<StatusChange> = Vec::new();
    let mut i: usize = 0;
    while i < shadows.len()
        invariant
            i <= shadows.len(),
            resolved@ == resolved_rows(shadows@.take(i as int), now_ms),
            resolved.len() <= i,
            change_views(cancelled@) == cancellations(shadows@.take(i as int)),
        decreases shadows.len() - i,
    {
        assert(shadows@.take(i + 1).drop_last() =~= shadows@.take(i as int));
        let shadow = &shadows[i];
        if shadow.in_inventory {
            let mut row = clone_shadow_row(&shadow.row);
            row.is_resolved = true;
            row.resolved_at = Some(now_ms);
            resolved.push(row);
            cancel_directives(&mut cancelled, &shadow.pending);
        }
        i += 1;
    }
    assert(shadows@.take(i as int) =~= shadows@);
    (resolved, cancelled)
}

/// Adds the changes that give up the given directives.
fn cancel_directives(out: &mut Vec<StatusChange>, pending: &Vec<ActionDirectiveRow>)
    ensures
        change_views(final(out)@) == change_views(old(out)@) + all_changed(
            pending@,
            "expired"@,
            Some(RESOLVED_REASON@),
        ),
{
    let ghost start = change_views(out@);
    let mut i: usize = 0;
    assert(start =~= start + all_changed(pending@.take(0), "expired"@, Some(RESOLVED_REASON@)));
    while i < pending.len()
        invariant
            i <= pending.len(),
            change_views(out@) == start + all_changed(
                pending@.take(i as int),
                "expired"@,
                Some(RESOLVED_REASON@),
            ),
        decreases pending.len() - i,
    {
        let change = StatusChange {
            id: pending[i].id.clone(),
            status: String::from_str("expired"),
            reason: Some(String::from_str(RESOLVED_REASON)),
        };
        proof {
            lemma_one_more_changed(
                start,
                out@,
                change,
                pending@,
                i as int,
                "expired"@,
                Some(RESOLVED_REASON@),
            );
        }
        out.push(change);
        i += 1;
    }
    assert(pending@.take(i as int) =~= pending@);
}

/// The rows of the certificates that left the inventory but are still observed.
fn reclassify_removed(removed: &Vec<RemovedEntry>, now_ms: i64) -> (r: Vec<ShadowCertificateRow>)
    ensures
        r.len() == reclassified(removed@, now_ms as int).len(),
        r.len() <= removed.len(),
        forall|i: int|
            0 <= i < r.len() ==> is_new_shadow(
                #[trigger] r@[i],
                reclassified(removed@, now_ms as int)[i],
                now_ms,
            ),
{
    let mut out: Vec<ShadowCertificateRow> = Vec::new();
    let mut i: usize = 0;
    while i < removed.len()
        invariant
            i <= removed.len(),
            out.len() <= i,
            out.len() == reclassified(removed@.take(i as int), now_ms as int).len(),
            forall|j: int|
                0 <= j < out.len() ==> is_new_shadow(
                    #[trigger] out@[j],
                    reclassified(removed@.take(i as int), now_ms as int)[j],
                    now_ms,
                ),
        decreases removed.len() - i,
    {
        assert(removed@.take(i + 1).drop_last() =~= removed@.take(i as int));
        let ghost before = reclassified(removed@.take(i as int), now_ms as int);
        let entry = &removed[i];
        let is_open = match &entry.shadow {
            Some(row) => !row.is_resolved,
            None => false,
        };
        if !is_open {
            match &entry.certificate {
                Some(cert) => {
                    let last_seen: i64 = cert.last_seen.timestamp_millis();
                    let present = holds_fingerprint(&out, &entry.fingerprint);
                    proof {
                        if present {
                            let k = choose|k: int|
                                0 <= k < out.len() && (#[trigger] out@[k]).fingerprint@
                                    == entry.fingerprint@;
                            assert(before[k].fingerprint@ == entry.fingerprint@);
                        } else if has_fingerprint(before, entry.fingerprint@) {
                            let k = choose|k: int|
                                0 <= k < before.len() && (#[trigger] before[k]).fingerprint@
                                    == entry.fingerprint@;
                            assert(out@[k].fingerprint@ == entry.fingerprint@);
                        }
                    }
                    if last_seen as i128 >= now_ms as i128 - TRAFFIC_WINDOW_MS as i128 && !present {
                        out.push(
                            ShadowCertificateRow {
                                fingerprint: entry.fingerprint,
                                risk_level: RiskLevel::Low,
                                first_classified: now_ms,
                                last_escalated: None,
                                escalation_count: 0,
                                source_ip: clone_text(&cert.source_ip),
                                destination_ip: clone_text(&cert.destination_ip),
                                first_seen: cert.first_seen.timestamp_millis(),
                                is_resolved: false,
                                resolved_at: None,
                            },
                        );
                    }
                },
                None => {},
            }
        }
        i += 1;
    }
    assert(removed@.take(i as int) =~= removed@);
    out
}

/// Whether one of the rows has the given fingerprint.
fn holds_fingerprint(rows: &Vec<ShadowCertificateRow>, fp: &[u8; 32]) -> (r: bool)
    ensures
        r == exists|i: int| 0 <= i < rows.len() && (#[trigger] rows@[i]).fingerprint@ == fp@,
{
    let mut i: usize = 0;
    while i < rows.len()
        invariant
            i <= rows.len(),
            forall|j: int| 0 <= j < i ==> (#[trigger] rows@[j]).fingerprint@ != fp@,
        decreases rows.len() - i,
    {
        if same_fingerprint(&rows[i].fingerprint, fp) {
            return true;
        }
        i += 1;
    }
    false
}

// ---------------------------------------------------------------------------
// Laws
// ---------------------------------------------------------------------------

/// A row that is resolved says so, and when; all else about it stays.
pub proof fn resolving_changes_nothing_else(row: ShadowCertificateRow, now_ms: i64)
    ensures
        ({
            let r = resolved_row(row, now_ms);
            &&& r.is_resolved
            &&& r.resolved_at == Some(now_ms)
            &&& r.fingerprint == row.fingerprint
            &&& r.risk_level == row.risk_level
            &&& r.first_classified == row.first_classified
            &&& r.last_escalated == row.last_escalated
            &&& r.escalation_count == row.escalation_count
            &&& r.source_ip == row.source_ip
            &&& r.destination_ip == row.destination_ip
            &&& r.first_seen == row.first_seen
        }),
{
}

/// Each shadow certificate is dealt with on its own and in order. One that is in the inventory
/// is resolved, and each of its waiting directives is given up once; of one that is not, nothing
/// changes.
pub proof fn shadows_are_dealt_with_one_by_one(
    a: Seq<ShadowState>,
    b: Seq<ShadowState>,
    shadow: ShadowState,
    now_ms: i64,
)
    ensures
        resolved_rows(a + b, now_ms) == resolved_rows(a, now_ms) + resolved_rows(b, now_ms),
        cancellations(a + b) == cancellations(a) + cancellations(b),
        !shadow.in_inventory ==> resolved_rows(seq![shadow], now_ms).len() == 0 && cancellations(
            seq![shadow],
        ).len() == 0,
        shadow.in_inventory ==> {
            let changes = cancellations(seq![shadow]);
            &&& resolved_rows(seq![shadow], now_ms) == seq![resolved_row(shadow.row, now_ms)]
            &&& changes.len() == shadow.pending@.len()
            &&& forall|k: int|
                0 <= k < changes.len() ==> (#[trigger] changes[k]).id == shadow.pending@[k].id@
                    && changes[k].status == "expired"@ && changes[k].reason == Some(
                    "Certificate appeared in inventory; shadow resolved"@,
                )
        },
    decreases b.len(),
{
    let one = seq![shadow];
    assert(one.drop_last() =~= Seq::<ShadowState>::empty());
    reveal_with_fuel(resolved_rows, 2);
    reveal_with_fuel(cancellations, 2);
    if shadow.in_inventory {
        assert(resolved_rows(one, now_ms) =~= seq![resolved_row(shadow.row, now_ms)]);
        assert(cancellations(one) =~= all_changed(
            shadow.pending@,
            "expired"@,
            Some(RESOLVED_REASON@),
        ));
    }
    if b.len() == 0 {
        assert(a + b =~= a);
        assert(resolved_rows(a, now_ms) + resolved_rows(b, now_ms) =~= resolved_rows(a, now_ms));
        assert(cancellations(a) + cancellations(b) =~= cancellations(a));
    } else {
        assert((a + b).drop_last() =~= a + b.drop_last());
        shadows_are_dealt_with_one_by_one(a, b.drop_last(), shadow, now_ms);
        assert(resolved_rows(a + b, now_ms) =~= resolved_rows(a, now_ms) + resolved_rows(
            b,
            now_ms,
        ));
        assert(cancellations(a + b) =~= cancellations(a) + cancellations(b));
    }
}

/// A certificate that left the inventory becomes a shadow certificate exactly where it was
/// observed within the last 24 hours and is not an unresolved shadow certificate already.
pub proof fn removal_matters_only_in_traffic(entry: RemovedEntry, now: Timestamp)
    ensures
        becomes_shadow(entry, now.millis()) <==> {
            &&& entry.certificate matches Some(cert) && now.millis() - cert.last_seen.millis() <= 24
                * 60 * 60 * 1000
            &&& entry.shadow is None || (entry.shadow matches Some(row) && row.is_resolved)
        },
{
}

/// A new shadow certificate is of low risk, unresolved and never escalated; it was classified
/// now and observed where and when the certificate was.
pub proof fn new_shadow_starts_low(row: ShadowCertificateRow, entry: RemovedEntry, now: Timestamp)
    requires
        becomes_shadow(entry, now.millis()),
        is_new_shadow(row, entry, now.millis() as i64),
    ensures
        row.fingerprint == entry.fingerprint,
        row.risk_level is Low,
        row.first_classified == now.millis() as i64,
        row.last_escalated is None,
        row.escalation_count == 0,
        entry.certificate matches Some(cert) && row.source_ip == cert.source_ip
            && row.destination_ip == cert.destination_ip && row.first_seen
            == cert.first_seen.millis(),
        !row.is_resolved,
        row.resolved_at is None,
{
}

/// One more removed certificate changes nothing about the new shadow certificates before it, and
/// adds itself at the end where it becomes one and is not among them.
pub proof fn removals_are_dealt_with_in_order(
    entries: Seq<RemovedEntry>,
    entry: RemovedEntry,
    now_ms: int,
)
    ensures
        reclassified(entries.push(entry), now_ms) == if becomes_shadow(entry, now_ms) && !exists|
            i: int,
        |
            0 <= i < reclassified(entries, now_ms).len() && (#[trigger] reclassified(
                entries,
                now_ms,
            )[i]).fingerprint@ == entry.fingerprint@ {
            reclassified(entries, now_ms) + seq![entry]
        } else {
            reclassified(entries, now_ms)
        },
        reclassified(Seq::empty(), now_ms).len() == 0,
{
    assert(entries.push(entry).drop_last() =~= entries);
    let before = reclassified(entries, now_ms);
    assert(before.push(entry) =~= before + seq![entry]);
}

} // verus!
