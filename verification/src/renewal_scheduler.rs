//! Periodic evaluation of the certificates that approach expiry.

use vstd::prelude::*;
use crate::probability::RENEWAL_THRESHOLD;
use crate::renewal::{in_prediction_window, is_prediction, PredictionResult, RenewalPredictor};
use crate::storage::{
    is_pending_row, pending_row, severity_text, severity_to_str, ActionDirectiveRow,
    RenewalPredictionRow,
};
use crate::text::led_in;
use crate::time::Timestamp;
use crate::types::CertificateMetadata;

verus! {

/// Evaluates certificates that approach expiry.
pub struct RenewalScheduler;

/// What is to be stored for one certificate.
#[derive(Clone, Debug)]
pub struct Reevaluation {
    pub prediction: RenewalPredictionRow,
    /// The directive that the prediction calls for.
    pub directive: Option<ActionDirectiveRow>,
}

/// Whether the rows of one certificate could be stored.
#[derive(Clone, Copy, Debug, PartialEq, Eq, Structural)]
pub enum StoreOutcome {
    /// The prediction could not be stored, and the directive was not tried.
    PredictionFailed,
    /// The prediction was stored, and there was no directive.
    PredictionStored,
    /// The prediction and the directive were stored.
    DirectiveStored,
    /// The prediction was stored, but not the directive.
    DirectiveFailed,
}

/// Summary of one evaluation.
#[derive(Clone, Copy, Debug, PartialEq, Eq, Structural)]
pub struct ReevaluationResult {
    /// Certificates evaluated.
    pub certificates_evaluated: u32,
    /// Predictions stored.
    pub predictions_updated: u32,
    /// Directives stored.
    pub directives_generated: u32,
    /// Rows that could not be stored.
    pub errors: u32,
}

/// Why an evaluation failed as a whole.
#[derive(Clone, Debug)]
pub enum ReevaluationError {
    /// The certificates could not be read.
    Storage(String),
}

impl ReevaluationError {
    /// The error in words.
    pub fn message(&self) -> (r: String)
        ensures
            r@ == "Storage error: "@ + (match self {
                ReevaluationError::Storage(text) => text@,
            }),
    {
        match self {
            ReevaluationError::Storage(text) => led_in("Storage error: ", text.as_str()),
        }
    }
}

/// The certificates within the prediction window, in order.
pub open spec fn due(certs: Seq<CertificateMetadata>, now: Timestamp) -> Seq<CertificateMetadata>
    decreases certs.len(),
{
    if certs.len() == 0 {
        Seq::empty()
    } else {
        let before = due(certs.drop_last(), now);
        if in_prediction_window(certs.last(), now) {
            before.push(certs.last())
        } else {
            before
        }
    }
}

/// The rows hold the prediction and its directive as they are to be stored at instant `now`.
pub open spec fn holds_result(r: Reevaluation, p: PredictionResult, now: Timestamp) -> bool {
    &&& r.prediction.cert_fingerprint == p.prediction.cert_fingerprint
    &&& r.prediction.failure_probability == p.prediction.failure_probability
    &&& r.prediction.severity@ == severity_text(p.prediction.severity)
    &&& r.prediction.days_until_expiry == p.prediction.days_until_expiry
    &&& r.prediction.renewal_activity_detected == p.prediction.renewal_activity_detected
    &&& r.prediction.reasoning == Some(p.prediction.reasoning)
    &&& r.prediction.last_evaluated == now.millis()
    &&& r.prediction.created_at == now.millis()
    &&& match (r.directive, p.directive) {
        (Some(row), Some(d)) => is_pending_row(row, d),
        (None, None) => true,
        _ => false,
    }
}

/// The rows are those of the prediction for the certificate without history, with a directive
/// as the threshold calls for it.
pub open spec fn is_reevaluation(
    r: Reevaluation,
    cert: CertificateMetadata,
    now: Timestamp,
    threshold: int,
) -> bool {
    exists|p: PredictionResult| #[trigger]
        is_prediction(p, cert, None, now, threshold) && holds_result(r, p, now)
}

/// How many outcomes are of the given kind.
pub open spec fn count_of(outcomes: Seq<StoreOutcome>, kind: StoreOutcome) -> nat
    decreases outcomes.len(),
{
    if outcomes.len() == 0 {
        0
    } else {
        count_of(outcomes.drop_last(), kind) + if outcomes.last() == kind {
            1nat
        } else {
            0
        }
    }
}

impl RenewalScheduler {
    /// What is to be stored for the certificates within the prediction window: the
    /// prediction of each, in order, and the directive that it calls for at the usual
    /// threshold.
    pub fn run_reevaluation(certs: &Vec<CertificateMetadata>, now: &Timestamp) -> (r: Vec<
        Reevaluation,
    >)
        ensures
            r.len() == due(certs@, *now).len(),
            forall|i: int|
                0 <= i < r.len() ==> is_reevaluation(
                    #[trigger] r@[i],
                    due(certs@, *now)[i],
                    *now,
                    RENEWAL_THRESHOLD as int,
                ),
    {
        RenewalScheduler::run_reevaluation_with_threshold(certs, now, RENEWAL_THRESHOLD)
    }

    /// What is to be stored for the certificates within the prediction window: the
    /// prediction of each, in order, and the directive that it calls for at a threshold.
    pub fn run_reevaluation_with_threshold(
        certs: &Vec<CertificateMetadata>,
        now: &Timestamp,
        threshold: u32,
    ) -> (r: Vec<Reevaluation>)
        ensures
            r.len() == due(certs@, *now).len(),
            forall|i: int|
                0 <= i < r.len() ==> is_reevaluation(
                    #[trigger] r@[i],
                    due(certs@, *now)[i],
                    *now,
                    threshold as int,
                ),
    {
        let predictor = RenewalPredictor::with_now(*now);
        let mut out: Vec<Reevaluation> = Vec::new();
        let mut i: usize = 0;
        while i < certs.len()
            invariant
                i <= certs.len(),
                predictor.now == *now,
                out.len() == due(certs@.take(i as int), *now).len(),
                forall|j: int|
                    0 <= j < out.len() ==> is_reevaluation(
                        #[trigger] out@[j],
                        due(certs@.take(i as int), *now)[j],
                        *now,
                        threshold as int,
                    ),
            decreases certs.len() - i,
        {
            assert(certs@.take(i + 1).drop_last() =~= certs@.take(i as int));
            let cert = &certs[i];
            match predictor.predict_with_threshold(cert, None, threshold) {
                Some(result) => {
                    let item = RenewalScheduler::rows_for(&result, now);
                    assert(is_reevaluation(item, *cert, *now, threshold as int));
                    out.push(item);
                },
                None => {},
            }
            i += 1;
        }
        assert(certs@.take(i as int) =~= certs@);
        out
    }

    /// The rows of a prediction and its directive.
    pub fn rows_for(result: &PredictionResult, now: &Timestamp) -> (r: Reevaluation)
        ensures
            holds_result(r, *result, *now),
    {
        let prediction = RenewalPredictionRow {
            cert_fingerprint: result.prediction.cert_fingerprint,
            failure_probability: result.prediction.failure_probability,
            severity: String::from_str(severity_to_str(result.prediction.severity)),
            days_until_expiry: result.prediction.days_until_expiry,
            renewal_activity_detected: result.prediction.renewal_activity_detected,
            reasoning: Some(result.prediction.reasoning.clone()),
            last_evaluated: now.timestamp_millis(),
            created_at: now.timestamp_millis(),
        };
        let directive = match &result.directive {
            Some(d) => Some(pending_row(d)),
            None => None,
        };
        Reevaluation { prediction, directive }
    }

    /// The summary of an evaluation of `evaluated` certificates whose rows met the given
    /// outcomes.
    pub fn summarize(evaluated: usize, outcomes: &Vec<StoreOutcome>) -> (r: ReevaluationResult)
        requires
            outcomes.len() <= u32::MAX,
        ensures
            r.certificates_evaluated == evaluated as u32,
            r.predictions_updated == outcomes.len() - count_of(
                outcomes@,
                StoreOutcome::PredictionFailed,
            ),
            r.directives_generated == count_of(outcomes@, StoreOutcome::DirectiveStored),
            r.errors == count_of(outcomes@, StoreOutcome::PredictionFailed) + count_of(
                outcomes@,
                StoreOutcome::DirectiveFailed,
            ),
    {
        let mut r = ReevaluationResult {
            certificates_evaluated: evaluated as u32,
            predictions_updated: 0,
            directives_generated: 0,
            errors: 0,
        };
        let mut i: usize = 0;
        while i < outcomes.len()
            invariant
                i <= outcomes.len() <= u32::MAX,
                r.certificates_evaluated == evaluated as u32,
                r.predictions_updated == i - count_of(
                    outcomes@.take(i as int),
                    StoreOutcome::PredictionFailed,
                ),
                r.directives_generated == count_of(
                    outcomes@.take(i as int),
                    StoreOutcome::DirectiveStored,
                ),
                r.errors == count_of(outcomes@.take(i as int), StoreOutcome::PredictionFailed)
                    + count_of(outcomes@.take(i as int), StoreOutcome::DirectiveFailed),
                r.directives_generated <= i,
                r.errors <= i,
            decreases outcomes.len() - i,
        {
            assert(outcomes@.take(i + 1).drop_last() =~= outcomes@.take(i as int));
            match outcomes[i] {
                StoreOutcome::PredictionFailed => {
                    r.errors = r.errors + 1;
                },
                StoreOutcome::PredictionStored => {
                    r.predictions_updated = r.predictions_updated + 1;
                },
                StoreOutcome::DirectiveStored => {
                    r.predictions_updated = r.predictions_updated + 1;
                    r.directives_generated = r.directives_generated + 1;
                },
                StoreOutcome::DirectiveFailed => {
                    r.predictions_updated = r.predictions_updated + 1;
                    r.errors = r.errors + 1;
                },
            }
            i += 1;
        }
        assert(outcomes@.take(i as int) =~= outcomes@);
        r
    }
}

/// Evaluated are exactly the certificates that have expired or expire within 30 days, in the
/// order in which they come.
pub proof fn due_are_those_within_thirty_days(certs: Seq<CertificateMetadata>, now: Timestamp)
    ensures
        due(certs, now) == certs.filter(
            |c: CertificateMetadata| c.not_after.at() - now.at() <= 30 * 86_400_000_000_000,
        ),
    decreases certs.len(),
{
    reveal(Seq::filter);
    if certs.len() > 0 {
        due_are_those_within_thirty_days(certs.drop_last(), now);
    } else {
        assert(due(certs, now) =~= certs);
    }
}

/// Outcomes of a kind are counted one by one.
pub proof fn outcomes_are_counted(outcomes: Seq<StoreOutcome>, kind: StoreOutcome)
    ensures
        count_of(outcomes, kind) == outcomes.filter(|o: StoreOutcome| o == kind).len(),
        count_of(outcomes, StoreOutcome::PredictionFailed) + count_of(
            outcomes,
            StoreOutcome::PredictionStored,
        ) + count_of(outcomes, StoreOutcome::DirectiveStored) + count_of(
            outcomes,
            StoreOutcome::DirectiveFailed,
        ) == outcomes.len(),
    decreases outcomes.len(),
{
    reveal(Seq::filter);
    if outcomes.len() > 0 {
        outcomes_are_counted(outcomes.drop_last(), kind);
    }
}

/// What is stored is the prediction and, where there is one, its directive, which waits; both
/// are about the same certificate.
pub proof fn stored_rows_hold_the_prediction(r: Reevaluation, p: PredictionResult, now: Timestamp)
    requires
        holds_result(r, p, now),
    ensures
        r.prediction.cert_fingerprint == p.prediction.cert_fingerprint,
        r.prediction.failure_probability == p.prediction.failure_probability,
        r.prediction.days_until_expiry == p.prediction.days_until_expiry,
        r.prediction.renewal_activity_detected == p.prediction.renewal_activity_detected,
        r.prediction.reasoning matches Some(text) && text@ == p.prediction.reasoning@,
        r.prediction.last_evaluated * 1_000_000 <= now.at() < (r.prediction.last_evaluated + 1)
            * 1_000_000,
        r.prediction.created_at == r.prediction.last_evaluated,
        p.prediction.severity is Low ==> r.prediction.severity@ == "low"@,
        p.prediction.severity is Medium ==> r.prediction.severity@ == "medium"@,
        p.prediction.severity is High ==> r.prediction.severity@ == "high"@,
        p.prediction.severity is Critical ==> r.prediction.severity@ == "critical"@,
        r.directive is Some <==> p.directive is Some,
        r.directive matches Some(row) ==> {
            &&& row.cert_fingerprint == p.directive->0.cert_fingerprint
            &&& row.status@ == "pending"@
            &&& row.reasoning matches Some(text) && text@ == p.directive->0.reasoning@
        },
{
    crate::time::millis_of_an_instant(now);
}

/// Periodic evaluation knows of no earlier renewals: what it stores follows from the days left
/// alone, and a directive is stored exactly where the certificate has expired or the probability
/// reaches the threshold.
pub proof fn evaluation_follows_the_days_left(
    r: Reevaluation,
    cert: CertificateMetadata,
    now: Timestamp,
    threshold: int,
)
    requires
        is_reevaluation(r, cert, now, threshold),
        in_prediction_window(cert, now),
    ensures
        ({
            let left = cert.not_after.at() - now.at();
            let days = r.prediction.days_until_expiry as int;
            &&& r.prediction.cert_fingerprint == cert.fingerprint
            &&& left >= 0 ==> days * 86_400_000_000_000 <= left < (days + 1) * 86_400_000_000_000
            &&& left <= 0 ==> (days - 1) * 86_400_000_000_000 < left <= days * 86_400_000_000_000
            &&& days >= 0 ==> r.prediction.failure_probability == 950 - 15 * days
            &&& days <= 0 ==> r.prediction.failure_probability == 950
            &&& days >= 14 ==> r.prediction.severity@ == "medium"@
            &&& days <= 13 ==> r.prediction.severity@ == "critical"@
            &&& !r.prediction.renewal_activity_detected
            &&& r.directive is Some <==> days <= 0 || r.prediction.failure_probability >= threshold
            &&& r.directive matches Some(row) ==> {
                &&& row.cert_fingerprint@ == cert.fingerprint@
                &&& days <= 0 ==> row.action_type@ == "alert"@ && row.severity@ == "critical"@
                &&& days > 0 ==> row.action_type@ == "renew"@ && row.severity@
                    == r.prediction.severity@
            }
        }),
{
    let p = choose|p: PredictionResult| #[trigger]
        is_prediction(p, cert, None, now, threshold) && holds_result(r, p, now);
    crate::renewal::prediction_is_about_its_certificate(p, cert, None, now, threshold);
    crate::renewal::directive_iff_expired_or_likely(p, cert, None, now, threshold);
    crate::time::days_and_minutes_of_a_span(cert.not_after.at() - now.at());
    let days = p.prediction.days_until_expiry as int;
    assert(days <= 30);
    match p.directive {
        Some(d) => {
            assert(d.content().cert_fingerprint == d.cert_fingerprint@);
            assert(d.content().action_type == d.action_type);
            assert(d.content().severity == d.severity);
        },
        None => {},
    }
}

} // verus!
