//! Prediction of renewal failures from the time left and from past renewals.

use vstd::prelude::*;
use crate::ids::{is_random_uuid, Uuid};
use crate::probability::{percent, push_percent, CERTAIN, RENEWAL_THRESHOLD};
use crate::text::{
    bound_reasoning, bounded, bounded_reasoning_is_short, decimal, first_chars, push_decimal,
    push_signed, signed_decimal, take_first_chars, MAX_REASONING,
};
use crate::time::{whole_days, Timestamp, NANOS_PER_DAY};
use crate::types::{
    ActionDirective, ActionType, CertificateMetadata, DirectiveContent, RenewalPrediction, Severity,
};

verus! {

/// Days before expiry from which predictions are made.
pub const PREDICTION_WINDOW_DAYS: i32 = 30;

/// What is known of past renewals of a certificate.
#[derive(Clone, Debug)]
pub struct RenewalHistory {
    /// How many days before expiry the past renewals happened.
    pub previous_renewal_days: Vec<i32>,
    /// How many renewals failed.
    pub past_failures: u32,
    /// How many days the issuer takes on average, rounded up to whole days.
    pub issuer_avg_response_days: i64,
}

/// A prediction, and the directive that it calls for.
#[derive(Clone, Debug)]
pub struct PredictionResult {
    pub prediction: RenewalPrediction,
    pub directive: Option<ActionDirective>,
}

/// The sum of a list of days.
pub open spec fn total(days: Seq<i32>) -> int
    decreases days.len(),
{
    if days.len() == 0 {
        0
    } else {
        total(days.drop_last()) + days.last()
    }
}

/// A quotient rounded to the nearest whole number, and to the even one in the middle.
pub open spec fn rounded(dividend: nat, divisor: nat) -> nat {
    let below = dividend / divisor;
    let rest = dividend % divisor;
    if 2 * rest < divisor || (2 * rest == divisor && below % 2 == 0) {
        below
    } else {
        below + 1
    }
}

/// A renewal seems to be under way: past renewals happened, on average, further from expiry
/// than the certificate is now, and none failed.
pub open spec fn renewal_activity(history: Option<RenewalHistory>, days: int) -> bool {
    match history {
        Some(h) => h.previous_renewal_days@.len() > 0 && days > 0 && days
            * h.previous_renewal_days@.len() < total(h.previous_renewal_days@) && h.past_failures
            == 0,
        None => false,
    }
}

/// The days of the prediction window that have passed.
pub open spec fn days_into_window(days: int) -> int {
    if days < 0 {
        30
    } else if days > 30 {
        0
    } else {
        30 - days
    }
}

/// The probability, in thousandths, that the renewal fails. Without history it rises by 15
/// a day from 500 at the start of the window. With history it adds up, to at most 1000:
/// 200 with renewal activity and 400 without; 100 for each past failure, at most 300; 300
/// where the issuer takes longer than there is time, or 400 once expired; and 8 for each
/// day into the window.
pub open spec fn failure_thousandths(history: Option<RenewalHistory>, days: int, activity: bool) -> int {
    match history {
        None => 500 + 15 * days_into_window(days),
        Some(h) => {
            let base: int = if activity {
                200
            } else {
                400
            };
            let failures: int = if h.past_failures >= 3 {
                300
            } else {
                100 * h.past_failures
            };
            let issuer: int = if days > 0 {
                if h.issuer_avg_response_days > days {
                    300
                } else {
                    0
                }
            } else {
                400
            };
            let sum = base + failures + issuer + 8 * days_into_window(days);
            if sum < CERTAIN {
                sum
            } else {
                CERTAIN as int
            }
        },
    }
}

/// The severity: critical once expired, and within the last fortnight unless a renewal is
/// under way, when it is high; medium before.
pub open spec fn renewal_severity(days: int, activity: bool) -> Severity {
    if days <= 0 {
        Severity::Critical
    } else if days < 14 && !activity {
        Severity::Critical
    } else if days < 14 {
        Severity::High
    } else {
        Severity::Medium
    }
}

/// The history in words, each part led in by a full stop.
pub open spec fn history_text(history: Option<RenewalHistory>) -> Seq<char> {
    match history {
        None => ". No historical renewal data available"@,
        Some(h) => average_text(h.previous_renewal_days@) + failures_text(h.past_failures),
    }
}

/// The average of past renewals in words.
pub open spec fn average_text(days: Seq<i32>) -> Seq<char> {
    if days.len() == 0 {
        Seq::empty()
    } else {
        let sum = total(days);
        ". Historical avg renewal: "@ + (if sum < 0 {
            "-"@ + decimal(rounded((-sum) as nat, days.len()))
        } else {
            decimal(rounded(sum as nat, days.len()))
        }) + " days before expiry"@
    }
}

/// The number of past failures in words.
pub open spec fn failures_text(failures: u32) -> Seq<char> {
    if failures == 0 {
        Seq::empty()
    } else {
        ". "@ + decimal(failures as nat) + " past renewal failures"@
    }
}

/// A prediction in words, before the bound on a reasoning's length.
pub open spec fn prediction_text(
    history: Option<RenewalHistory>,
    days: int,
    thousandths: int,
    activity: bool,
) -> Seq<char> {
    (if days <= 0 {
        "Certificate expired "@ + signed_decimal(-days) + " days ago"@
    } else {
        "Certificate expires in "@ + signed_decimal(days) + " days"@
    }) + ". Failure probability: "@ + decimal(percent(thousandths as nat)) + "%"@ + (if activity {
        ". Renewal activity detected"@
    } else {
        ". No renewal activity detected"@
    }) + history_text(history)
}

/// The directive that a prediction calls for: an alert once the certificate has expired,
/// a renewal where the probability reaches the threshold, and else none.
pub open spec fn renewal_directive(
    fingerprint: Seq<u8>,
    days: int,
    thousandths: int,
    threshold: int,
    severity: Severity,
    reasoning: Seq<char>,
    now: Timestamp,
) -> Option<DirectiveContent> {
    if days <= 0 {
        Some(
            DirectiveContent {
                cert_fingerprint: fingerprint,
                action_type: ActionType::Alert,
                severity: Severity::Critical,
                reasoning: first_chars(
                    "Certificate expired "@ + signed_decimal(-days)
                        + " days ago without renewal. "@ + reasoning,
                    MAX_REASONING as nat,
                ),
                created_at: now,
                source_anomaly: None,
                attempt_count: 0,
            },
        )
    } else if thousandths >= threshold {
        Some(
            DirectiveContent {
                cert_fingerprint: fingerprint,
                action_type: ActionType::Renew,
                severity,
                reasoning: first_chars(reasoning, MAX_REASONING as nat),
                created_at: now,
                source_anomaly: None,
                attempt_count: 0,
            },
        )
    } else {
        None
    }
}

/// The whole days from `now` until the certificate expires, negative once it has.
pub open spec fn days_left(cert: CertificateMetadata, now: Timestamp) -> int {
    whole_days(cert.not_after.at() - now.at())
}

/// At instant `now` at most 30 days are left until the certificate expires, or it has expired.
pub open spec fn in_prediction_window(cert: CertificateMetadata, now: Timestamp) -> bool {
    cert.not_after.at() - now.at() <= PREDICTION_WINDOW_DAYS * NANOS_PER_DAY
}

/// The result is the prediction for the certificate at instant `now`, with a directive as the
/// threshold calls for it.
pub open spec fn is_prediction(
    r: PredictionResult,
    cert: CertificateMetadata,
    history: Option<RenewalHistory>,
    now: Timestamp,
    threshold: int,
) -> bool {
    let days = days_left(cert, now);
    let activity = renewal_activity(history, days);
    let thousandths = failure_thousandths(history, days, activity);
    let severity = renewal_severity(days, activity);
    let reasoning = bounded(prediction_text(history, days, thousandths, activity));
    &&& r.prediction.cert_fingerprint == cert.fingerprint
    &&& r.prediction.failure_probability == thousandths
    &&& r.prediction.days_until_expiry == days
    &&& r.prediction.severity == severity
    &&& r.prediction.reasoning@ == reasoning
    &&& r.prediction.last_evaluated == now
    &&& r.prediction.renewal_activity_detected == activity
    &&& match (r.directive, renewal_directive(
        cert.fingerprint@,
        days,
        thousandths,
        threshold,
        severity,
        reasoning,
        now,
    )) {
        (Some(d), Some(content)) => d.content() == content && is_random_uuid(d.id.bits)
            && is_random_uuid(d.correlation_id.bits),
        (None, None) => true,
        _ => false,
    }
}

/// The history behind a reference.
pub open spec fn history_of(history: Option<&RenewalHistory>) -> Option<RenewalHistory> {
    match history {
        Some(h) => Some(*h),
        None => None,
    }
}

/// A failure probability lies between impossible and certain.
pub proof fn probability_in_range(history: Option<RenewalHistory>, days: int, activity: bool)
    ensures
        0 <= failure_thousandths(history, days, activity) <= CERTAIN,
{
}

/// Without history the probability is at least one half, and does not fall as expiry comes
/// nearer.
pub proof fn probability_without_history(days: int, fewer_days: int)
    requires
        fewer_days <= days,
    ensures
        500 <= failure_thousandths(None, days, false) <= 950,
        failure_thousandths(None, days, false) <= failure_thousandths(None, fewer_days, false),
{
}

/// With history the probability does not fall either as expiry comes nearer, as long as the
/// renewal activity stays as it is.
pub proof fn probability_with_history_rises(h: RenewalHistory, days: int, fewer_days: int, activity: bool)
    requires
        fewer_days <= days,
    ensures
        failure_thousandths(Some(h), days, activity) <= failure_thousandths(
            Some(h),
            fewer_days,
            activity,
        ),
{
}

/// More past failures never lower the probability.
pub proof fn failures_never_lower_probability(a: RenewalHistory, b: RenewalHistory, days: int)
    requires
        a.previous_renewal_days == b.previous_renewal_days,
        a.issuer_avg_response_days == b.issuer_avg_response_days,
        a.past_failures <= b.past_failures,
    ensures
        failure_thousandths(Some(a), days, renewal_activity(Some(a), days))
            <= failure_thousandths(Some(b), days, renewal_activity(Some(b), days)),
{
}

/// The reasoning of a directive, and that of the prediction behind it, are within the bound on
/// a reasoning's length.
pub proof fn renewal_reasoning_is_short(
    r: PredictionResult,
    cert: CertificateMetadata,
    history: Option<RenewalHistory>,
    now: Timestamp,
    threshold: int,
)
    requires
        is_prediction(r, cert, history, now, threshold),
    ensures
        r.prediction.reasoning@.len() <= MAX_REASONING,
        r.directive matches Some(d) ==> d.reasoning@.len() <= MAX_REASONING,
{
    let days = days_left(cert, now);
    let activity = renewal_activity(history, days);
    let thousandths = failure_thousandths(history, days, activity);
    bounded_reasoning_is_short(prediction_text(history, days, thousandths, activity));
    match r.directive {
        Some(d) => {
            assert(d.content().reasoning == d.reasoning@);
        },
        None => {},
    }
}

/// Within the last fortnight a certificate without renewal activity is critical; once it has
/// expired it is alerted as critical, and before that a directive is an order to renew.
pub proof fn urgent_renewals_are_critical(
    r: PredictionResult,
    cert: CertificateMetadata,
    history: Option<RenewalHistory>,
    now: Timestamp,
    threshold: int,
)
    requires
        is_prediction(r, cert, history, now, threshold),
    ensures
        r.prediction.days_until_expiry < 14 && !r.prediction.renewal_activity_detected
            ==> r.prediction.severity is Critical,
        r.prediction.days_until_expiry <= 0 ==> (r.directive matches Some(d)
            && d.action_type is Alert && d.severity is Critical),
        r.prediction.days_until_expiry > 0 ==> (r.directive matches Some(d)
            ==> d.action_type is Renew && d.severity == r.prediction.severity),
{
    match r.directive {
        Some(d) => {
            assert(d.content().action_type == d.action_type);
            assert(d.content().severity == d.severity);
        },
        None => {},
    }
}

/// A prediction calls for a directive exactly where the certificate has expired or the
/// probability reaches the threshold. Without history and at the usual threshold that is so
/// from 16 days before expiry on.
pub proof fn directive_iff_expired_or_likely(
    r: PredictionResult,
    cert: CertificateMetadata,
    history: Option<RenewalHistory>,
    now: Timestamp,
    threshold: int,
)
    requires
        is_prediction(r, cert, history, now, threshold),
    ensures
        r.directive is Some <==> r.prediction.days_until_expiry <= 0
            || r.prediction.failure_probability >= threshold,
        history is None && threshold == RENEWAL_THRESHOLD ==> (r.directive is Some
            <==> r.prediction.days_until_expiry <= 16),
{
}

/// The sum of a list of days.
fn sum_days(days: &Vec<i32>) -> (r: i128)
    ensures
        r == total(days@),
{
    let mut sum: i128 = 0;
    let mut i: usize = 0;
    while i < days.len()
        invariant
            i <= days.len(),
            sum == total(days@.take(i as int)),
            -0x8000_0000 * i <= sum <= 0x8000_0000 * i,
        decreases days.len() - i,
    {
        assert(days@.take(i + 1).drop_last() =~= days@.take(i as int));
        assert(days@.take(i + 1).last() == days@[i as int]);
        sum = sum + days[i] as i128;
        i += 1;
    }
    assert(days@.take(i as int) =~= days@);
    sum
}

/// Predicts renewal failures at one instant.
#[derive(Clone, Copy, Debug)]
pub struct RenewalPredictor {
    pub now: Timestamp,
}

impl RenewalPredictor {
    /// A predictor for the present instant.
    pub fn new() -> (r: Self)
        ensures
            crate::time::MIN_SECS * crate::time::NANOS_PER_SEC <= r.now.at() < (
            crate::time::MAX_SECS + 1) * crate::time::NANOS_PER_SEC,
    {
        RenewalPredictor { now: Timestamp::now() }
    }

    /// A predictor for a given instant.
    pub fn with_now(now: Timestamp) -> (r: Self)
        ensures
            r.now == now,
    {
        RenewalPredictor { now }
    }

    /// The prediction for a certificate at the usual threshold; `None` where more than 30 days
    /// are left.
    pub fn predict(&self, metadata: &CertificateMetadata, history: Option<&RenewalHistory>) -> (r:
        Option<PredictionResult>)
        ensures
            r is None <==> metadata.not_after.at() - self.now.at() > PREDICTION_WINDOW_DAYS
                * NANOS_PER_DAY,
            r is Some <==> in_prediction_window(*metadata, self.now),
            r matches Some(p) ==> is_prediction(
                p,
                *metadata,
                history_of(history),
                self.now,
                RENEWAL_THRESHOLD as int,
            ),
    {
        self.predict_with_threshold(metadata, history, RENEWAL_THRESHOLD)
    }

    /// The prediction for a certificate, with an order to renew it where the probability of
    /// failure reaches the threshold; `None` where more than 30 days are left.
    pub fn predict_with_threshold(
        &self,
        metadata: &CertificateMetadata,
        history: Option<&RenewalHistory>,
        threshold: u32,
    ) -> (r: Option<PredictionResult>)
        ensures
            r is None <==> metadata.not_after.at() - self.now.at() > PREDICTION_WINDOW_DAYS
                * NANOS_PER_DAY,
            r is Some <==> in_prediction_window(*metadata, self.now),
            r matches Some(p) ==> is_prediction(
                p,
                *metadata,
                history_of(history),
                self.now,
                threshold as int,
            ),
    {
        if metadata.not_after.is_days_after(&self.now, PREDICTION_WINDOW_DAYS as i64) {
            return None;
        }
        let days: i32 = metadata.not_after.days_since(&self.now) as i32;
        let activity = self.has_renewal_activity(history, days);
        let thousandths: u32 = self.calculate_probability(days, history, activity);
        let severity = self.determine_severity(days, activity);
        let reasoning = self.build_reasoning(days, thousandths, history, activity);
        let directive = self.generate_directive(
            metadata,
            days,
            thousandths,
            threshold,
            severity,
            reasoning.as_str(),
        );
        let prediction = RenewalPrediction {
            cert_fingerprint: metadata.fingerprint,
            failure_probability: thousandths,
            days_until_expiry: days,
            severity,
            reasoning,
            last_evaluated: self.now,
            renewal_activity_detected: activity,
        };
        Some(PredictionResult { prediction, directive })
    }

    /// Whether a renewal seems to be under way.
    pub fn has_renewal_activity(&self, history: Option<&RenewalHistory>, days: i32) -> (r: bool)
        ensures
            r == renewal_activity(history_of(history), days as int),
    {
        match history {
            Some(h) => {
                if h.previous_renewal_days.len() == 0 {
                    return false;
                }
                let count: i128 = h.previous_renewal_days.len() as i128;
                proof {
                    assert(-0x8000_0000 * count <= days * count <= 0x8000_0000 * count)
                        by (nonlinear_arith)
                        requires
                            -0x8000_0000 <= days <= 0x8000_0000,
                            0 <= count,
                    ;
                }
                let scaled: i128 = days as i128 * count;
                days > 0 && scaled < sum_days(&h.previous_renewal_days) && h.past_failures == 0
            },
            None => false,
        }
    }

    /// The probability, in thousandths, that the renewal fails.
    pub fn calculate_probability(
        &self,
        days: i32,
        history: Option<&RenewalHistory>,
        activity: bool,
    ) -> (r: u32)
        ensures
            r == failure_thousandths(history_of(history), days as int, activity),
            r <= CERTAIN,
    {
        let into_window: u32 = if days < 0 {
            30
        } else if days > 30 {
            0
        } else {
            (30 - days) as u32
        };
        match history {
            None => 500 + 15 * into_window,
            Some(h) => {
                let base: u32 = if activity {
                    200
                } else {
                    400
                };
                let failures: u32 = if h.past_failures >= 3 {
                    300
                } else {
                    100 * h.past_failures
                };
                let issuer: u32 = if days > 0 {
                    if h.issuer_avg_response_days > days as i64 {
                        300
                    } else {
                        0
                    }
                } else {
                    400
                };
                let sum: u32 = base + failures + issuer + 8 * into_window;
                if sum < CERTAIN {
                    sum
                } else {
                    CERTAIN
                }
            },
        }
    }

    /// How urgent a prediction is.
    pub fn determine_severity(&self, days: i32, activity: bool) -> (r: Severity)
        ensures
            r == renewal_severity(days as int, activity),
    {
        if days <= 0 {
            Severity::Critical
        } else if days < 14 && !activity {
            Severity::Critical
        } else if days < 14 {
            Severity::High
        } else {
            Severity::Medium
        }
    }

    /// The directive that a prediction calls for.
    pub fn generate_directive(
        &self,
        metadata: &CertificateMetadata,
        days: i32,
        thousandths: u32,
        threshold: u32,
        severity: Severity,
        reasoning: &str,
    ) -> (r: Option<ActionDirective>)
        requires
            days > i32::MIN,
        ensures
            match (r, renewal_directive(
                metadata.fingerprint@,
                days as int,
                thousandths as int,
                threshold as int,
                severity,
                reasoning@,
                self.now,
            )) {
                (Some(d), Some(content)) => d.content() == content && is_random_uuid(d.id.bits)
                    && is_random_uuid(d.correlation_id.bits),
                (None, None) => true,
                _ => false,
            },
    {
        if days <= 0 {
            let mut text = String::from_str("Certificate expired ");
            push_signed(&mut text, -(days as i64));
            text.append(" days ago without renewal. ");
            text.append(reasoning);
            Some(
                ActionDirective {
                    id: Uuid::new_v4(),
                    correlation_id: Uuid::new_v4(),
                    cert_fingerprint: metadata.fingerprint,
                    action_type: ActionType::Alert,
                    severity: Severity::Critical,
                    reasoning: take_first_chars(text.as_str(), MAX_REASONING),
                    created_at: self.now,
                    source_anomaly: None,
                    attempt_count: 0,
                },
            )
        } else if thousandths >= threshold {
            Some(
                ActionDirective {
                    id: Uuid::new_v4(),
                    correlation_id: Uuid::new_v4(),
                    cert_fingerprint: metadata.fingerprint,
                    action_type: ActionType::Renew,
                    severity,
                    reasoning: take_first_chars(reasoning, MAX_REASONING),
                    created_at: self.now,
                    source_anomaly: None,
                    attempt_count: 0,
                },
            )
        } else {
            None
        }
    }

    /// A prediction in words, within the bound on a reasoning's length.
    pub fn build_reasoning(
        &self,
        days: i32,
        thousandths: u32,
        history: Option<&RenewalHistory>,
        activity: bool,
    ) -> (r: String)
        requires
            days > i32::MIN,
        ensures
            r@ == bounded(
                prediction_text(history_of(history), days as int, thousandths as int, activity),
            ),
    {
        let mut out = if days <= 0 {
            let mut text = String::from_str("Certificate expired ");
            push_signed(&mut text, -(days as i64));
            text.append(" days ago");
            text
        } else {
            let mut text = String::from_str("Certificate expires in ");
            push_signed(&mut text, days as i64);
            text.append(" days");
            text
        };
        out.append(". Failure probability: ");
        push_percent(&mut out, thousandths);
        if activity {
            out.append(". Renewal activity detected");
        } else {
            out.append(". No renewal activity detected");
        }
        append_history(&mut out, history);
        bound_reasoning(out)
    }
}

/// Appends the history in words.
fn append_history(out: &mut String, history: Option<&RenewalHistory>)
    ensures
        final(out)@ == old(out)@ + history_text(history_of(history)),
{
    match history {
        None => out.append(". No historical renewal data available"),
        Some(h) => {
            if h.previous_renewal_days.len() > 0 {
                append_average(out, &h.previous_renewal_days);
            }
            if h.past_failures > 0 {
                out.append(". ");
                push_decimal(out, h.past_failures as u64);
                out.append(" past renewal failures");
            }
            proof {
                assert(final(out)@ =~= old(out)@ + history_text(history_of(history)));
            }
        },
    }
}

/// Appends the average of past renewals in words.
fn append_average(out: &mut String, days: &Vec<i32>)
    requires
        days.len() > 0,
    ensures
        final(out)@ == old(out)@ + average_text(days@),
{
    let sum: i128 = sum_days(days);
    proof {
        lemma_total_bounds(days@);
    }
    out.append(". Historical avg renewal: ");
    if sum < 0 {
        out.append("-");
        push_decimal(out, divide_rounded((-sum) as u128, days.len()));
    } else {
        push_decimal(out, divide_rounded(sum as u128, days.len()));
    }
    out.append(" days before expiry");
    proof {
        assert(final(out)@ =~= old(out)@ + average_text(days@));
    }
}

proof fn lemma_total_bounds(days: Seq<i32>)
    ensures
        -0x8000_0000 * days.len() <= total(days) <= 0x8000_0000 * days.len(),
    decreases days.len(),
{
    if days.len() > 0 {
        lemma_total_bounds(days.drop_last());
    }
}

/// A quotient rounded to the nearest whole number, and to the even one in the middle.
fn divide_rounded(dividend: u128, divisor: usize) -> (r: u64)
    requires
        divisor > 0,
        dividend <= 0x8000_0000 * divisor,
    ensures
        r == rounded(dividend as nat, divisor as nat),
{
    let by: u128 = divisor as u128;
    let below: u128 = dividend / by;
    let rest: u128 = dividend % by;
    proof {
        assert(below <= 0x8000_0000) by (nonlinear_arith)
            requires
                below == dividend / by,
                dividend <= 0x8000_0000 * by,
                by > 0,
        ;
        assert(rest < by) by (nonlinear_arith)
            requires
                rest == dividend % by,
                by > 0,
        ;
    }
    if 2 * rest < by || (2 * rest == by && below % 2 == 0) {
        below as u64
    } else {
        (below + 1) as u64
    }
}

// ---------------------------------------------------------------------------
// Laws
// ---------------------------------------------------------------------------

/// The severity of a prediction is medium exactly where at least 14 days are left, high exactly
/// where 1 to 13 days are left and a renewal is under way, and critical in all other cases.
pub proof fn severity_by_days_left(days: int, activity: bool)
    ensures
        renewal_severity(days, activity) is Medium <==> days >= 14,
        renewal_severity(days, activity) is High <==> 1 <= days <= 13 && activity,
        renewal_severity(days, activity) is Critical <==> days <= 0 || (days <= 13 && !activity),
{
}

/// The sum over two lists is that of their sums, and the sum of one number is that number.
pub proof fn total_adds_up(a: Seq<i32>, b: Seq<i32>, day: i32)
    ensures
        total(a + b) == total(a) + total(b),
        total(seq![day]) == day,
        total(Seq::<i32>::empty()) == 0,
    decreases b.len(),
{
    assert(seq![day].drop_last() =~= Seq::<i32>::empty());
    reveal_with_fuel(total, 2);
    if b.len() == 0 {
        assert(a + b =~= a);
    } else {
        assert((a + b).drop_last() =~= a + b.drop_last());
        total_adds_up(a, b.drop_last(), day);
    }
}

/// A renewal is under way exactly where the certificate has not expired, earlier renewals are
/// known, none failed, and on average they came earlier than now.
pub proof fn activity_needs_earlier_renewals(history: Option<RenewalHistory>, days: int)
    ensures
        renewal_activity(history, days) <==> {
            &&& days >= 1
            &&& history matches Some(h) && {
                let count = h.previous_renewal_days@.len();
                &&& count >= 1
                &&& h.past_failures == 0
                &&& days * count < total(h.previous_renewal_days@)
            }
        },
        history is None ==> !renewal_activity(history, days),
{
}

/// Without history the probability of failure is one half 30 days before expiry and earlier,
/// rises by 15 thousandths each day after that, and stays once the certificate has expired.
pub proof fn probability_rises_daily_without_history(days: int, activity: bool)
    ensures
        days >= 30 ==> failure_thousandths(None, days, activity) == 500,
        1 <= days <= 30 ==> failure_thousandths(None, days - 1, activity) == failure_thousandths(
            None,
            days,
            activity,
        ) + 15,
        days <= 0 ==> failure_thousandths(None, days, activity) == 950,
{
}

/// With history the probability of failure is made up of what speaks against the renewal, up to
/// certainty: 200 thousandths that no renewal is under way, on top of 200; 100 for each of up to
/// three failures; 300 that the issuer takes longer than there is time, or 400 that the
/// certificate has expired; and 8 for each day less than 30.
pub proof fn probability_with_history_adds_up(h: RenewalHistory, days: int, activity: bool)
    ensures
        ({
            let p = failure_thousandths(Some(h), days, activity);
            let idle: int = if activity {
                0
            } else {
                200
            };
            let failures: int = if h.past_failures <= 3 {
                h.past_failures as int
            } else {
                3
            };
            let late: int = if days <= 0 {
                400
            } else if h.issuer_avg_response_days > days {
                300
            } else {
                0
            };
            let passed: int = if days >= 30 {
                0
            } else if days <= 0 {
                30
            } else {
                30 - days
            };
            let sum = 200 + idle + 100 * failures + late + 8 * passed;
            &&& sum <= 1000 ==> p == sum
            &&& sum >= 1000 ==> p == 1000
        }),
{
}

/// A quotient is rounded to the nearest whole number: it is off by at most one half, and by
/// exactly one half only where it is even.
pub proof fn rounding_is_to_nearest_even(dividend: nat, divisor: nat)
    requires
        divisor > 0,
    ensures
        -(divisor as int) <= 2 * (rounded(dividend, divisor) * divisor - dividend) <= divisor,
        2 * (rounded(dividend, divisor) * divisor - dividend) == divisor || 2 * (rounded(
            dividend,
            divisor,
        ) * divisor - dividend) == -(divisor as int) ==> rounded(dividend, divisor) % 2 == 0,
{
    let below = dividend / divisor;
    let rest = dividend % divisor;
    vstd::arithmetic::div_mod::lemma_fundamental_div_mod(dividend as int, divisor as int);
    vstd::arithmetic::div_mod::lemma_mod_bound(dividend as int, divisor as int);
    assert(below * divisor == divisor * below) by (nonlinear_arith);
    assert((below + 1) * divisor == divisor * below + divisor) by (nonlinear_arith);
}

/// At 30 days or less before expiry, and after it, there is a prediction; earlier there is none.
pub proof fn window_is_thirty_days(cert: CertificateMetadata, now: Timestamp)
    ensures
        in_prediction_window(cert, now) <==> cert.not_after.at() <= now.at() + 30
            * 86_400_000_000_000,
{
}

/// A prediction is about its certificate and instant, tells the whole days left, and takes its
/// probability, severity and activity from them and from the history.
pub proof fn prediction_is_about_its_certificate(
    r: PredictionResult,
    cert: CertificateMetadata,
    history: Option<RenewalHistory>,
    now: Timestamp,
    threshold: int,
)
    requires
        is_prediction(r, cert, history, now, threshold),
    ensures
        ({
            let left = cert.not_after.at() - now.at();
            let p = r.prediction;
            let days = p.days_until_expiry as int;
            &&& p.cert_fingerprint == cert.fingerprint
            &&& p.last_evaluated == now
            &&& left >= 0 ==> days * 86_400_000_000_000 <= left < (days + 1) * 86_400_000_000_000
            &&& left <= 0 ==> (days - 1) * 86_400_000_000_000 < left <= days * 86_400_000_000_000
            &&& p.renewal_activity_detected == renewal_activity(history, days)
            &&& p.failure_probability == failure_thousandths(
                history,
                days,
                p.renewal_activity_detected,
            )
            &&& p.severity is Medium <==> days >= 14
            &&& p.severity is High <==> 1 <= days <= 13 && p.renewal_activity_detected
            &&& p.severity is Critical <==> days <= 0 || (days <= 13
                && !p.renewal_activity_detected)
        }),
{
    crate::time::days_and_minutes_of_a_span(cert.not_after.at() - now.at());
}

/// A prediction says how much time is left or has passed, how probable a failure is, whether a
/// renewal is under way, and what is known of earlier ones.
pub proof fn prediction_tells_its_grounds(
    r: PredictionResult,
    cert: CertificateMetadata,
    history: Option<RenewalHistory>,
    now: Timestamp,
    threshold: int,
)
    requires
        is_prediction(r, cert, history, now, threshold),
    ensures
        ({
            let p = r.prediction;
            let days = p.days_until_expiry as int;
            p.reasoning@ == bounded(
                (if days >= 1 {
                    "Certificate expires in "@ + signed_decimal(days) + " days"@
                } else {
                    "Certificate expired "@ + signed_decimal(-days) + " days ago"@
                }) + ". Failure probability: "@ + decimal(percent(p.failure_probability as nat))
                    + "%"@ + (if p.renewal_activity_detected {
                    ". Renewal activity detected"@
                } else {
                    ". No renewal activity detected"@
                }) + history_text(history),
            )
        }),
{
}

/// What is known of earlier renewals is their average, where there were any, and the number of
/// failures, where there were any.
pub proof fn history_in_words(h: RenewalHistory, average: int)
    ensures
        history_text(None) == ". No historical renewal data available"@,
        h.previous_renewal_days@.len() == 0 && h.past_failures == 0 ==> history_text(Some(h)).len()
            == 0,
        h.previous_renewal_days@.len() == 0 && h.past_failures > 0 ==> history_text(Some(h)) == ". "@
            + decimal(h.past_failures as nat) + " past renewal failures"@,
        h.previous_renewal_days@.len() > 0 && h.past_failures == 0 && average >= 0 && total(
            h.previous_renewal_days@,
        ) == average * h.previous_renewal_days@.len() ==> history_text(Some(h))
            == ". Historical avg renewal: "@ + decimal(average as nat) + " days before expiry"@,
        h.previous_renewal_days@.len() > 0 && h.past_failures > 0 && average >= 0 && total(
            h.previous_renewal_days@,
        ) == average * h.previous_renewal_days@.len() ==> history_text(Some(h))
            == ". Historical avg renewal: "@ + decimal(average as nat) + " days before expiry"@ + (
        ". "@ + decimal(h.past_failures as nat) + " past renewal failures"@),
{
    let empty = Seq::<char>::empty();
    let words = ". "@ + decimal(h.past_failures as nat) + " past renewal failures"@;
    assert(empty + words =~= words);
    let count = h.previous_renewal_days@.len();
    if count > 0 && average >= 0 && total(h.previous_renewal_days@) == average * count {
        let sum = total(h.previous_renewal_days@);
        assert(sum >= 0) by (nonlinear_arith)
            requires
                sum == average * count,
                average >= 0,
                count > 0,
        ;
        vstd::arithmetic::div_mod::lemma_div_multiples_vanish(average, count as int);
        vstd::arithmetic::div_mod::lemma_mod_multiples_basic(average, count as int);
        assert(average * count == count * average) by (nonlinear_arith);
        assert(sum / (count as int) == average);
        assert(sum % (count as int) == 0);
        assert(rounded(sum as nat, count) == average);
        let told = ". Historical avg renewal: "@ + decimal(average as nat) + " days before expiry"@;
        assert(average_text(h.previous_renewal_days@) =~= told);
        assert(told + empty =~= told);
    }
}

/// A directive of a prediction is about the certificate and made at its instant. An expired
/// certificate is alerted as critical, with the number of days in front of the reasoning; a
/// certificate to renew gets the severity and the reasoning of the prediction. Either is cut at
/// 500 characters.
pub proof fn directive_follows_prediction(
    fingerprint: Seq<u8>,
    days: int,
    thousandths: int,
    threshold: int,
    severity: Severity,
    reasoning: Seq<char>,
    now: Timestamp,
)
    ensures
        ({
            let directive = renewal_directive(
                fingerprint,
                days,
                thousandths,
                threshold,
                severity,
                reasoning,
                now,
            );
            let notice = "Certificate expired "@ + signed_decimal(-days)
                + " days ago without renewal. "@ + reasoning;
            &&& directive is Some <==> days <= 0 || thousandths >= threshold
            &&& directive matches Some(d) ==> {
                &&& d.cert_fingerprint == fingerprint
                &&& d.created_at == now
                &&& d.source_anomaly is None
                &&& d.attempt_count == 0
                &&& days <= 0 ==> d.action_type is Alert && d.severity is Critical && d.reasoning
                    == (if notice.len() <= 500 {
                    notice
                } else {
                    notice.take(500)
                })
                &&& days > 0 ==> d.action_type is Renew && d.severity == severity && d.reasoning
                    == (if reasoning.len() <= 500 {
                    reasoning
                } else {
                    reasoning.take(500)
                })
            }
        }),
{
}

/// What is known of earlier renewals is the same behind a reference.
pub proof fn history_behind_a_reference(history: Option<&RenewalHistory>)
    ensures
        history is None <==> history_of(history) is None,
        history matches Some(h) ==> history_of(history) == Some(*h),
{
}

/// The average of earlier renewals is told to the nearest whole day, to the even one in the
/// middle, and with a sign where they came after expiry.
pub proof fn average_is_told_to_the_nearest_day(days: Seq<i32>) -> (told: nat)
    requires
        days.len() > 0,
    ensures
        total(days) >= 0 ==> {
            &&& average_text(days) == ". Historical avg renewal: "@ + decimal(told)
                + " days before expiry"@
            &&& -(days.len() as int) <= 2 * (told * days.len() - total(days)) <= days.len()
            &&& 2 * (told * days.len() - total(days)) == days.len() || 2 * (told * days.len()
                - total(days)) == -(days.len() as int) ==> told % 2 == 0
        },
        total(days) < 0 ==> {
            &&& average_text(days) == ". Historical avg renewal: "@ + ("-"@ + decimal(told))
                + " days before expiry"@
            &&& -(days.len() as int) <= 2 * (told * days.len() + total(days)) <= days.len()
            &&& 2 * (told * days.len() + total(days)) == days.len() || 2 * (told * days.len()
                + total(days)) == -(days.len() as int) ==> told % 2 == 0
        },
{
    let sum = total(days);
    let size: nat = if sum < 0 {
        (-sum) as nat
    } else {
        sum as nat
    };
    rounding_is_to_nearest_even(size, days.len());
    rounded(size, days.len())
}

} // verus!
