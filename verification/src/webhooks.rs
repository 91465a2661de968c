//! Notification of outside services about actions: the payload, the retry schedule and
//! the reading of responses.

use vstd::arithmetic::power2::pow2;
use vstd::prelude::*;
use crate::config::WebhookConfig;
use crate::hex::{hex, hex_encode};
use crate::text::{clone_text, decimal, push_decimal};
use crate::time::{in_calendar, rfc3339_text, Timestamp, NANOS_PER_SEC};

verus! {

/// An event to notify outside services about.
#[derive(Clone, Debug)]
pub struct WebhookEvent {
    /// Links the event to its audit trail.
    pub correlation_id: String,
    /// Fingerprint of the certificate in hexadecimal.
    pub cert_fingerprint: String,
    /// The action: alert, renew, protect or isolate.
    pub action_type: String,
    /// The severity: low, medium, high or critical.
    pub severity: String,
    /// When, in ISO 8601 notation.
    pub timestamp: String,
    /// Why, in words.
    pub reasoning: Option<String>,
}

/// What is sent to an endpoint.
#[derive(Clone, Debug)]
pub struct WebhookPayload {
    /// The sending system.
    pub source: String,
    /// Version of the payload's format.
    pub version: String,
    pub correlation_id: String,
    pub cert_fingerprint: String,
    pub action_type: String,
    pub severity: String,
    pub timestamp: String,
    pub reasoning: Option<String>,
}

impl WebhookPayload {
    /// The payload of an event: the event's fields under the name and version of the
    /// sending system.
    pub fn from_event(event: &WebhookEvent) -> (r: Self)
        ensures
            r.source@ == "tlapix"@,
            r.version@ == "0.1.0"@,
            r.correlation_id == event.correlation_id,
            r.cert_fingerprint == event.cert_fingerprint,
            r.action_type == event.action_type,
            r.severity == event.severity,
            r.timestamp == event.timestamp,
            r.reasoning == event.reasoning,
    {
        WebhookPayload {
            source: String::from_str("tlapix"),
            version: String::from_str("0.1.0"),
            correlation_id: event.correlation_id.clone(),
            cert_fingerprint: event.cert_fingerprint.clone(),
            action_type: event.action_type.clone(),
            severity: event.severity.clone(),
            timestamp: event.timestamp.clone(),
            reasoning: clone_text(&event.reasoning),
        }
    }
}

/// What became of the delivery to one endpoint.
#[derive(Clone, Debug)]
pub struct WebhookDeliveryResult {
    pub endpoint: String,
    /// Whether the endpoint accepted the payload.
    pub success: bool,
    /// Attempts made, from 1 to one more than the configured retries.
    pub attempts: u16,
    /// Why the last attempt failed.
    pub error: Option<String>,
}

/// What to do after an attempt.
#[derive(Clone, Debug)]
pub enum DeliveryStep {
    /// Wait, and attempt once more.
    Retry { after_secs: u64 },
    /// The delivery is over.
    Done { result: WebhookDeliveryResult },
}

/// A delivery to one endpoint under way.
#[derive(Clone, Debug)]
pub struct Delivery {
    pub endpoint: String,
    /// Attempts to make in all.
    pub max_attempts: u16,
    /// Wait before the first retry.
    pub retry_base_secs: u64,
    /// The attempt that comes next or is being made, counted from 1.
    pub attempt: u16,
}

/// The seconds to wait after attempt `attempt` failed.
pub open spec fn backoff_secs(base: int, attempt: int) -> int {
    base * pow2((attempt - 1) as nat)
}

/// The wait after attempt `attempt`, and the power of two in it, can be represented.
pub open spec fn backoff_fits(base: int, attempt: int) -> bool {
    attempt <= 64 && backoff_secs(base, attempt) <= u64::MAX
}

impl Delivery {
    /// The attempt lies between the first and the last.
    pub open spec fn valid(self) -> bool {
        1 <= self.attempt <= self.max_attempts
    }

    /// A delivery that makes one attempt more than there are retries.
    pub fn start(config: &WebhookConfig) -> (r: Self)
        ensures
            r.valid(),
            r.endpoint == config.endpoint,
            r.max_attempts == config.retry_max + 1,
            r.retry_base_secs == config.retry_base_secs,
            r.attempt == 1,
            is_started(r, *config),
    {
        Delivery {
            endpoint: config.endpoint.clone(),
            max_attempts: config.retry_max as u16 + 1,
            retry_base_secs: config.retry_base_secs,
            attempt: 1,
        }
    }

    /// The seconds to wait should the present attempt fail: the base, doubled once per
    /// earlier attempt. `None` where that cannot be represented.
    pub fn backoff(&self) -> (r: Option<u64>)
        requires
            self.valid(),
        ensures
            r is Some <==> backoff_fits(self.retry_base_secs as int, self.attempt as int),
            r matches Some(s) ==> s == backoff_secs(
                self.retry_base_secs as int,
                self.attempt as int,
            ),
    {
        if self.attempt > 64 {
            return None;
        }
        let mut wait: u64 = self.retry_base_secs;
        let mut k: u16 = 1;
        proof {
            vstd::arithmetic::power2::lemma2_to64();
            assert(self.retry_base_secs * pow2(0) == self.retry_base_secs) by (nonlinear_arith)
                requires
                    pow2(0) == 1,
            ;
        }
        while k < self.attempt
            invariant
                1 <= k <= self.attempt <= 64,
                wait == backoff_secs(self.retry_base_secs as int, k as int),
            decreases self.attempt - k,
        {
            proof {
                vstd::arithmetic::power2::lemma_pow2_unfold(k as nat);
                assert(self.retry_base_secs * (2 * pow2((k - 1) as nat)) == 2 * (
                self.retry_base_secs * pow2((k - 1) as nat))) by (nonlinear_arith);
            }
            if wait > u64::MAX / 2 {
                proof {
                    lemma_backoff_grows(
                        self.retry_base_secs as int,
                        (k + 1) as int,
                        self.attempt as int,
                    );
                }
                return None;
            }
            wait = wait * 2;
            k += 1;
        }
        Some(wait)
    }

    /// Takes the outcome of the present attempt. A success ends the delivery, and so does
    /// the failure of the last attempt; any other failure leads to the next attempt after
    /// a wait that doubles each time.
    pub fn report(&mut self, outcome: Result<(), String>) -> (r: DeliveryStep)
        requires
            old(self).valid(),
            outcome is Err && old(self).attempt < old(self).max_attempts ==> backoff_fits(
                old(self).retry_base_secs as int,
                old(self).attempt as int,
            ),
        ensures
            final(self).valid(),
            r == report_step(*old(self), outcome).1,
            *final(self) == report_step(*old(self), outcome).0,
    {
        match outcome {
            Ok(()) => DeliveryStep::Done {
                result: WebhookDeliveryResult {
                    endpoint: self.endpoint.clone(),
                    success: true,
                    attempts: self.attempt,
                    error: None,
                },
            },
            Err(error) => {
                if self.attempt < self.max_attempts {
                    let wait = self.backoff();
                    match wait {
                        Some(after_secs) => {
                            self.attempt = self.attempt + 1;
                            DeliveryStep::Retry { after_secs }
                        },
                        None => {
                            proof {
                                assert(false);
                            }
                            DeliveryStep::Retry { after_secs: 0 }
                        },
                    }
                } else {
                    DeliveryStep::Done {
                        result: WebhookDeliveryResult {
                            endpoint: self.endpoint.clone(),
                            success: false,
                            attempts: self.max_attempts,
                            error: Some(error),
                        },
                    }
                }
            },
        }
    }
}

proof fn lemma_backoff_grows(base: int, a: int, b: int)
    requires
        0 <= base,
        1 <= a <= b,
    ensures
        backoff_secs(base, a) <= backoff_secs(base, b),
    decreases b - a,
{
    if a < b {
        lemma_backoff_grows(base, a, b - 1);
        vstd::arithmetic::power2::lemma_pow2_unfold((b - 1) as nat);
        assert(base * (2 * pow2((b - 2) as nat)) >= base * pow2((b - 2) as nat)) by (nonlinear_arith)
            requires
                0 <= base,
        ;
    }
}

/// The delivery and the step after the present attempt had the given outcome.
pub open spec fn report_step(d: Delivery, outcome: Result<(), String>) -> (Delivery, DeliveryStep) {
    match outcome {
        Ok(_) => (
            d,
            DeliveryStep::Done {
                result: WebhookDeliveryResult {
                    endpoint: d.endpoint,
                    success: true,
                    attempts: d.attempt,
                    error: None,
                },
            },
        ),
        Err(error) => if d.attempt < d.max_attempts {
            (
                Delivery { attempt: (d.attempt + 1) as u16, ..d },
                DeliveryStep::Retry {
                    after_secs: backoff_secs(d.retry_base_secs as int, d.attempt as int) as u64,
                },
            )
        } else {
            (
                d,
                DeliveryStep::Done {
                    result: WebhookDeliveryResult {
                        endpoint: d.endpoint,
                        success: false,
                        attempts: d.max_attempts,
                        error: Some(error),
                    },
                },
            )
        },
    }
}

/// The result of a delivery whose attempts, from the present one on, have the given
/// outcomes; `None` where the outcomes run out before the delivery is over.
pub open spec fn delivery_result(d: Delivery, outcomes: Seq<Result<(), String>>) -> Option<
    WebhookDeliveryResult,
>
    decreases outcomes.len(),
{
    if outcomes.len() == 0 {
        None
    } else {
        match report_step(d, outcomes[0]) {
            (_, DeliveryStep::Done { result }) => Some(result),
            (next, DeliveryStep::Retry { .. }) => delivery_result(next, outcomes.drop_first()),
        }
    }
}

/// A delivery succeeds exactly where one of its attempts does, and then counts the
/// attempts up to the first success.
pub proof fn delivery_succeeds_at_first_success(
    d: Delivery,
    outcomes: Seq<Result<(), String>>,
    k: int,
)
    requires
        d.valid(),
        0 <= k < outcomes.len(),
        d.attempt + k <= d.max_attempts,
        outcomes[k] is Ok,
        forall|j: int| 0 <= j < k ==> (#[trigger] outcomes[j]) is Err,
    ensures
        delivery_result(d, outcomes) == Some(
            (WebhookDeliveryResult {
                endpoint: d.endpoint,
                success: true,
                attempts: (d.attempt + k) as u16,
                error: None,
            }),
        ),
    decreases k,
{
    if k > 0 {
        let rest = outcomes.drop_first();
        assert(outcomes[0] is Err);
        assert forall|j: int| 0 <= j < k - 1 implies (#[trigger] rest[j]) is Err by {
            assert(rest[j] == outcomes[j + 1]);
        }
        assert(rest[k - 1] == outcomes[k]);
        delivery_succeeds_at_first_success(report_step(d, outcomes[0]).0, rest, k - 1);
    }
}

/// A delivery fails where all its attempts do: it makes every attempt and keeps the last
/// error.
pub proof fn delivery_fails_after_all_attempts(d: Delivery, outcomes: Seq<Result<(), String>>)
    requires
        d.valid(),
        outcomes.len() > d.max_attempts - d.attempt,
        forall|j: int|
            0 <= j <= d.max_attempts - d.attempt ==> (#[trigger] outcomes[j]) is Err,
    ensures
        delivery_result(d, outcomes) == Some(
            (WebhookDeliveryResult {
                endpoint: d.endpoint,
                success: false,
                attempts: d.max_attempts,
                error: Some(outcomes[d.max_attempts - d.attempt]->Err_0),
            }),
        ),
    decreases d.max_attempts - d.attempt,
{
    assert(outcomes[0] is Err);
    if d.attempt < d.max_attempts {
        let rest = outcomes.drop_first();
        let next = report_step(d, outcomes[0]).0;
        assert forall|j: int|
            0 <= j <= next.max_attempts - next.attempt implies (#[trigger] rest[j]) is Err by {
            assert(rest[j] == outcomes[j + 1]);
        }
        delivery_fails_after_all_attempts(next, rest);
    }
}

/// How a request can fail before there is a response.
#[derive(Clone, Copy, Debug, PartialEq, Eq, Structural)]
pub enum TransportFailure {
    /// No response in time.
    Timeout,
    /// No connection.
    Connect,
    /// Anything else.
    Other,
}

/// The text of a failure before there is a response.
pub open spec fn transport_error_text(
    failure: TransportFailure,
    timeout_secs: u64,
    detail: Seq<char>,
) -> Seq<char> {
    match failure {
        TransportFailure::Timeout => "request timed out after "@ + decimal(timeout_secs as nat)
            + "s"@,
        TransportFailure::Connect => "connection failed: "@ + detail,
        TransportFailure::Other => "request failed: "@ + detail,
    }
}

/// The text of a failure before there is a response.
pub fn transport_error(failure: TransportFailure, timeout_secs: u64, detail: &str) -> (r: String)
    ensures
        r@ == transport_error_text(failure, timeout_secs, detail@),
{
    match failure {
        TransportFailure::Timeout => {
            let mut out = String::from_str("request timed out after ");
            push_decimal(&mut out, timeout_secs);
            out.append("s");
            out
        },
        TransportFailure::Connect => {
            let mut out = String::from_str("connection failed: ");
            out.append(detail);
            out
        },
        TransportFailure::Other => {
            let mut out = String::from_str("request failed: ");
            out.append(detail);
            out
        },
    }
}

/// Whether a response accepts the payload: its status lies from 200 up to 299. The error
/// names the status and its standard reason, where there is one.
pub fn response_outcome(status: u16, reason: Option<&str>) -> (r: Result<(), String>)
    ensures
        r is Ok <==> 200 <= status < 300,
        r is Ok <==> accepts(status),
        r matches Err(e) ==> e@ == "non-2xx response: "@ + decimal(status as nat) + " "@ + (
        match reason {
            Some(text) => text@,
            None => "Unknown"@,
        }),
{
    if 200 <= status && status < 300 {
        Ok(())
    } else {
        let mut out = String::from_str("non-2xx response: ");
        push_decimal(&mut out, status as u64);
        out.append(" ");
        match reason {
            Some(text) => out.append(text),
            None => out.append("Unknown"),
        }
        Err(out)
    }
}

/// The endpoints to notify.
#[derive(Clone, Debug)]
pub struct WebhookDispatcher {
    pub configs: Vec<WebhookConfig>,
}

impl WebhookDispatcher {
    /// A dispatcher for the given endpoints.
    pub fn new(configs: Vec<WebhookConfig>) -> (r: Self)
        ensures
            r.configs == configs,
    {
        WebhookDispatcher { configs }
    }

    /// The event of an action at a given instant.
    pub fn create_event_at(
        correlation_id: &str,
        cert_fingerprint: &[u8; 32],
        action_type: &str,
        severity: &str,
        reasoning: Option<&str>,
        now: &Timestamp,
    ) -> (r: WebhookEvent)
        ensures
            event_says(r, correlation_id@, cert_fingerprint@, action_type@, severity@, reasoning),
            r.timestamp@ == rfc3339_text(
                now.at() / (NANOS_PER_SEC as int),
                now.at() % (NANOS_PER_SEC as int),
            ),
    {
        let words: Option<String> = match reasoning {
            Some(text) => Some(String::from_str(text)),
            None => None,
        };
        WebhookEvent {
            correlation_id: String::from_str(correlation_id),
            cert_fingerprint: hex_encode(cert_fingerprint.as_slice()),
            action_type: String::from_str(action_type),
            severity: String::from_str(severity),
            timestamp: now.to_rfc3339(),
            reasoning: words,
        }
    }

    /// The event of an action at the present instant.
    pub fn create_event(
        correlation_id: &str,
        cert_fingerprint: &[u8; 32],
        action_type: &str,
        severity: &str,
        reasoning: Option<&str>,
    ) -> (r: WebhookEvent)
        ensures
            event_says(r, correlation_id@, cert_fingerprint@, action_type@, severity@, reasoning),
            exists|secs: int, nanos: int|
                in_calendar(secs, nanos) && r.timestamp@ == #[trigger] rfc3339_text(secs, nanos),
    {
        let now = Timestamp::now();
        let secs: i64 = now.timestamp();
        let nanos: u32 = now.subsec_nanos();
        let event = WebhookDispatcher::create_event_at(
            correlation_id,
            cert_fingerprint,
            action_type,
            severity,
            reasoning,
            &now,
        );
        assert(event.timestamp@ == rfc3339_text(secs as int, nanos as int));
        event
    }
}

/// The event names the given action, with the fingerprint in hexadecimal.
pub open spec fn event_says(
    event: WebhookEvent,
    correlation_id: Seq<char>,
    cert_fingerprint: Seq<u8>,
    action_type: Seq<char>,
    severity: Seq<char>,
    reasoning: Option<&str>,
) -> bool {
    &&& event.correlation_id@ == correlation_id
    &&& event.cert_fingerprint@ == hex(cert_fingerprint)
    &&& event.action_type@ == action_type
    &&& event.severity@ == severity
    &&& match (event.reasoning, reasoning) {
        (Some(a), Some(b)) => a@ == b@,
        (None, None) => true,
        _ => false,
    }
}

// ---------------------------------------------------------------------------
// Laws
// ---------------------------------------------------------------------------

/// The wait after the first failure is the configured one, and each further failure doubles it.
pub proof fn wait_doubles_with_each_failure(base: int, attempt: int)
    requires
        attempt >= 1,
    ensures
        backoff_secs(base, 1) == base,
        backoff_secs(base, attempt + 1) == 2 * backoff_secs(base, attempt),
{
    vstd::arithmetic::power2::lemma2_to64();
    vstd::arithmetic::power2::lemma_pow2_unfold(attempt as nat);
    let p = pow2((attempt - 1) as nat);
    assert(base * (2 * p) == 2 * (base * p)) by (nonlinear_arith);
    assert(base * 1 == base);
}

/// A success ends a delivery with the number of the attempt; a failure leads to the next attempt
/// while there is one, and ends the delivery with its error after the last.
pub proof fn each_attempt_decides(d: Delivery, outcome: Result<(), String>)
    requires
        d.valid(),
    ensures
        ({
            let (next, step) = report_step(d, outcome);
            &&& step is Retry <==> outcome is Err && d.attempt < d.max_attempts
            &&& step matches DeliveryStep::Retry { after_secs } ==> {
                &&& next.attempt == d.attempt + 1
                &&& 0 <= backoff_secs(d.retry_base_secs as int, d.attempt as int) <= u64::MAX
                    ==> after_secs == backoff_secs(d.retry_base_secs as int, d.attempt as int)
            }
            &&& next.max_attempts == d.max_attempts
            &&& next.retry_base_secs == d.retry_base_secs
            &&& next.endpoint == d.endpoint
            &&& step matches DeliveryStep::Done { result } ==> {
                &&& next.attempt == d.attempt
                &&& result.endpoint == d.endpoint
                &&& result.success <==> outcome is Ok
                &&& result.attempts == d.attempt
                &&& result.error is Some <==> outcome is Err
                &&& outcome matches Err(error) ==> result.error == Some(error)
            }
        }),
{
}

/// The text of a failure names its kind: the time that was waited, or what went wrong.
pub proof fn failure_names_its_kind(timeout_secs: u64, detail: Seq<char>)
    ensures
        transport_error_text(TransportFailure::Timeout, timeout_secs, detail)
            == "request timed out after "@ + decimal(timeout_secs as nat) + "s"@,
        transport_error_text(TransportFailure::Connect, timeout_secs, detail)
            == "connection failed: "@ + detail,
        transport_error_text(TransportFailure::Other, timeout_secs, detail) == "request failed: "@
            + detail,
{
}

/// An event tells what it was made of, with the fingerprint as 64 hexadecimal digits.
pub proof fn event_tells_what_happened(
    event: WebhookEvent,
    correlation_id: Seq<char>,
    cert_fingerprint: Seq<u8>,
    action_type: Seq<char>,
    severity: Seq<char>,
    reasoning: Option<&str>,
)
    requires
        cert_fingerprint.len() == 32,
        event_says(event, correlation_id, cert_fingerprint, action_type, severity, reasoning),
    ensures
        event.correlation_id@ == correlation_id,
        event.cert_fingerprint@ == hex(cert_fingerprint),
        event.cert_fingerprint@.len() == 64,
        event.action_type@ == action_type,
        event.severity@ == severity,
        event.reasoning is Some <==> reasoning is Some,
        event.reasoning matches Some(text) ==> text@ == reasoning->0@,
{
    crate::hex::hex_doubles_length(cert_fingerprint);
}

/// A wait can be represented exactly where its seconds can; one of no seconds at all, for 64
/// attempts.
pub proof fn wait_can_be_represented(base: int, attempt: int)
    requires
        base >= 0,
        attempt >= 1,
    ensures
        base > 0 ==> (backoff_fits(base, attempt) <==> backoff_secs(base, attempt) <= u64::MAX),
        base == 0 ==> (backoff_fits(base, attempt) <==> attempt <= 64),
{
    vstd::arithmetic::power2::lemma2_to64();
    if attempt > 64 {
        lemma_backoff_grows(base, 65, attempt);
        assert(pow2(64) == 0x1_0000_0000_0000_0000);
        assert(base > 0 ==> base * pow2(64) >= pow2(64)) by (nonlinear_arith)
            requires
                base >= 0,
                pow2(64) >= 0,
        ;
    }
    if base == 0 {
        assert(base * pow2((attempt - 1) as nat) == 0) by (nonlinear_arith)
            requires
                base == 0,
        ;
    }
}

/// The status of a response accepts the payload.
pub open spec fn accepts(status: u16) -> bool {
    200 <= status < 300
}

/// A response accepts the payload exactly where its status is of the second hundred, which is
/// that of success.
pub proof fn success_is_the_second_hundred(status: u16)
    ensures
        accepts(status) <==> status / 100 == 2,
{
}

/// The delivery to a configured endpoint has not made any attempt yet.
pub open spec fn is_started(d: Delivery, config: WebhookConfig) -> bool {
    &&& d.endpoint == config.endpoint
    &&& d.max_attempts == config.retry_max + 1
    &&& d.retry_base_secs == config.retry_base_secs
    &&& d.attempt == 1
}

/// An endpoint that never accepts gets one request and all configured retries, and the last error
/// is kept. The wait after the first failure is the configured one.
pub proof fn configured_retries_are_made(
    d: Delivery,
    config: WebhookConfig,
    outcomes: Seq<Result<(), String>>,
)
    requires
        is_started(d, config),
        outcomes.len() == config.retry_max + 1,
        forall|j: int| 0 <= j < outcomes.len() ==> (#[trigger] outcomes[j]) is Err,
    ensures
        delivery_result(d, outcomes) matches Some(result) && {
            &&& result.endpoint == config.endpoint
            &&& !result.success
            &&& result.attempts == config.retry_max + 1
            &&& result.error == Some(outcomes[config.retry_max as int]->Err_0)
        },
        config.retry_max > 0 ==> report_step(d, outcomes[0]).1 == (DeliveryStep::Retry {
            after_secs: config.retry_base_secs,
        }),
{
    delivery_fails_after_all_attempts(d, outcomes);
    wait_doubles_with_each_failure(config.retry_base_secs as int, 1);
}

} // verus!
