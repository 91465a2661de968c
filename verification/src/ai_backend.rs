//! Model-based detection of anomalies, with the rules as a fallback.
//!
//! Once the model fails, the rules alone are used from there on.

use vstd::prelude::*;
use crate::anomaly::{anomalies, anomaly_views, AnomalyDetector};
use crate::text::{decimal, led_in, push_decimal};
use crate::time::Timestamp;
use crate::types::{AnomalyType, AnomalyView, CertificateMetadata, Severity};

verus! {

/// Seconds that an inference may take where the configuration does not say.
pub const DEFAULT_TIMEOUT_SECS: u64 = 5;

/// How anomalies are detected.
#[derive(Clone, Debug, PartialEq)]
pub enum AnalyzerMode {
    /// By the model and by the rules.
    AiPowered,
    /// By the rules alone.
    RuleBasedFallback { reason: String },
}

/// A mode in words.
pub open spec fn mode_text(mode: AnalyzerMode) -> Seq<char> {
    match mode {
        AnalyzerMode::AiPowered => "AI-Powered"@,
        AnalyzerMode::RuleBasedFallback { reason } => "Rule-Based Fallback ("@ + reason@ + ")"@,
    }
}

impl AnalyzerMode {
    /// The mode in words.
    pub fn to_text(&self) -> (r: String)
        ensures
            r@ == mode_text(*self),
    {
        match self {
            AnalyzerMode::AiPowered => String::from_str("AI-Powered"),
            AnalyzerMode::RuleBasedFallback { reason } => {
                let mut out = String::from_str("Rule-Based Fallback (");
                out.append(reason.as_str());
                out.append(")");
                out
            },
        }
    }

    /// A copy of the mode.
    pub fn copy(&self) -> (r: AnalyzerMode)
        ensures
            r == *self,
    {
        match self {
            AnalyzerMode::AiPowered => AnalyzerMode::AiPowered,
            AnalyzerMode::RuleBasedFallback { reason } => AnalyzerMode::RuleBasedFallback {
                reason: reason.clone(),
            },
        }
    }
}

/// Why the model found nothing.
#[derive(Clone, Debug, PartialEq)]
pub enum AiBackendError {
    /// The rules alone are used.
    InFallbackMode,
    /// No model is loaded.
    NoSession,
    /// The inference took too long.
    Timeout,
    /// The inference failed.
    InferenceError(String),
}

impl AiBackendError {
    /// The error in words.
    pub fn message(&self) -> (r: String)
        ensures
            r@ == (match self {
                AiBackendError::InFallbackMode => "AI backend is in fallback mode"@,
                AiBackendError::NoSession => "No ONNX model session available"@,
                AiBackendError::Timeout => "AI inference timed out"@,
                AiBackendError::InferenceError(text) => "AI inference error: "@ + text@,
            }),
    {
        match self {
            AiBackendError::InFallbackMode => String::from_str("AI backend is in fallback mode"),
            AiBackendError::NoSession => String::from_str("No ONNX model session available"),
            AiBackendError::Timeout => String::from_str("AI inference timed out"),
            AiBackendError::InferenceError(text) => led_in("AI inference error: ", text.as_str()),
        }
    }
}

/// What became of an inference.
#[derive(Clone, Debug)]
pub enum InferenceOutcome {
    /// It found these anomalies.
    Completed { found: Vec<(AnomalyType, Severity)> },
    /// It failed.
    Failed { error: String },
    /// It took too long.
    TimedOut,
}

/// Why a model file that does not exist cannot be loaded.
pub fn model_not_found(path: &str) -> (r: String)
    ensures
        r@ == "Model file not found: "@ + path@,
{
    led_in("Model file not found: ", path)
}

/// The model, as far as decisions depend on it.
#[derive(Clone, Debug)]
pub struct AiBackend {
    /// Whether a model is loaded.
    pub session_loaded: bool,
    pub mode: AnalyzerMode,
    /// Seconds that an inference may take.
    pub timeout_secs: u64,
}

impl AiBackend {
    /// A backend whose model was loaded or could not be, which makes it fall back.
    pub fn new(load: Result<(), String>, timeout_secs: u64) -> (r: Self)
        ensures
            r.session_loaded == (load is Ok),
            r.timeout_secs == timeout_secs,
            match load {
                Ok(_) => r.mode is AiPowered,
                Err(error) => r.mode matches AnalyzerMode::RuleBasedFallback { reason } && reason@
                    == "Failed to load model: "@ + error@,
            },
    {
        match load {
            Ok(()) => AiBackend {
                session_loaded: true,
                mode: AnalyzerMode::AiPowered,
                timeout_secs,
            },
            Err(error) => {
                let reason = led_in("Failed to load model: ", error.as_str());
                AiBackend {
                    session_loaded: false,
                    mode: AnalyzerMode::RuleBasedFallback { reason },
                    timeout_secs,
                }
            },
        }
    }

    /// A backend without a model.
    pub fn fallback(reason: String) -> (r: Self)
        ensures
            !r.session_loaded,
            r.mode == (AnalyzerMode::RuleBasedFallback { reason }),
            r.timeout_secs == DEFAULT_TIMEOUT_SECS,
    {
        AiBackend {
            session_loaded: false,
            mode: AnalyzerMode::RuleBasedFallback { reason },
            timeout_secs: DEFAULT_TIMEOUT_SECS,
        }
    }

    /// Whether an inference is to be made. It is not in fallback mode; and without a loaded
    /// model the backend falls back.
    pub fn begin_evaluation(&mut self) -> (r: Result<(), AiBackendError>)
        ensures
            final(self).session_loaded == old(self).session_loaded,
            final(self).timeout_secs == old(self).timeout_secs,
            old(self).mode is RuleBasedFallback ==> final(self).mode == old(self).mode && r == Err::<
                (),
                _,
            >(AiBackendError::InFallbackMode),
            old(self).mode is AiPowered && old(self).session_loaded ==> final(self).mode
                == old(self).mode && r is Ok,
            old(self).mode is AiPowered && !old(self).session_loaded ==> r == Err::<(), _>(
                AiBackendError::NoSession,
            ) && (final(self).mode matches AnalyzerMode::RuleBasedFallback { reason } && reason@
                == "No model session available"@),
            is_begun(*old(self), *final(self), r),
    {
        match &self.mode {
            AnalyzerMode::RuleBasedFallback { .. } => {
                return Err(AiBackendError::InFallbackMode);
            },
            AnalyzerMode::AiPowered => {},
        }
        if !self.session_loaded {
            self.enter_fallback(String::from_str("No model session available"));
            return Err(AiBackendError::NoSession);
        }
        Ok(())
    }

    /// Takes the outcome of an inference. A failure makes the backend fall back.
    pub fn finish_evaluation(&mut self, outcome: InferenceOutcome) -> (r: Result<
        Vec<(AnomalyType, Severity)>,
        AiBackendError,
    >)
        ensures
            final(self).session_loaded == old(self).session_loaded,
            final(self).timeout_secs == old(self).timeout_secs,
            old(self).mode is RuleBasedFallback ==> final(self).mode == old(self).mode,
            match outcome {
                InferenceOutcome::Completed { found } => r == Ok::<_, AiBackendError>(found)
                    && final(self).mode == old(self).mode,
                InferenceOutcome::Failed { error } => r == Err::<Vec<(AnomalyType, Severity)>, _>(
                    AiBackendError::InferenceError(error),
                ) && (old(self).mode is AiPowered ==> (
                final(self).mode matches AnalyzerMode::RuleBasedFallback { reason } && reason@
                    == "Inference error: "@ + error@)),
                InferenceOutcome::TimedOut => r == Err::<Vec<(AnomalyType, Severity)>, _>(
                    AiBackendError::Timeout,
                ) && (old(self).mode is AiPowered ==> (
                final(self).mode matches AnalyzerMode::RuleBasedFallback { reason } && reason@
                    == "Inference timed out after "@ + decimal(old(self).timeout_secs as nat)
                    + " seconds"@)),
            },
            is_finished(*old(self), outcome, *final(self), r),
    {
        match outcome {
            InferenceOutcome::Completed { found } => Ok(found),
            InferenceOutcome::Failed { error } => {
                let reason = led_in("Inference error: ", error.as_str());
                self.enter_fallback(reason);
                Err(AiBackendError::InferenceError(error))
            },
            InferenceOutcome::TimedOut => {
                let mut reason = String::from_str("Inference timed out after ");
                push_decimal(&mut reason, self.timeout_secs);
                reason.append(" seconds");
                self.enter_fallback(reason);
                Err(AiBackendError::Timeout)
            },
        }
    }

    /// Falls back to the rules. The reason is that of the first time.
    pub fn enter_fallback(&mut self, reason: String)
        ensures
            *final(self) == (AiBackend {
                mode: if old(self).mode is RuleBasedFallback {
                    old(self).mode
                } else {
                    AnalyzerMode::RuleBasedFallback { reason }
                },
                ..*old(self)
            }),
    {
        let powered = match &self.mode {
            AnalyzerMode::AiPowered => true,
            AnalyzerMode::RuleBasedFallback { .. } => false,
        };
        if powered {
            self.mode = AnalyzerMode::RuleBasedFallback { reason };
        }
    }

    /// How anomalies are detected at present.
    pub fn health_check(&self) -> (r: AnalyzerMode)
        ensures
            r == self.mode,
    {
        self.mode.copy()
    }
}

/// An evaluation was begun: with a loaded model it goes on and nothing changes; without one, and
/// in fallback mode, it does not, and the backend is in fallback mode afterwards.
pub open spec fn is_begun(
    before: AiBackend,
    after: AiBackend,
    r: Result<(), AiBackendError>,
) -> bool {
    &&& r is Ok <==> before.mode is AiPowered && before.session_loaded
    &&& r is Ok ==> after == before
    &&& r is Err ==> after.mode is RuleBasedFallback
    &&& before.mode is RuleBasedFallback ==> after == before
    &&& after.session_loaded == before.session_loaded
    &&& after.timeout_secs == before.timeout_secs
}

/// An evaluation was finished: one that was completed gives what it found and changes nothing;
/// any other gives an error and leaves the backend in fallback mode.
pub open spec fn is_finished(
    before: AiBackend,
    outcome: InferenceOutcome,
    after: AiBackend,
    r: Result<Vec<(AnomalyType, Severity)>, AiBackendError>,
) -> bool {
    &&& r is Ok <==> outcome is Completed
    &&& outcome matches InferenceOutcome::Completed { found } ==> r == Ok::<_, AiBackendError>(
        found,
    ) && after == before
    &&& r is Err ==> after.mode is RuleBasedFallback
    &&& before.mode is RuleBasedFallback ==> after == before
    &&& after.session_loaded == before.session_loaded
    &&& after.timeout_secs == before.timeout_secs
}

/// Once the backend has fallen back, no model is asked any more, and the reason stays that of the
/// first time.
pub proof fn fallback_is_for_good(
    first: AiBackend,
    outcome: InferenceOutcome,
    second: AiBackend,
    found: Result<Vec<(AnomalyType, Severity)>, AiBackendError>,
    third: AiBackend,
    begun: Result<(), AiBackendError>,
)
    requires
        is_finished(first, outcome, second, found),
        !(outcome is Completed),
        is_begun(second, third, begun),
    ensures
        found is Err,
        begun is Err,
        third == second,
        third.mode is RuleBasedFallback,
        first.mode is RuleBasedFallback ==> third.mode == first.mode,
{
}

/// As long as a loaded model answers, it is asked again and again, and its answers are taken as
/// they are.
pub proof fn working_model_is_asked_again(
    first: AiBackend,
    second: AiBackend,
    begun: Result<(), AiBackendError>,
    answer: Vec<(AnomalyType, Severity)>,
    third: AiBackend,
    found: Result<Vec<(AnomalyType, Severity)>, AiBackendError>,
)
    requires
        first.mode is AiPowered,
        first.session_loaded,
        is_begun(first, second, begun),
        is_finished(second, InferenceOutcome::Completed { found: answer }, third, found),
    ensures
        begun is Ok,
        found == Ok::<_, AiBackendError>(answer),
        third == first,
{
}

/// What the model adds to the rules: its anomalies, or nothing where it failed.
pub open spec fn model_findings(
    result: Result<Vec<(AnomalyType, Severity)>, AiBackendError>,
) -> Seq<(AnomalyView, Severity)> {
    match result {
        Ok(found) => anomaly_views(found@),
        Err(_) => Seq::empty(),
    }
}

/// Detects anomalies by the rules and, where it works, by the model.
#[derive(Clone, Debug)]
pub struct AnalyzerService {
    pub ai_backend: AiBackend,
    pub rule_detector: AnomalyDetector,
}

impl AnalyzerService {
    /// A service with the given backend and rules.
    pub fn new(ai_backend: AiBackend, rule_detector: AnomalyDetector) -> (r: Self)
        ensures
            r.ai_backend == ai_backend,
            r.rule_detector == rule_detector,
    {
        AnalyzerService { ai_backend, rule_detector }
    }

    /// A service whose model was loaded or could not be, with the usual rules.
    pub fn with_model(load: Result<(), String>, timeout_secs: u64) -> (r: Self)
        ensures
            r.ai_backend.session_loaded == (load is Ok),
            r.ai_backend.timeout_secs == timeout_secs,
            r.ai_backend.mode is AiPowered <==> load is Ok,
            load matches Err(error) ==> (
            r.ai_backend.mode matches AnalyzerMode::RuleBasedFallback { reason } && reason@
                == "Failed to load model: "@ + error@),
            usual_limits(r.rule_detector),
    {
        let ai_backend = AiBackend::new(load, timeout_secs);
        AnalyzerService::new(ai_backend, AnomalyDetector::with_defaults())
    }

    /// A service without a model, with the usual rules.
    pub fn rule_based_only(reason: String) -> (r: Self)
        ensures
            !r.ai_backend.session_loaded,
            r.ai_backend.mode == (AnalyzerMode::RuleBasedFallback { reason }),
            r.ai_backend.timeout_secs == DEFAULT_TIMEOUT_SECS,
            usual_limits(r.rule_detector),
    {
        AnalyzerService::new(AiBackend::fallback(reason), AnomalyDetector::with_defaults())
    }

    /// The anomalies of a certificate at a given instant: those of the rules, then those of
    /// the model where it did not fail.
    pub fn evaluate_at(
        &self,
        metadata: &CertificateMetadata,
        model: Result<Vec<(AnomalyType, Severity)>, AiBackendError>,
        now: &Timestamp,
    ) -> (r: Vec<(AnomalyType, Severity)>)
        ensures
            anomaly_views(r@) == anomalies(self.rule_detector.config, *metadata, now.at())
                + model_findings(model),
    {
        let mut combined = self.rule_detector.detect_at(metadata, now);
        let ghost rules = combined@;
        match model {
            Ok(found) => {
                let mut more = found;
                combined.append(&mut more);
            },
            Err(_) => {},
        }
        assert(anomaly_views(combined@) =~= anomaly_views(rules) + model_findings(model));
        combined
    }

    /// The anomalies of a certificate at the present instant: those of the rules, then those
    /// of the model where it did not fail.
    pub fn evaluate(
        &self,
        metadata: &CertificateMetadata,
        model: Result<Vec<(AnomalyType, Severity)>, AiBackendError>,
    ) -> (r: Vec<(AnomalyType, Severity)>)
        ensures
            exists|now: Timestamp|
                anomaly_views(r@) == anomalies(
                    self.rule_detector.config,
                    *metadata,
                    #[trigger] now.at(),
                ) + model_findings(model),
    {
        let now = Timestamp::now();
        self.evaluate_at(metadata, model, &now)
    }

    /// How anomalies are detected at present.
    pub fn health_check(&self) -> (r: AnalyzerMode)
        ensures
            r == self.ai_backend.mode,
    {
        self.ai_backend.health_check()
    }
}

/// The detector has the limits that apply unless others are configured.
pub open spec fn usual_limits(detector: AnomalyDetector) -> bool {
    &&& detector.config.near_expiry_threshold_days == 30
    &&& detector.config.max_validity_days == 398
    &&& detector.config.min_rsa_key_size == 2048
    &&& detector.config.min_ecdsa_key_size == 256
}

/// A model that failed adds nothing, and one that did not adds what it found, in order.
pub proof fn model_adds_what_it_found(
    result: Result<Vec<(AnomalyType, Severity)>, AiBackendError>,
    i: int,
)
    ensures
        result is Err ==> model_findings(result).len() == 0,
        result matches Ok(found) ==> {
            &&& model_findings(result).len() == found@.len()
            &&& 0 <= i < found@.len() ==> model_findings(result)[i].0 == found@[i].0@
                && model_findings(result)[i].1 == found@[i].1
        },
{
}

/// Both modes say what they are, and a fallback why.
pub proof fn modes_say_what_they_are(mode: AnalyzerMode)
    ensures
        mode is AiPowered ==> mode_text(mode) == "AI-Powered"@,
        mode matches AnalyzerMode::RuleBasedFallback { reason } ==> mode_text(mode)
            == "Rule-Based Fallback ("@ + reason@ + ")"@,
{
}

/// The usual rules: keys of RSA from 2048 bits and of ECDSA from 256, at most 398 days of
/// validity, and notice 30 days before expiry.
pub proof fn usual_rules(detector: AnomalyDetector)
    ensures
        usual_limits(detector) <==> {
            &&& detector.config.min_rsa_key_size == 2048
            &&& detector.config.min_ecdsa_key_size == 256
            &&& detector.config.max_validity_days == 398
            &&& detector.config.near_expiry_threshold_days == 30
        },
{
}

} // verus!
