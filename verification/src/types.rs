//! Types shared by the collector, the analyzer and the executor.

use vstd::prelude::*;
use crate::ids::Uuid;
use crate::text::views;
use crate::time::Timestamp;

verus! {

/// The version of the certificate guardian.
pub const VERSION: &'static str = "0.1.0";

/// A fingerprint of all zero bytes, which stands for "none" in kernel events.
pub open spec fn zero_fingerprint() -> Seq<u8> {
    Seq::new(32, |i: int| 0u8)
}

/// What is known of one observed certificate.
#[derive(Clone, Debug)]
pub struct CertificateMetadata {
    /// SHA-256 of the DER-encoded certificate.
    pub fingerprint: [u8; 32],
    /// Subject distinguished name, at most 2048 characters.
    pub subject: String,
    /// Issuer distinguished name, at most 2048 characters.
    pub issuer: String,
    /// Serial number in hexadecimal.
    pub serial_number: String,
    /// Start of the validity period.
    pub not_before: Timestamp,
    /// End of the validity period.
    pub not_after: Timestamp,
    /// Subject alternative names, at most 100.
    pub sans: Vec<String>,
    /// Algorithm of the public key.
    pub key_algorithm: String,
    /// Size of the public key in bits.
    pub key_size: u32,
    /// Depth of the certificate's chain.
    pub chain_depth: u8,
    /// Fingerprint of the issuer's certificate.
    pub issuer_fingerprint: Option<[u8; 32]>,
    /// When the certificate was first observed.
    pub first_seen: Timestamp,
    /// When the certificate was last observed.
    pub last_seen: Timestamp,
    /// How many connections presented the certificate.
    pub connection_count: u64,
    /// Source address of the connection.
    pub source_ip: Option<String>,
    /// Destination address of the connection.
    pub destination_ip: Option<String>,
    /// Server name that the client asked for.
    pub sni_hostname: Option<String>,
    /// Which fields were extracted: bits of `completeness`.
    pub completeness_flags: u32,
}

/// A directive from the analyzer to the executor.
#[derive(Clone, Debug)]
pub struct ActionDirective {
    /// Identifies the directive.
    pub id: Uuid,
    /// Links the directive to its audit trail.
    pub correlation_id: Uuid,
    /// Fingerprint of the certificate concerned.
    pub cert_fingerprint: [u8; 32],
    /// What to do.
    pub action_type: ActionType,
    /// How urgent it is.
    pub severity: Severity,
    /// Why, in words, within the bound of `text::bounded`.
    pub reasoning: String,
    /// When the directive was made.
    pub created_at: Timestamp,
    /// The anomaly that led to the directive.
    pub source_anomaly: Option<AnomalyType>,
    /// How often execution was attempted.
    pub attempt_count: u8,
}

/// What the executor is to do.
#[derive(Clone, Debug, PartialEq, Eq)]
pub enum ActionType {
    /// Notify the operators.
    Alert,
    /// Renew the certificate.
    Renew,
    /// Reject handshakes that do not present the pinned certificate.
    Protect {
        /// Fingerprint of the expected certificate.
        pinned_fingerprint: [u8; 32],
        /// The host to protect.
        hostname: String,
    },
    /// Drop connections that present the certificate.
    Isolate {
        /// Fingerprint of the certificate to isolate.
        target_fingerprint: [u8; 32],
    },
}

/// Urgency of an anomaly or a directive.
#[derive(Clone, Copy, Debug, PartialEq, Eq, PartialOrd, Ord, Hash, Structural)]
pub enum Severity {
    Low,
    Medium,
    High,
    Critical,
}

/// The number that stands for a severity in kernel maps.
pub open spec fn severity_value(s: Severity) -> u8 {
    match s {
        Severity::Low => 0,
        Severity::Medium => 1,
        Severity::High => 2,
        Severity::Critical => 3,
    }
}

/// The severity that a number in a kernel map stands for.
pub open spec fn severity_of_value(value: u8) -> Option<Severity> {
    if value == 0 {
        Some(Severity::Low)
    } else if value == 1 {
        Some(Severity::Medium)
    } else if value == 2 {
        Some(Severity::High)
    } else if value == 3 {
        Some(Severity::Critical)
    } else {
        None
    }
}

impl Severity {
    /// The severity that a number in a kernel map stands for.
    pub fn from_bpf_value(value: u8) -> (r: Option<Self>)
        ensures
            r == severity_of_value(value),
    {
        match value {
            0 => Some(Severity::Low),
            1 => Some(Severity::Medium),
            2 => Some(Severity::High),
            3 => Some(Severity::Critical),
            _ => None,
        }
    }

    /// The number that stands for the severity in kernel maps.
    pub fn to_bpf_value(self) -> (r: u8)
        ensures
            r == severity_value(self),
            r <= 3,
    {
        match self {
            Severity::Low => 0,
            Severity::Medium => 1,
            Severity::High => 2,
            Severity::Critical => 3,
        }
    }
}

/// A severity written to a kernel map is read back unchanged, and a number that stands for a
/// severity is written again as it was.
pub proof fn severity_round_trip(severity: Severity, value: u8)
    ensures
        severity_of_value(severity_value(severity)) == Some(severity),
        severity_of_value(value) matches Some(s) ==> severity_value(s) == value,
{
}

/// A deviation that the analyzer found in a certificate.
#[derive(Clone, Debug, PartialEq)]
pub enum AnomalyType {
    /// The validity period is longer than the policy allows.
    PolicyViolation { reason: String },
    /// The key is too small for its algorithm.
    WeakCryptography { algorithm: String, key_size: u32 },
    /// The server name asked for matches none of the certificate's names.
    SniMismatch { sni: String, sans: Vec<String> },
    /// The certificate has expired.
    ExpiredCertificate,
    /// The certificate expires soon.
    NearExpiry { days_remaining: u32 },
}

/// An anomaly as a mathematical value.
pub enum AnomalyView {
    PolicyViolation { reason: Seq<char> },
    WeakCryptography { algorithm: Seq<char>, key_size: u32 },
    SniMismatch { sni: Seq<char>, sans: Seq<Seq<char>> },
    ExpiredCertificate,
    NearExpiry { days_remaining: u32 },
}

impl View for AnomalyType {
    type V = AnomalyView;

    open spec fn view(&self) -> AnomalyView {
        match self {
            AnomalyType::PolicyViolation { reason } => AnomalyView::PolicyViolation {
                reason: reason@,
            },
            AnomalyType::WeakCryptography { algorithm, key_size } => AnomalyView::WeakCryptography {
                algorithm: algorithm@,
                key_size: *key_size,
            },
            AnomalyType::SniMismatch { sni, sans } => AnomalyView::SniMismatch {
                sni: sni@,
                sans: views(sans@),
            },
            AnomalyType::ExpiredCertificate => AnomalyView::ExpiredCertificate,
            AnomalyType::NearExpiry { days_remaining } => AnomalyView::NearExpiry {
                days_remaining: *days_remaining,
            },
        }
    }
}

/// What a directive says, apart from its two identifiers.
pub struct DirectiveContent {
    pub cert_fingerprint: Seq<u8>,
    pub action_type: ActionType,
    pub severity: Severity,
    pub reasoning: Seq<char>,
    pub created_at: Timestamp,
    pub source_anomaly: Option<AnomalyView>,
    pub attempt_count: u8,
}

impl ActionDirective {
    /// What the directive says, apart from its two identifiers.
    pub open spec fn content(self) -> DirectiveContent {
        DirectiveContent {
            cert_fingerprint: self.cert_fingerprint@,
            action_type: self.action_type,
            severity: self.severity,
            reasoning: self.reasoning@,
            created_at: self.created_at,
            source_anomaly: match self.source_anomaly {
                Some(a) => Some(a@),
                None => None,
            },
            attempt_count: self.attempt_count,
        }
    }
}

/// Risk of a certificate that is not in the inventory.
#[derive(Clone, Copy, Debug, PartialEq, Eq, PartialOrd, Ord, Hash, Structural)]
pub enum RiskLevel {
    /// Trusted issuer, adequate key, normal validity.
    Low,
    /// Little validity left.
    Medium,
    /// Untrusted issuer or overlong validity.
    High,
    /// Self-signed, or a weak key.
    Critical,
}

/// The rank of a risk level, from 0 to 3.
pub open spec fn risk_rank(level: RiskLevel) -> int {
    match level {
        RiskLevel::Low => 0,
        RiskLevel::Medium => 1,
        RiskLevel::High => 2,
        RiskLevel::Critical => 3,
    }
}

/// The next higher risk level; the highest stays.
pub open spec fn escalated(level: RiskLevel) -> RiskLevel {
    match level {
        RiskLevel::Low => RiskLevel::Medium,
        RiskLevel::Medium => RiskLevel::High,
        RiskLevel::High => RiskLevel::Critical,
        RiskLevel::Critical => RiskLevel::Critical,
    }
}

impl RiskLevel {
    /// Raises the level by one tier, up to the highest.
    pub fn escalate(self) -> (r: Self)
        ensures
            r == escalated(self),
            risk_rank(r) == if risk_rank(self) < 3 {
                risk_rank(self) + 1
            } else {
                3
            },
    {
        match self {
            RiskLevel::Low => RiskLevel::Medium,
            RiskLevel::Medium => RiskLevel::High,
            RiskLevel::High => RiskLevel::Critical,
            RiskLevel::Critical => RiskLevel::Critical,
        }
    }
}

/// Where a certificate stands with respect to the inventory.
#[derive(Clone, Debug, PartialEq)]
pub enum ShadowClassification {
    /// The certificate is in the inventory.
    Known,
    /// The certificate is not in the inventory.
    Shadow { risk_level: RiskLevel, context: ShadowContext },
    /// The inventory could not be asked.
    Deferred { reason: String },
}

/// Where a shadow certificate was observed.
#[derive(Clone, Debug, PartialEq)]
pub struct ShadowContext {
    /// Source address of the connection.
    pub source_ip: Option<String>,
    /// Destination address or host.
    pub destination: Option<String>,
    /// When the certificate was first observed.
    pub first_seen: Timestamp,
}

/// How likely the renewal of a certificate is to fail.
#[derive(Clone, Debug)]
pub struct RenewalPrediction {
    /// Fingerprint of the certificate.
    pub cert_fingerprint: [u8; 32],
    /// Probability of failure in thousandths.
    pub failure_probability: u32,
    /// Whole days until expiry, negative once expired.
    pub days_until_expiry: i32,
    /// How urgent it is.
    pub severity: Severity,
    /// Why, in words.
    pub reasoning: String,
    /// When the prediction was made.
    pub last_evaluated: Timestamp,
    /// Whether the certificate seems to be in renewal.
    pub renewal_activity_detected: bool,
}

/// What became of a directive.
#[derive(Clone, Debug, PartialEq)]
pub enum ExecutionOutcome {
    /// The action was carried out.
    Success,
    /// The action failed.
    Failed { reason: String, attempts: u8 },
    /// The certificate was not seen for too long.
    Expired,
    /// The kernel map had no room.
    MapFull,
    /// Another directive took precedence.
    Conflict { winner_id: Uuid },
}

/// The numbers of the severities in kernel maps go from 0 for the lowest to 3 for the highest,
/// and no other number stands for one.
pub proof fn severities_are_numbered_from_low(severity: Severity, value: u8)
    ensures
        severity is Low <==> severity_value(severity) == 0,
        severity is Medium <==> severity_value(severity) == 1,
        severity is High <==> severity_value(severity) == 2,
        severity is Critical <==> severity_value(severity) == 3,
        severity_of_value(value) is Some <==> value < 4,
        severity_of_value(value) matches Some(s) ==> severity_value(s) == value,
{
}

/// Escalation goes from low over medium and high to critical, one tier at a time, and stays
/// there.
pub proof fn escalation_goes_one_tier_up(level: RiskLevel)
    ensures
        level is Low ==> escalated(level) is Medium,
        level is Medium ==> escalated(level) is High,
        level is High ==> escalated(level) is Critical,
        level is Critical ==> escalated(level) is Critical,
        level is Low <==> risk_rank(level) == 0,
        level is Medium <==> risk_rank(level) == 1,
        level is High <==> risk_rank(level) == 2,
        level is Critical <==> risk_rank(level) == 3,
{
}

/// What is said of a directive leaves out nothing but its two identifiers.
pub proof fn content_tells_everything_else(a: ActionDirective, b: ActionDirective)
    requires
        a.content() == b.content(),
    ensures
        a.cert_fingerprint@ == b.cert_fingerprint@,
        a.action_type == b.action_type,
        a.severity == b.severity,
        a.reasoning@ == b.reasoning@,
        a.created_at == b.created_at,
        a.source_anomaly is Some <==> b.source_anomaly is Some,
        a.source_anomaly matches Some(x) ==> x@ == b.source_anomaly->0@,
        a.attempt_count == b.attempt_count,
{
    assert(a.content().cert_fingerprint == b.content().cert_fingerprint);
    assert(a.content().reasoning == b.content().reasoning);
    assert(a.content().source_anomaly == b.content().source_anomaly);
}

} // verus!
