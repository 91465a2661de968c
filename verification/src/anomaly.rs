//! Rule-based detection of anomalies in certificates.

use vstd::prelude::*;
use crate::completeness::{has_all, KEY_ALGORITHM, KEY_SIZE, NOT_AFTER, NOT_BEFORE, SANS};
use crate::ids::{is_random_uuid, Uuid};
use crate::sni_match::{sni_match, sni_match_any, sni_matches_any_san};
use crate::text::{
    bound_reasoning, bounded, bounded_reasoning_is_short, clone_texts, decimal, join_first, joined,
    push_decimal, push_signed, same_text, signed_decimal, uppercase, views, MAX_REASONING,
};
use crate::time::{whole_days, Timestamp, NANOS_PER_DAY};
use crate::types::{
    ActionDirective, ActionType, AnomalyType, AnomalyView, CertificateMetadata, DirectiveContent,
    Severity,
};

verus! {

/// How many names of a certificate a reasoning lists.
pub const LISTED_SANS: usize = 5;

/// Limits that the rules apply.
#[derive(Clone, Copy, Debug)]
pub struct AnomalyDetectorConfig {
    /// Days before expiry from which a certificate is near expiry.
    pub near_expiry_threshold_days: i64,
    /// Longest validity period in days.
    pub max_validity_days: i64,
    /// Smallest RSA key in bits.
    pub min_rsa_key_size: u32,
    /// Smallest ECDSA key in bits.
    pub min_ecdsa_key_size: u32,
}

impl Default for AnomalyDetectorConfig {
    fn default() -> (r: Self)
        ensures
            r == (AnomalyDetectorConfig {
                near_expiry_threshold_days: 30,
                max_validity_days: 398,
                min_rsa_key_size: 2048,
                min_ecdsa_key_size: 256,
            }),
    {
        AnomalyDetectorConfig {
            near_expiry_threshold_days: 30,
            max_validity_days: 398,
            min_rsa_key_size: 2048,
            min_ecdsa_key_size: 256,
        }
    }
}

/// The key is too small for its algorithm, whose name is given in uppercase.
pub open spec fn weak_key(algorithm: Seq<char>, key_size: u32, min_rsa: u32, min_ecdsa: u32) -> bool {
    if algorithm == "RSA"@ {
        key_size < min_rsa
    } else if algorithm == "ECDSA"@ || algorithm == "EC"@ {
        key_size < min_ecdsa
    } else {
        false
    }
}

/// Whether a key is too small for its algorithm, whose name is given in uppercase.
/// Algorithms other than RSA and ECDSA have no limit.
pub fn is_weak_key(algorithm: &str, key_size: u32, min_rsa: u32, min_ecdsa: u32) -> (r: bool)
    ensures
        r == weak_key(algorithm@, key_size, min_rsa, min_ecdsa),
{
    if same_text(algorithm, "RSA") {
        key_size < min_rsa
    } else if same_text(algorithm, "ECDSA") || same_text(algorithm, "EC") {
        key_size < min_ecdsa
    } else {
        false
    }
}

/// What is wrong with a validity period that is too long.
pub open spec fn policy_reason(days: int, max_days: int) -> Seq<char> {
    "Validity period of "@ + signed_decimal(days) + " days exceeds maximum of "@ + signed_decimal(
        max_days,
    ) + " days"@
}

/// The whole days of the validity period.
pub open spec fn validity_days(cert: CertificateMetadata) -> int {
    whole_days(cert.not_after.at() - cert.not_before.at())
}

/// The validity period is longer than that many days.
pub open spec fn validity_exceeds(cert: CertificateMetadata, days: int) -> bool {
    cert.not_after.at() - cert.not_before.at() > days * NANOS_PER_DAY
}

/// The anomaly of an overlong validity period.
pub open spec fn policy_anomaly(config: AnomalyDetectorConfig, cert: CertificateMetadata) -> Seq<
    (AnomalyView, Severity),
> {
    if has_all(cert.completeness_flags, NOT_BEFORE) && has_all(cert.completeness_flags, NOT_AFTER)
        && validity_exceeds(cert, config.max_validity_days as int) {
        seq![
            (
                AnomalyView::PolicyViolation {
                    reason: policy_reason(validity_days(cert), config.max_validity_days as int),
                },
                Severity::Medium,
            ),
        ]
    } else {
        seq![]
    }
}

/// The anomaly of a key that is too small.
pub open spec fn weak_key_anomaly(config: AnomalyDetectorConfig, cert: CertificateMetadata) -> Seq<
    (AnomalyView, Severity),
> {
    if has_all(cert.completeness_flags, KEY_ALGORITHM) && has_all(cert.completeness_flags, KEY_SIZE)
        && weak_key(
        uppercase(cert.key_algorithm@),
        cert.key_size,
        config.min_rsa_key_size,
        config.min_ecdsa_key_size,
    ) {
        seq![
            (
                AnomalyView::WeakCryptography {
                    algorithm: cert.key_algorithm@,
                    key_size: cert.key_size,
                },
                Severity::Critical,
            ),
        ]
    } else {
        seq![]
    }
}

/// The anomaly of a server name that none of the certificate's names matches. Without a
/// server name, or without names in the certificate, there is none.
pub open spec fn sni_anomaly(cert: CertificateMetadata) -> Seq<(AnomalyView, Severity)> {
    match cert.sni_hostname {
        Some(sni) => if has_all(cert.completeness_flags, SANS) && sni@.len() > 0 && cert.sans@.len()
            > 0 && !sni_match_any(sni@, views(cert.sans@)) {
            seq![
                (
                    AnomalyView::SniMismatch { sni: sni@, sans: views(cert.sans@) },
                    Severity::High,
                ),
            ]
        } else {
            seq![]
        },
        None => seq![],
    }
}

/// The anomaly of a certificate that has expired at instant `now`.
pub open spec fn expired_anomaly(cert: CertificateMetadata, now: int) -> Seq<
    (AnomalyView, Severity),
> {
    if has_all(cert.completeness_flags, NOT_AFTER) && cert.not_after.at() < now {
        seq![(AnomalyView::ExpiredCertificate, Severity::Critical)]
    } else {
        seq![]
    }
}

/// The anomaly of a certificate that has not expired at instant `now` but soon will.
pub open spec fn near_expiry_anomaly(
    config: AnomalyDetectorConfig,
    cert: CertificateMetadata,
    now: int,
) -> Seq<(AnomalyView, Severity)> {
    let days = whole_days(cert.not_after.at() - now);
    if has_all(cert.completeness_flags, NOT_AFTER) && cert.not_after.at() > now && days
        < config.near_expiry_threshold_days {
        seq![(AnomalyView::NearExpiry { days_remaining: days as u32 }, Severity::High)]
    } else {
        seq![]
    }
}

/// All anomalies of a certificate at instant `now`, in the order of the rules.
pub open spec fn anomalies(
    config: AnomalyDetectorConfig,
    cert: CertificateMetadata,
    now: int,
) -> Seq<(AnomalyView, Severity)> {
    policy_anomaly(config, cert) + weak_key_anomaly(config, cert) + sni_anomaly(cert)
        + expired_anomaly(cert, now) + near_expiry_anomaly(config, cert, now)
}

/// The anomalies as mathematical values.
pub open spec fn anomaly_views(found: Seq<(AnomalyType, Severity)>) -> Seq<(AnomalyView, Severity)> {
    Seq::new(found.len(), |i: int| (found[i].0@, found[i].1))
}

/// An anomaly in words, before the bound on a reasoning's length.
pub open spec fn anomaly_text(config: AnomalyDetectorConfig, anomaly: AnomalyView) -> Seq<char> {
    match anomaly {
        AnomalyView::PolicyViolation { reason } => "Policy violation: "@ + reason,
        AnomalyView::WeakCryptography { algorithm, key_size } => "Weak cryptography: "@ + algorithm
            + " with "@ + decimal(key_size as nat) + " bits is below minimum requirements"@,
        AnomalyView::SniMismatch { sni, sans } => "SNI mismatch: hostname '"@ + sni
            + "' does not match any SAN ["@ + joined(
            sans.take(
                if sans.len() < LISTED_SANS {
                    sans.len() as int
                } else {
                    LISTED_SANS as int
                },
            ),
            ", "@,
        ) + "]"@,
        AnomalyView::ExpiredCertificate => "Certificate has expired"@,
        AnomalyView::NearExpiry { days_remaining } => "Certificate expires in "@ + decimal(
            days_remaining as nat,
        ) + " days (threshold: "@ + signed_decimal(config.near_expiry_threshold_days as int)
            + " days)"@,
    }
}

/// The alert for one anomaly of a certificate.
pub open spec fn alert_for(
    config: AnomalyDetectorConfig,
    cert: CertificateMetadata,
    found: (AnomalyView, Severity),
    now: Timestamp,
) -> DirectiveContent {
    DirectiveContent {
        cert_fingerprint: cert.fingerprint@,
        action_type: ActionType::Alert,
        severity: found.1,
        reasoning: bounded(anomaly_text(config, found.0)),
        created_at: now,
        source_anomaly: Some(found.0),
        attempt_count: 0,
    }
}

/// The directives are the alerts for the certificate's anomalies at instant `now`, one for
/// each and in order.
pub open spec fn are_alerts(
    directives: Seq<ActionDirective>,
    config: AnomalyDetectorConfig,
    cert: CertificateMetadata,
    now: Timestamp,
) -> bool {
    let found = anomalies(config, cert, now.at());
    &&& directives.len() == found.len()
    &&& forall|i: int|
        0 <= i < directives.len() ==> (#[trigger] directives[i]).content() == alert_for(
            config,
            cert,
            found[i],
            now,
        ) && is_random_uuid(directives[i].id.bits) && is_random_uuid(
            directives[i].correlation_id.bits,
        )
}

/// A certificate has an anomaly exactly where it breaks one of the rules whose fields are
/// present: its validity period is too long, its key is too small, its names do not cover the
/// requested server name, it has expired, or it soon will.
pub proof fn anomaly_iff_rule_broken(
    config: AnomalyDetectorConfig,
    cert: CertificateMetadata,
    now: Timestamp,
)
    ensures
        anomalies(config, cert, now.at()).len() > 0 <==> {
            let flags = cert.completeness_flags;
            ||| has_all(flags, NOT_BEFORE) && has_all(flags, NOT_AFTER) && validity_exceeds(
                cert,
                config.max_validity_days as int,
            )
            ||| has_all(flags, KEY_ALGORITHM) && has_all(flags, KEY_SIZE) && weak_key(
                uppercase(cert.key_algorithm@),
                cert.key_size,
                config.min_rsa_key_size,
                config.min_ecdsa_key_size,
            )
            ||| has_all(flags, SANS) && cert.sans@.len() > 0 && (cert.sni_hostname matches Some(sni)
                && sni@.len() > 0 && !sni_match_any(sni@, views(cert.sans@)))
            ||| has_all(flags, NOT_AFTER) && cert.not_after.at() < now.at()
            ||| has_all(flags, NOT_AFTER) && cert.not_after.at() > now.at() && whole_days(
                cert.not_after.at() - now.at(),
            ) < config.near_expiry_threshold_days
        },
{
}

/// The reasoning of an alert is within the bound on a reasoning's length.
pub proof fn alert_reasoning_is_short(
    config: AnomalyDetectorConfig,
    cert: CertificateMetadata,
    found: (AnomalyView, Severity),
    now: Timestamp,
)
    ensures
        alert_for(config, cert, found, now).reasoning.len() <= MAX_REASONING,
{
    bounded_reasoning_is_short(anomaly_text(config, found.0));
}

/// No certificate is both expired and near expiry.
pub proof fn expired_excludes_near_expiry(
    config: AnomalyDetectorConfig,
    cert: CertificateMetadata,
    now: Timestamp,
)
    ensures
        expired_anomaly(cert, now.at()).len() == 0 || near_expiry_anomaly(
            config,
            cert,
            now.at(),
        ).len() == 0,
{
}

/// Without any extracted field there is no anomaly.
pub proof fn no_fields_no_anomaly(
    config: AnomalyDetectorConfig,
    cert: CertificateMetadata,
    now: Timestamp,
)
    requires
        cert.completeness_flags == 0,
    ensures
        anomalies(config, cert, now.at()).len() == 0,
{
    assert(forall|bits: u32| 0u32 & bits == 0) by (bit_vector);
}

/// Evaluates certificates against the rules.
#[derive(Clone, Copy, Debug)]
pub struct AnomalyDetector {
    pub config: AnomalyDetectorConfig,
}

impl AnomalyDetector {
    /// A detector with the given limits.
    pub fn new(config: AnomalyDetectorConfig) -> (r: Self)
        ensures
            r.config == config,
    {
        AnomalyDetector { config }
    }

    /// A detector with the usual limits.
    pub fn with_defaults() -> (r: Self)
        ensures
            r.config == (AnomalyDetectorConfig {
                near_expiry_threshold_days: 30,
                max_validity_days: 398,
                min_rsa_key_size: 2048,
                min_ecdsa_key_size: 256,
            }),
    {
        AnomalyDetector::new(AnomalyDetectorConfig::default())
    }

    /// All anomalies of a certificate at the present instant.
    pub fn detect(&self, metadata: &CertificateMetadata) -> (r: Vec<(AnomalyType, Severity)>)
        ensures
            exists|now: Timestamp|
                anomaly_views(r@) == anomalies(self.config, *metadata, #[trigger] now.at()),
    {
        let now = Timestamp::now();
        self.detect_at(metadata, &now)
    }

    /// All anomalies of a certificate at a given instant, in the order of the rules. A rule
    /// applies only where the fields that it reads are present.
    pub fn detect_at(&self, metadata: &CertificateMetadata, now: &Timestamp) -> (r: Vec<
        (AnomalyType, Severity),
    >)
        ensures
            anomaly_views(r@) == anomalies(self.config, *metadata, now.at()),
    {
        let mut found: Vec<(AnomalyType, Severity)> = Vec::new();
        self.check_policy_violation(metadata, &mut found);
        self.check_weak_cryptography(metadata, &mut found);
        self.check_sni_mismatch(metadata, &mut found);
        self.check_expired(metadata, now, &mut found);
        self.check_near_expiry(metadata, now, &mut found);
        assert(anomaly_views(found@) =~= anomalies(self.config, *metadata, now.at()));
        found
    }

    /// Alerts for all anomalies of a certificate at the present instant.
    pub fn generate_directives(&self, metadata: &CertificateMetadata) -> (r: Vec<ActionDirective>)
        ensures
            exists|now: Timestamp| #[trigger] are_alerts(r@, self.config, *metadata, now),
    {
        let now = Timestamp::now();
        self.generate_directives_at(metadata, &now)
    }

    /// Alerts for all anomalies of a certificate at a given instant: one for each, with
    /// fresh identifiers.
    pub fn generate_directives_at(&self, metadata: &CertificateMetadata, now: &Timestamp) -> (r: Vec<
        ActionDirective,
    >)
        ensures
            are_alerts(r@, self.config, *metadata, *now),
    {
        let mut found = self.detect_at(metadata, now);
        let ghost all = anomalies(self.config, *metadata, now.at());
        let mut out: Vec<ActionDirective> = Vec::new();
        while found.len() > 0
            invariant
                all == anomalies(self.config, *metadata, now.at()),
                out.len() + found.len() == all.len(),
                forall|i: int|
                    0 <= i < found.len() ==> (found@[i].0@, found@[i].1) == #[trigger] all[out.len()
                        + i],
                forall|i: int|
                    0 <= i < out.len() ==> (#[trigger] out@[i]).content() == alert_for(
                        self.config,
                        *metadata,
                        all[i],
                        *now,
                    ) && is_random_uuid(out@[i].id.bits) && is_random_uuid(
                        out@[i].correlation_id.bits,
                    ),
            decreases found.len(),
        {
            let ghost before = found@;
            let (anomaly, severity) = found.remove(0);
            assert((anomaly@, severity) == all[out.len() + 0]);
            assert forall|i: int| 0 <= i < found.len() implies (found@[i].0@, found@[i].1)
                == #[trigger] all[out.len() + 1 + i] by {
                assert(found@[i] == before[i + 1]);
                assert((before[i + 1].0@, before[i + 1].1) == all[out.len() + (i + 1)]);
            }
            let reasoning = self.build_reasoning(&anomaly);
            out.push(
                ActionDirective {
                    id: Uuid::new_v4(),
                    correlation_id: Uuid::new_v4(),
                    cert_fingerprint: metadata.fingerprint,
                    action_type: ActionType::Alert,
                    severity,
                    reasoning,
                    created_at: *now,
                    source_anomaly: Some(anomaly),
                    attempt_count: 0,
                },
            );
        }
        out
    }

    /// Adds the anomaly of an overlong validity period.
    fn check_policy_violation(
        &self,
        metadata: &CertificateMetadata,
        found: &mut Vec<(AnomalyType, Severity)>,
    )
        ensures
            anomaly_views(final(found)@) == anomaly_views(old(found)@) + policy_anomaly(
                self.config,
                *metadata,
            ),
    {
        let flags = metadata.completeness_flags;
        if flags & NOT_BEFORE == NOT_BEFORE && flags & NOT_AFTER == NOT_AFTER {
            if metadata.not_after.is_days_after(
                &metadata.not_before,
                self.config.max_validity_days,
            ) {
                let days: i64 = metadata.not_after.days_since(&metadata.not_before);
                let mut reason = String::from_str("Validity period of ");
                push_signed(&mut reason, days);
                reason.append(" days exceeds maximum of ");
                push_signed(&mut reason, self.config.max_validity_days);
                reason.append(" days");
                found.push((AnomalyType::PolicyViolation { reason }, Severity::Medium));
            }
        }
        proof {
            assert(anomaly_views(final(found)@) =~= anomaly_views(old(found)@) + policy_anomaly(
                self.config,
                *metadata,
            ));
        }
    }

    /// Adds the anomaly of a key that is too small.
    fn check_weak_cryptography(
        &self,
        metadata: &CertificateMetadata,
        found: &mut Vec<(AnomalyType, Severity)>,
    )
        ensures
            anomaly_views(final(found)@) == anomaly_views(old(found)@) + weak_key_anomaly(
                self.config,
                *metadata,
            ),
    {
        let flags = metadata.completeness_flags;
        if flags & KEY_ALGORITHM == KEY_ALGORITHM && flags & KEY_SIZE == KEY_SIZE {
            let algorithm = metadata.key_algorithm.as_str().to_uppercase();
            if is_weak_key(
                algorithm.as_str(),
                metadata.key_size,
                self.config.min_rsa_key_size,
                self.config.min_ecdsa_key_size,
            ) {
                found.push(
                    (
                        AnomalyType::WeakCryptography {
                            algorithm: metadata.key_algorithm.clone(),
                            key_size: metadata.key_size,
                        },
                        Severity::Critical,
                    ),
                );
            }
        }
        proof {
            assert(anomaly_views(final(found)@) =~= anomaly_views(old(found)@) + weak_key_anomaly(
                self.config,
                *metadata,
            ));
        }
    }

    /// Adds the anomaly of a server name that none of the certificate's names matches.
    fn check_sni_mismatch(
        &self,
        metadata: &CertificateMetadata,
        found: &mut Vec<(AnomalyType, Severity)>,
    )
        ensures
            anomaly_views(final(found)@) == anomaly_views(old(found)@) + sni_anomaly(*metadata),
    {
        let flags = metadata.completeness_flags;
        match &metadata.sni_hostname {
            Some(sni) => {
                if flags & SANS == SANS && !sni.as_str().is_empty() && metadata.sans.len() > 0
                    && !sni_matches_any_san(sni.as_str(), metadata.sans.as_slice()) {
                    let sans = clone_texts(&metadata.sans);
                    found.push((AnomalyType::SniMismatch { sni: sni.clone(), sans }, Severity::High));
                }
            },
            None => {},
        }
        proof {
            assert(anomaly_views(final(found)@) =~= anomaly_views(old(found)@) + sni_anomaly(
                *metadata,
            ));
        }
    }

    /// Adds the anomaly of an expired certificate.
    fn check_expired(
        &self,
        metadata: &CertificateMetadata,
        now: &Timestamp,
        found: &mut Vec<(AnomalyType, Severity)>,
    )
        ensures
            anomaly_views(final(found)@) == anomaly_views(old(found)@) + expired_anomaly(
                *metadata,
                now.at(),
            ),
    {
        if metadata.completeness_flags & NOT_AFTER == NOT_AFTER && metadata.not_after.is_before(
            now,
        ) {
            found.push((AnomalyType::ExpiredCertificate, Severity::Critical));
        }
        proof {
            assert(anomaly_views(final(found)@) =~= anomaly_views(old(found)@) + expired_anomaly(
                *metadata,
                now.at(),
            ));
        }
    }

    /// Adds the anomaly of a certificate that will soon expire.
    fn check_near_expiry(
        &self,
        metadata: &CertificateMetadata,
        now: &Timestamp,
        found: &mut Vec<(AnomalyType, Severity)>,
    )
        ensures
            anomaly_views(final(found)@) == anomaly_views(old(found)@) + near_expiry_anomaly(
                self.config,
                *metadata,
                now.at(),
            ),
    {
        if metadata.completeness_flags & NOT_AFTER == NOT_AFTER && now.is_before(
            &metadata.not_after,
        ) {
            let days: i64 = metadata.not_after.days_since(now);
            if days < self.config.near_expiry_threshold_days {
                found.push(
                    (AnomalyType::NearExpiry { days_remaining: days as u32 }, Severity::High),
                );
            }
        }
        proof {
            assert(anomaly_views(final(found)@) =~= anomaly_views(old(found)@)
                + near_expiry_anomaly(self.config, *metadata, now.at()));
        }
    }

    /// An anomaly in words, within the bound on a reasoning's length.
    pub fn build_reasoning(&self, anomaly: &AnomalyType) -> (r: String)
        ensures
            r@ == bounded(anomaly_text(self.config, anomaly@)),
    {
        let text = match anomaly {
            AnomalyType::PolicyViolation { reason } => {
                let mut out = String::from_str("Policy violation: ");
                out.append(reason.as_str());
                out
            },
            AnomalyType::WeakCryptography { algorithm, key_size } => {
                let mut out = String::from_str("Weak cryptography: ");
                out.append(algorithm.as_str());
                out.append(" with ");
                push_decimal(&mut out, *key_size as u64);
                out.append(" bits is below minimum requirements");
                out
            },
            AnomalyType::SniMismatch { sni, sans } => {
                let count: usize = if sans.len() < LISTED_SANS {
                    sans.len()
                } else {
                    LISTED_SANS
                };
                let mut out = String::from_str("SNI mismatch: hostname '");
                out.append(sni.as_str());
                out.append("' does not match any SAN [");
                out.append(join_first(sans, count, ", ").as_str());
                out.append("]");
                out
            },
            AnomalyType::ExpiredCertificate => String::from_str("Certificate has expired"),
            AnomalyType::NearExpiry { days_remaining } => {
                let mut out = String::from_str("Certificate expires in ");
                push_decimal(&mut out, *days_remaining as u64);
                out.append(" days (threshold: ");
                push_signed(&mut out, self.config.near_expiry_threshold_days);
                out.append(" days)");
                out
            },
        };
        bound_reasoning(text)
    }
}

// ---------------------------------------------------------------------------
// Laws
// ---------------------------------------------------------------------------

/// The validity period is longer than allowed, and both of its ends were extracted.
pub open spec fn breaks_policy(config: AnomalyDetectorConfig, cert: CertificateMetadata) -> bool {
    &&& cert.completeness_flags & 0x008 != 0
    &&& cert.completeness_flags & 0x010 != 0
    &&& cert.not_after.at() - cert.not_before.at() > config.max_validity_days * 86_400_000_000_000
}

/// The key of RSA or ECDSA is smaller than allowed, and its algorithm and size were extracted.
pub open spec fn breaks_key_rule(config: AnomalyDetectorConfig, cert: CertificateMetadata) -> bool {
    let algorithm = uppercase(cert.key_algorithm@);
    &&& cert.completeness_flags & 0x040 != 0
    &&& cert.completeness_flags & 0x080 != 0
    &&& {
        ||| algorithm == "RSA"@ && cert.key_size < config.min_rsa_key_size
        ||| algorithm == "ECDSA"@ && cert.key_size < config.min_ecdsa_key_size
        ||| algorithm == "EC"@ && cert.key_size < config.min_ecdsa_key_size
    }
}

/// A server name was requested, the certificate's names were extracted, there are any, and each
/// of them fails to match.
pub open spec fn breaks_name_rule(cert: CertificateMetadata) -> bool {
    &&& cert.completeness_flags & 0x020 != 0
    &&& cert.sans@.len() > 0
    &&& cert.sni_hostname matches Some(sni) && sni@.len() > 0 && forall|i: int|
        0 <= i < cert.sans@.len() ==> !sni_match(sni@, (#[trigger] cert.sans@[i])@)
}

/// The end of the validity period was extracted and has passed.
pub open spec fn breaks_expiry(cert: CertificateMetadata, now: Timestamp) -> bool {
    &&& cert.completeness_flags & 0x010 != 0
    &&& cert.not_after.at() < now.at()
}

/// The end of the validity period was extracted, has not passed, and is less than the given
/// number of days away.
pub open spec fn breaks_near_expiry(
    config: AnomalyDetectorConfig,
    cert: CertificateMetadata,
    now: Timestamp,
) -> bool {
    &&& cert.completeness_flags & 0x010 != 0
    &&& cert.not_after.at() > now.at()
    &&& cert.not_after.at() - now.at() < config.near_expiry_threshold_days * 86_400_000_000_000
}

/// One for a rule that is broken, and nothing for one that is kept.
pub open spec fn one_if(broken: bool) -> nat {
    if broken {
        1
    } else {
        0
    }
}

/// An anomaly of a kind, with the given property, is among those found.
pub open spec fn is_found(
    found: Seq<(AnomalyView, Severity)>,
    kind: spec_fn(AnomalyView) -> bool,
) -> bool {
    exists|i: int| 0 <= i < found.len() && kind((#[trigger] found[i]).0)
}

/// Each rule is reported on its own, whatever other rules are broken: an anomaly of its kind is
/// found exactly where the rule is broken. There are as many anomalies as broken rules.
pub proof fn each_rule_is_reported_on_its_own(
    config: AnomalyDetectorConfig,
    cert: CertificateMetadata,
    now: Timestamp,
)
    ensures
        ({
            let found = anomalies(config, cert, now.at());
            &&& is_found(found, |a: AnomalyView| a is PolicyViolation) <==> breaks_policy(
                config,
                cert,
            )
            &&& is_found(found, |a: AnomalyView| a is WeakCryptography) <==> breaks_key_rule(
                config,
                cert,
            )
            &&& is_found(found, |a: AnomalyView| a is SniMismatch) <==> breaks_name_rule(cert)
            &&& is_found(found, |a: AnomalyView| a is ExpiredCertificate) <==> breaks_expiry(
                cert,
                now,
            )
            &&& is_found(found, |a: AnomalyView| a is NearExpiry) <==> breaks_near_expiry(
                config,
                cert,
                now,
            )
            &&& found.len() == one_if(breaks_policy(config, cert)) + one_if(
                breaks_key_rule(config, cert),
            ) + one_if(breaks_name_rule(cert)) + one_if(breaks_expiry(cert, now)) + one_if(
                breaks_near_expiry(config, cert, now),
            )
        }),
{
    lemma_rules(config, cert, now);
    let found = anomalies(config, cert, now.at());
    let a = policy_anomaly(config, cert);
    let b = weak_key_anomaly(config, cert);
    let c = sni_anomaly(cert);
    let d = expired_anomaly(cert, now.at());
    let e = near_expiry_anomaly(config, cert, now.at());
    assert(found == a + b + c + d + e);
    if a.len() > 0 {
        assert(found[0] == a[0]);
    }
    if b.len() > 0 {
        assert(found[a.len() as int] == b[0]);
    }
    if c.len() > 0 {
        assert(found[(a + b).len() as int] == c[0]);
    }
    if d.len() > 0 {
        assert(found[(a + b + c).len() as int] == d[0]);
    }
    if e.len() > 0 {
        assert(found[(a + b + c + d).len() as int] == e[0]);
    }
    assert forall|i: int| 0 <= i < found.len() implies {
        ||| a.contains(#[trigger] found[i])
        ||| b.contains(found[i])
        ||| c.contains(found[i])
        ||| d.contains(found[i])
        ||| e.contains(found[i])
    } by {
        lemma_part_of(a, b, c, d, e, i);
    }
}

proof fn lemma_part_of(
    a: Seq<(AnomalyView, Severity)>,
    b: Seq<(AnomalyView, Severity)>,
    c: Seq<(AnomalyView, Severity)>,
    d: Seq<(AnomalyView, Severity)>,
    e: Seq<(AnomalyView, Severity)>,
    i: int,
)
    requires
        0 <= i < (a + b + c + d + e).len(),
    ensures
        ({
            let x = (a + b + c + d + e)[i];
            a.contains(x) || b.contains(x) || c.contains(x) || d.contains(x) || e.contains(x)
        }),
{
    let x = (a + b + c + d + e)[i];
    let n = a.len();
    let m = n + b.len();
    let k = m + c.len();
    let l = k + d.len();
    if i < n {
        assert(a[i] == x);
    } else if i < m {
        assert(b[i - n] == x);
    } else if i < k {
        assert(c[i - m] == x);
    } else if i < l {
        assert(d[i - k] == x);
    } else {
        assert(e[i - l] == x);
    }
}

/// Each part of the anomalies has one element exactly where its rule is broken.
proof fn lemma_rules(config: AnomalyDetectorConfig, cert: CertificateMetadata, now: Timestamp)
    ensures
        policy_anomaly(config, cert).len() == one_if(breaks_policy(config, cert)),
        weak_key_anomaly(config, cert).len() == one_if(breaks_key_rule(config, cert)),
        sni_anomaly(cert).len() == one_if(breaks_name_rule(cert)),
        expired_anomaly(cert, now.at()).len() == one_if(breaks_expiry(cert, now)),
        near_expiry_anomaly(config, cert, now.at()).len() == one_if(
            breaks_near_expiry(config, cert, now),
        ),
{
    let flags = cert.completeness_flags;
    lemma_algorithms_differ();
    assert(flags & 0x008 == 0x008 <==> flags & 0x008 != 0) by (bit_vector);
    assert(flags & 0x010 == 0x010 <==> flags & 0x010 != 0) by (bit_vector);
    assert(flags & 0x020 == 0x020 <==> flags & 0x020 != 0) by (bit_vector);
    assert(flags & 0x040 == 0x040 <==> flags & 0x040 != 0) by (bit_vector);
    assert(flags & 0x080 == 0x080 <==> flags & 0x080 != 0) by (bit_vector);
    match cert.sni_hostname {
        Some(sni) => {
            let names = views(cert.sans@);
            assert(forall|i: int| 0 <= i < names.len() ==> names[i] == (#[trigger] cert.sans@[i])@);
            if sni_match_any(sni@, names) {
                let i = choose|i: int| 0 <= i < names.len() && sni_match(sni@, #[trigger] names[i]);
                assert(sni_match(sni@, cert.sans@[i]@));
            } else {
                assert forall|i: int| 0 <= i < cert.sans@.len() implies !sni_match(
                    sni@,
                    (#[trigger] cert.sans@[i])@,
                ) by {
                    assert(names[i] == cert.sans@[i]@);
                }
            }
        },
        None => {},
    }
    lemma_fewer_days(
        cert.not_after.at() - now.at(),
        config.near_expiry_threshold_days as int,
    );
}

/// A span that is not negative has fewer whole days than a limit exactly where it is shorter.
pub proof fn lemma_fewer_days(span: int, limit: int)
    ensures
        span >= 0 ==> (whole_days(span) < limit <==> span < limit * 86_400_000_000_000),
{
    if span >= 0 {
        crate::time::days_and_minutes_of_a_span(span);
        let days = whole_days(span);
        if days < limit {
            assert((days + 1) * 86_400_000_000_000 <= limit * 86_400_000_000_000) by (nonlinear_arith)
                requires
                    days + 1 <= limit,
            ;
        } else {
            assert(limit * 86_400_000_000_000 <= days * 86_400_000_000_000) by (nonlinear_arith)
                requires
                    limit <= days,
            ;
        }
    }
}

/// An anomaly tells what is wrong, and how urgent that is: expired certificates and weak keys
/// are critical, a mismatch and a near expiry are high, and an overlong validity is medium.
pub proof fn anomalies_tell_what_is_wrong(
    config: AnomalyDetectorConfig,
    cert: CertificateMetadata,
    now: Timestamp,
    i: int,
)
    requires
        0 <= i < anomalies(config, cert, now.at()).len(),
    ensures
        ({
            let (anomaly, severity) = anomalies(config, cert, now.at())[i];
            let validity = cert.not_after.at() - cert.not_before.at();
            let left = cert.not_after.at() - now.at();
            match anomaly {
                AnomalyView::PolicyViolation { reason } => {
                    &&& severity is Medium
                    &&& validity >= 0 ==> exists|days: int|
                        days * 86_400_000_000_000 <= validity < (days + 1) * 86_400_000_000_000
                            && reason == "Validity period of "@ + #[trigger] signed_decimal(days)
                            + " days exceeds maximum of "@ + signed_decimal(
                            config.max_validity_days as int,
                        ) + " days"@
                },
                AnomalyView::WeakCryptography { algorithm, key_size } => severity is Critical
                    && algorithm == cert.key_algorithm@ && key_size == cert.key_size,
                AnomalyView::SniMismatch { sni, sans } => severity is High && (
                cert.sni_hostname matches Some(name) && name@ == sni) && sans.len()
                    == cert.sans@.len() && forall|k: int|
                    0 <= k < sans.len() ==> #[trigger] sans[k] == cert.sans@[k]@,
                AnomalyView::ExpiredCertificate => severity is Critical,
                AnomalyView::NearExpiry { days_remaining } => {
                    &&& severity is High
                    &&& left < 0x1_0000_0000 * 86_400_000_000_000 ==> days_remaining
                        * 86_400_000_000_000 <= left < (days_remaining + 1) * 86_400_000_000_000
                },
            }
        }),
{
    let a = policy_anomaly(config, cert);
    let b = weak_key_anomaly(config, cert);
    let c = sni_anomaly(cert);
    let d = expired_anomaly(cert, now.at());
    let e = near_expiry_anomaly(config, cert, now.at());
    assert(anomalies(config, cert, now.at()) == a + b + c + d + e);
    lemma_part_of(a, b, c, d, e, i);
    let x = (a + b + c + d + e)[i];
    let validity = cert.not_after.at() - cert.not_before.at();
    let left = cert.not_after.at() - now.at();
    if a.contains(x) {
        if validity >= 0 {
            crate::time::days_and_minutes_of_a_span(validity);
            let days = whole_days(validity);
            assert(days * 86_400_000_000_000 <= validity);
            assert(a[0].0 == (AnomalyView::PolicyViolation {
                reason: "Validity period of "@ + signed_decimal(days) + " days exceeds maximum of "@
                    + signed_decimal(config.max_validity_days as int) + " days"@,
            }));
        }
    }
    if e.contains(x) {
        crate::time::days_and_minutes_of_a_span(left);
        lemma_fewer_days(left, 0x1_0000_0000);
    }
}

/// There is one alert for each anomaly, in order, with its severity, about the certificate and
/// with a reasoning that names what is wrong.
pub proof fn every_anomaly_has_its_alert(
    directives: Seq<ActionDirective>,
    config: AnomalyDetectorConfig,
    cert: CertificateMetadata,
    now: Timestamp,
    i: int,
)
    requires
        are_alerts(directives, config, cert, now),
        0 <= i < directives.len(),
    ensures
        directives.len() == anomalies(config, cert, now.at()).len(),
        ({
            let (anomaly, severity) = anomalies(config, cert, now.at())[i];
            let d = directives[i];
            &&& d.cert_fingerprint@ == cert.fingerprint@
            &&& d.action_type is Alert
            &&& d.severity == severity
            &&& d.created_at == now
            &&& d.source_anomaly matches Some(source) && source@ == anomaly
            &&& d.attempt_count == 0
            &&& d.reasoning@ == bounded(
                match anomaly {
                    AnomalyView::PolicyViolation { reason } => "Policy violation: "@ + reason,
                    AnomalyView::WeakCryptography { algorithm, key_size } => "Weak cryptography: "@
                        + algorithm + " with "@ + decimal(key_size as nat)
                        + " bits is below minimum requirements"@,
                    AnomalyView::SniMismatch { sni, sans } => "SNI mismatch: hostname '"@ + sni
                        + "' does not match any SAN ["@ + joined(
                        if sans.len() <= 5 {
                            sans
                        } else {
                            sans.take(5)
                        },
                        ", "@,
                    ) + "]"@,
                    AnomalyView::ExpiredCertificate => "Certificate has expired"@,
                    AnomalyView::NearExpiry { days_remaining } => "Certificate expires in "@
                        + decimal(days_remaining as nat) + " days (threshold: "@ + signed_decimal(
                        config.near_expiry_threshold_days as int,
                    ) + " days)"@,
                },
            )
        }),
{
    let d = directives[i];
    let found = anomalies(config, cert, now.at())[i];
    assert(d.content() == alert_for(config, cert, found, now));
    assert(d.content().cert_fingerprint == d.cert_fingerprint@);
    assert(d.content().reasoning == d.reasoning@);
    assert(d.content().source_anomaly == Some(found.0));
    match found.0 {
        AnomalyView::SniMismatch { sni, sans } => {
            if sans.len() <= 5 {
                assert(sans.take(sans.len() as int) =~= sans);
            }
        },
        _ => {},
    }
}

/// The place of an anomaly's rule among the rules.
pub open spec fn rule_place(anomaly: AnomalyView) -> int {
    match anomaly {
        AnomalyView::PolicyViolation { .. } => 1,
        AnomalyView::WeakCryptography { .. } => 2,
        AnomalyView::SniMismatch { .. } => 3,
        AnomalyView::ExpiredCertificate => 4,
        AnomalyView::NearExpiry { .. } => 5,
    }
}

/// The anomalies come in the order of the rules, and none comes twice.
pub proof fn anomalies_come_in_order(
    config: AnomalyDetectorConfig,
    cert: CertificateMetadata,
    now: Timestamp,
    i: int,
    j: int,
)
    requires
        0 <= i < j < anomalies(config, cert, now.at()).len(),
    ensures
        rule_place(anomalies(config, cert, now.at())[i].0) < rule_place(
            anomalies(config, cert, now.at())[j].0,
        ),
{
    let a = policy_anomaly(config, cert);
    let b = weak_key_anomaly(config, cert);
    let c = sni_anomaly(cert);
    let d = expired_anomaly(cert, now.at());
    let e = near_expiry_anomaly(config, cert, now.at());
    let all = a + b + c + d + e;
    assert(anomalies(config, cert, now.at()) == all);
    let n = a.len();
    let m = n + b.len();
    let k = m + c.len();
    let l = k + d.len();
    assert(n <= 1 && b.len() <= 1 && c.len() <= 1 && d.len() <= 1 && e.len() <= 1);
    assert forall|p: int| 0 <= p < all.len() implies rule_place((#[trigger] all[p]).0) == (if p < n {
        1int
    } else if p < m {
        2
    } else if p < k {
        3
    } else if p < l {
        4
    } else {
        5
    }) by {
        if p < n {
            assert(all[p] == a[p]);
        } else if p < m {
            assert(all[p] == b[p - n]);
        } else if p < k {
            assert(all[p] == c[p - m]);
        } else if p < l {
            assert(all[p] == d[p - k]);
        } else {
            assert(all[p] == e[p - l]);
        }
    }
}

/// The names of the two algorithms with a limit differ.
pub proof fn lemma_algorithms_differ()
    ensures
        "RSA"@ != "ECDSA"@,
        "RSA"@ != "EC"@,
{
    reveal_strlit("RSA");
    reveal_strlit("ECDSA");
    reveal_strlit("EC");
    assert("RSA"@.len() == 3 && "ECDSA"@.len() == 5 && "EC"@.len() == 2);
}

/// A key is weak exactly where its algorithm has a limit and the key is smaller than that. A
/// larger key is never weaker, and a higher limit never makes a key stronger.
pub proof fn weak_keys_are_below_their_limit(
    algorithm: Seq<char>,
    key_size: u32,
    larger: u32,
    min_rsa: u32,
    min_ecdsa: u32,
)
    requires
        key_size <= larger,
    ensures
        algorithm == "RSA"@ ==> (weak_key(algorithm, key_size, min_rsa, min_ecdsa) <==> key_size
            < min_rsa),
        algorithm == "ECDSA"@ || algorithm == "EC"@ ==> (weak_key(
            algorithm,
            key_size,
            min_rsa,
            min_ecdsa,
        ) <==> key_size < min_ecdsa),
        algorithm != "RSA"@ && algorithm != "ECDSA"@ && algorithm != "EC"@ ==> !weak_key(
            algorithm,
            key_size,
            min_rsa,
            min_ecdsa,
        ),
        weak_key(algorithm, larger, min_rsa, min_ecdsa) ==> weak_key(
            algorithm,
            key_size,
            min_rsa,
            min_ecdsa,
        ),
{
    lemma_algorithms_differ();
}

} // verus!
