//! Classification of certificates that are not in the inventory.

use vstd::prelude::*;
use crate::anomaly::{is_weak_key, validity_days, validity_exceeds, weak_key};
use crate::ids::{is_random_uuid, Uuid};
use crate::text::{
    bound_reasoning, bounded, bounded_reasoning_is_short, clone_text, decimal,
    eq_ignoring_ascii_case, lowercase, push_decimal, push_signed, same_ignoring_ascii_case,
    same_text, signed_decimal, uppercase, MAX_REASONING,
};
use crate::time::{whole_days, Timestamp, ISO_SECONDS};
use crate::types::{
    ActionDirective, ActionType, CertificateMetadata, DirectiveContent, RiskLevel, Severity,
    ShadowClassification, ShadowContext,
};

verus! {

/// Why a classification is put off.
pub const UNREACHABLE: &'static str =
    "Certificate inventory is unreachable; classification deferred until inventory becomes available";

/// Limits that the classification applies.
#[derive(Clone, Debug)]
pub struct ShadowClassifierConfig {
    /// Longest validity period in days.
    pub max_validity_days: i64,
    /// Smallest RSA key in bits.
    pub min_rsa_key_size: u32,
    /// Smallest ECDSA key in bits.
    pub min_ecdsa_key_size: u32,
    /// Remaining days below which a certificate is of medium risk.
    pub near_expiry_threshold_days: i64,
    /// Names of the trusted issuers, up to case. Where there is none, every issuer but the
    /// subject itself is trusted.
    pub trusted_issuers: Vec<String>,
}

/// The limits that apply unless others are configured.
pub open spec fn default_limits(config: ShadowClassifierConfig) -> bool {
    &&& config.max_validity_days == 398
    &&& config.min_rsa_key_size == 2048
    &&& config.min_ecdsa_key_size == 256
    &&& config.near_expiry_threshold_days == 30
    &&& config.trusted_issuers@.len() == 0
}

impl Default for ShadowClassifierConfig {
    fn default() -> (r: Self)
        ensures
            default_limits(r),
    {
        ShadowClassifierConfig {
            max_validity_days: 398,
            min_rsa_key_size: 2048,
            min_ecdsa_key_size: 256,
            near_expiry_threshold_days: 30,
            trusted_issuers: Vec::new(),
        }
    }
}

/// Subject and issuer are the same up to ASCII case.
pub open spec fn self_signed(cert: CertificateMetadata) -> bool {
    eq_ignoring_ascii_case(cert.subject@, cert.issuer@)
}

/// The certificate's key is too small for its algorithm.
pub open spec fn has_weak_key(config: ShadowClassifierConfig, cert: CertificateMetadata) -> bool {
    weak_key(
        uppercase(cert.key_algorithm@),
        cert.key_size,
        config.min_rsa_key_size,
        config.min_ecdsa_key_size,
    )
}

/// There are trusted issuers, and the given one, in lowercase, is not among them.
pub open spec fn issuer_untrusted(trusted: Seq<String>, issuer_lower: Seq<char>) -> bool {
    &&& trusted.len() > 0
    &&& forall|i: int| 0 <= i < trusted.len() ==> lowercase((#[trigger] trusted[i])@) != issuer_lower
}

/// The certificate's issuer is not trusted.
pub open spec fn has_untrusted_issuer(
    config: ShadowClassifierConfig,
    cert: CertificateMetadata,
) -> bool {
    issuer_untrusted(config.trusted_issuers@, lowercase(cert.issuer@))
}

/// The certificate's validity period is too long.
pub open spec fn has_long_validity(
    config: ShadowClassifierConfig,
    cert: CertificateMetadata,
) -> bool {
    validity_exceeds(cert, config.max_validity_days as int)
}

/// At instant `now` the certificate has not expired but soon will.
pub open spec fn has_near_expiry(
    config: ShadowClassifierConfig,
    cert: CertificateMetadata,
    now: int,
) -> bool {
    &&& cert.not_after.at() > now
    &&& whole_days(cert.not_after.at() - now) < config.near_expiry_threshold_days
}

/// The risk of an unknown certificate at instant `now`: critical where it is self-signed or
/// its key is weak; else high where its issuer is not trusted or it is valid for too long;
/// else medium where it soon expires; else low.
pub open spec fn risk_of(
    config: ShadowClassifierConfig,
    cert: CertificateMetadata,
    now: int,
) -> RiskLevel {
    if self_signed(cert) || has_weak_key(config, cert) {
        RiskLevel::Critical
    } else if has_untrusted_issuer(config, cert) || has_long_validity(config, cert) {
        RiskLevel::High
    } else if has_near_expiry(config, cert, now) {
        RiskLevel::Medium
    } else {
        RiskLevel::Low
    }
}

/// The classification says where the certificate stands with respect to the inventory at
/// instant `now`.
pub open spec fn is_classification(
    r: ShadowClassification,
    config: ShadowClassifierConfig,
    cert: CertificateMetadata,
    available: bool,
    in_inventory: bool,
    now: int,
) -> bool {
    if !available {
        r matches ShadowClassification::Deferred { reason } && reason@ == UNREACHABLE@
    } else if in_inventory {
        r is Known
    } else {
        r matches ShadowClassification::Shadow { risk_level, context } && risk_level == risk_of(
            config,
            cert,
            now,
        ) && context.source_ip == cert.source_ip && context.destination == cert.destination_ip
            && context.first_seen == cert.first_seen
    }
}

/// The severity of an alert about a shadow certificate.
pub open spec fn severity_of_risk(risk: RiskLevel) -> Severity {
    match risk {
        RiskLevel::Critical => Severity::Critical,
        RiskLevel::High => Severity::High,
        RiskLevel::Medium => Severity::Medium,
        RiskLevel::Low => Severity::Low,
    }
}

/// Why a shadow certificate has the given risk.
pub open spec fn risk_text(
    config: ShadowClassifierConfig,
    cert: CertificateMetadata,
    risk: RiskLevel,
    now: int,
) -> Seq<char> {
    match risk {
        RiskLevel::Critical => if self_signed(cert) {
            "Shadow certificate is self-signed (subject == issuer: '"@ + cert.subject@ + "')"@
        } else {
            "Shadow certificate uses weak key: "@ + cert.key_algorithm@ + " "@ + decimal(
                cert.key_size as nat,
            ) + " bits"@
        },
        RiskLevel::High => if has_untrusted_issuer(config, cert) {
            "Shadow certificate has untrusted issuer: '"@ + cert.issuer@ + "'"@
        } else {
            "Shadow certificate has excessive validity period: "@ + signed_decimal(
                validity_days(cert),
            ) + " days (max: "@ + signed_decimal(config.max_validity_days as int) + ")"@
        },
        RiskLevel::Medium => "Shadow certificate has "@ + signed_decimal(
            whole_days(cert.not_after.at() - now),
        ) + " days remaining (threshold: "@ + signed_decimal(
            config.near_expiry_threshold_days as int,
        ) + ")"@,
        RiskLevel::Low =>
            "Shadow certificate detected with low risk: trusted issuer, adequate key strength, normal validity"@,
    }
}

/// An optional text, or "unknown".
pub open spec fn or_unknown(s: Option<String>) -> Seq<char> {
    match s {
        Some(t) => t@,
        None => "unknown"@,
    }
}

/// Why a shadow certificate has the given risk and where it was observed.
pub open spec fn shadow_text(
    config: ShadowClassifierConfig,
    cert: CertificateMetadata,
    risk: RiskLevel,
    now: int,
) -> Seq<char> {
    risk_text(config, cert, risk, now) + origin_text(cert, cert.first_seen.text(ISO_SECONDS@))
}

/// Where a shadow certificate was observed, and when first, which is given in words.
pub open spec fn origin_text(cert: CertificateMetadata, first_seen: Seq<char>) -> Seq<char> {
    " | Origin: source_ip="@ + or_unknown(cert.source_ip) + ", destination="@ + or_unknown(
        cert.destination_ip,
    ) + ", first_seen="@ + first_seen
}

/// The alert about a shadow certificate of the given risk.
pub open spec fn shadow_alert(
    config: ShadowClassifierConfig,
    cert: CertificateMetadata,
    risk: RiskLevel,
    now: Timestamp,
) -> DirectiveContent {
    DirectiveContent {
        cert_fingerprint: cert.fingerprint@,
        action_type: ActionType::Alert,
        severity: severity_of_risk(risk),
        reasoning: bounded(shadow_text(config, cert, risk, now.at())),
        created_at: now,
        source_anomaly: None,
        attempt_count: 0,
    }
}

/// The reasoning of an alert is within the bound on a reasoning's length.
pub proof fn shadow_reasoning_is_short(
    config: ShadowClassifierConfig,
    cert: CertificateMetadata,
    risk: RiskLevel,
    now: Timestamp,
)
    ensures
        shadow_alert(config, cert, risk, now).reasoning.len() <= MAX_REASONING,
{
    bounded_reasoning_is_short(shadow_text(config, cert, risk, now.at()));
}

/// A weak key outranks every other consideration, and so does a certificate that signs
/// itself: the risk is critical exactly in these two cases.
pub proof fn critical_iff_self_signed_or_weak(
    config: ShadowClassifierConfig,
    cert: CertificateMetadata,
    now: Timestamp,
)
    ensures
        risk_of(config, cert, now.at()) is Critical <==> self_signed(cert) || has_weak_key(
            config,
            cert,
        ),
{
}

/// With no trusted issuers configured, the risk is high exactly where the key is adequate,
/// the certificate does not sign itself, and it is valid for too long.
pub proof fn high_without_trusted_issuers(
    config: ShadowClassifierConfig,
    cert: CertificateMetadata,
    now: Timestamp,
)
    requires
        config.trusted_issuers@.len() == 0,
    ensures
        risk_of(config, cert, now.at()) is High <==> !self_signed(cert) && !has_weak_key(
            config,
            cert,
        ) && has_long_validity(config, cert),
{
}

/// Whether the issuer, given in lowercase, is missing from a list of trusted ones that is
/// not empty.
pub fn is_issuer_untrusted(trusted: &Vec<String>, issuer_lower: &str) -> (r: bool)
    ensures
        r == issuer_untrusted(trusted@, issuer_lower@),
{
    if trusted.len() == 0 {
        return false;
    }
    let mut i: usize = 0;
    while i < trusted.len()
        invariant
            i <= trusted.len(),
            forall|j: int|
                0 <= j < i ==> lowercase((#[trigger] trusted@[j])@) != issuer_lower@,
        decreases trusted.len() - i,
    {
        let lower = trusted[i].as_str().to_lowercase();
        if same_text(lower.as_str(), issuer_lower) {
            assert(lowercase(trusted@[i as int]@) == issuer_lower@);
            return false;
        }
        i += 1;
    }
    true
}

/// Appends an optional text, or "unknown".
fn append_or_unknown(out: &mut String, s: &Option<String>)
    ensures
        final(out)@ == old(out)@ + or_unknown(*s),
{
    match s {
        Some(t) => out.append(t.as_str()),
        None => out.append("unknown"),
    }
}

/// Appends where a shadow certificate was observed, and when first, which is given in words.
pub fn append_origin(out: &mut String, metadata: &CertificateMetadata, first_seen: &str)
    ensures
        final(out)@ == old(out)@ + origin_text(*metadata, first_seen@),
{
    out.append(" | Origin: source_ip=");
    append_or_unknown(out, &metadata.source_ip);
    out.append(", destination=");
    append_or_unknown(out, &metadata.destination_ip);
    out.append(", first_seen=");
    out.append(first_seen);
    proof {
        assert(final(out)@ =~= old(out)@ + origin_text(*metadata, first_seen@));
    }
}

/// Classifies certificates with respect to the inventory.
#[derive(Clone, Debug)]
pub struct ShadowClassifier {
    pub config: ShadowClassifierConfig,
}

impl ShadowClassifier {
    /// A classifier with the given limits.
    pub fn new(config: ShadowClassifierConfig) -> (r: Self)
        ensures
            r.config == config,
    {
        ShadowClassifier { config }
    }

    /// A classifier with the usual limits.
    pub fn with_defaults() -> (r: Self)
        ensures
            default_limits(r.config),
    {
        ShadowClassifier::new(ShadowClassifierConfig::default())
    }

    /// Classifies a certificate at the present instant.
    pub fn classify(
        &self,
        metadata: &CertificateMetadata,
        inventory_available: bool,
        in_inventory: bool,
    ) -> (r: ShadowClassification)
        ensures
            exists|now: Timestamp|
                is_classification(
                    r,
                    self.config,
                    *metadata,
                    inventory_available,
                    in_inventory,
                    #[trigger] now.at(),
                ),
    {
        let now = Timestamp::now();
        self.classify_at(metadata, inventory_available, in_inventory, &now)
    }

    /// Classifies a certificate at a given instant: deferred where the inventory cannot be
    /// asked, known where it is in the inventory, and else a shadow certificate with its
    /// risk and origin.
    pub fn classify_at(
        &self,
        metadata: &CertificateMetadata,
        inventory_available: bool,
        in_inventory: bool,
        now: &Timestamp,
    ) -> (r: ShadowClassification)
        ensures
            is_classification(
                r,
                self.config,
                *metadata,
                inventory_available,
                in_inventory,
                now.at(),
            ),
    {
        if !inventory_available {
            return ShadowClassification::Deferred { reason: String::from_str(UNREACHABLE) };
        }
        if in_inventory {
            return ShadowClassification::Known;
        }
        let risk_level = self.determine_risk_level(metadata, now);
        let context = ShadowContext {
            source_ip: clone_text(&metadata.source_ip),
            destination: clone_text(&metadata.destination_ip),
            first_seen: metadata.first_seen,
        };
        ShadowClassification::Shadow { risk_level, context }
    }

    /// The alert about a shadow certificate at the present instant.
    pub fn generate_directive(&self, metadata: &CertificateMetadata, risk_level: RiskLevel) -> (r:
        ActionDirective)
        ensures
            r.content() == shadow_alert(self.config, *metadata, risk_level, r.created_at),
            is_random_uuid(r.id.bits) && is_random_uuid(r.correlation_id.bits),
    {
        let now = Timestamp::now();
        self.generate_directive_at(metadata, risk_level, &now)
    }

    /// The alert about a shadow certificate at a given instant, with the severity of its
    /// risk, the reason and the origin.
    pub fn generate_directive_at(
        &self,
        metadata: &CertificateMetadata,
        risk_level: RiskLevel,
        now: &Timestamp,
    ) -> (r: ActionDirective)
        ensures
            r.content() == shadow_alert(self.config, *metadata, risk_level, *now),
            is_random_uuid(r.id.bits) && is_random_uuid(r.correlation_id.bits),
    {
        let severity = match risk_level {
            RiskLevel::Critical => Severity::Critical,
            RiskLevel::High => Severity::High,
            RiskLevel::Medium => Severity::Medium,
            RiskLevel::Low => Severity::Low,
        };
        let reasoning = self.build_reasoning(metadata, risk_level, now);
        ActionDirective {
            id: Uuid::new_v4(),
            correlation_id: Uuid::new_v4(),
            cert_fingerprint: metadata.fingerprint,
            action_type: ActionType::Alert,
            severity,
            reasoning,
            created_at: *now,
            source_anomaly: None,
            attempt_count: 0,
        }
    }

    /// The risk of an unknown certificate at a given instant.
    pub fn determine_risk_level(&self, metadata: &CertificateMetadata, now: &Timestamp) -> (r:
        RiskLevel)
        ensures
            r == risk_of(self.config, *metadata, now.at()),
    {
        if self.is_self_signed(metadata) || self.has_weak_key(metadata) {
            return RiskLevel::Critical;
        }
        if self.has_untrusted_issuer(metadata) || self.has_long_validity(metadata) {
            return RiskLevel::High;
        }
        if self.has_near_expiry(metadata, now) {
            return RiskLevel::Medium;
        }
        RiskLevel::Low
    }

    /// Whether subject and issuer are the same.
    fn is_self_signed(&self, metadata: &CertificateMetadata) -> (r: bool)
        ensures
            r == self_signed(*metadata),
    {
        same_ignoring_ascii_case(metadata.subject.as_str(), metadata.issuer.as_str())
    }

    /// Whether the key is too small for its algorithm.
    fn has_weak_key(&self, metadata: &CertificateMetadata) -> (r: bool)
        ensures
            r == has_weak_key(self.config, *metadata),
    {
        let algorithm = metadata.key_algorithm.as_str().to_uppercase();
        is_weak_key(
            algorithm.as_str(),
            metadata.key_size,
            self.config.min_rsa_key_size,
            self.config.min_ecdsa_key_size,
        )
    }

    /// Whether the issuer is missing from a list of trusted ones that is not empty.
    fn has_untrusted_issuer(&self, metadata: &CertificateMetadata) -> (r: bool)
        ensures
            r == has_untrusted_issuer(self.config, *metadata),
    {
        let issuer_lower = metadata.issuer.as_str().to_lowercase();
        is_issuer_untrusted(&self.config.trusted_issuers, issuer_lower.as_str())
    }

    /// Whether the validity period is too long.
    fn has_long_validity(&self, metadata: &CertificateMetadata) -> (r: bool)
        ensures
            r == has_long_validity(self.config, *metadata),
    {
        metadata.not_after.is_days_after(&metadata.not_before, self.config.max_validity_days)
    }

    /// Whether the certificate has not expired but soon will.
    fn has_near_expiry(&self, metadata: &CertificateMetadata, now: &Timestamp) -> (r: bool)
        ensures
            r == has_near_expiry(self.config, *metadata, now.at()),
    {
        now.is_before(&metadata.not_after) && metadata.not_after.days_since(now)
            < self.config.near_expiry_threshold_days
    }

    /// Why the certificate has the given risk and where it was observed, within the bound on
    /// a reasoning's length.
    pub fn build_reasoning(
        &self,
        metadata: &CertificateMetadata,
        risk_level: RiskLevel,
        now: &Timestamp,
    ) -> (r: String)
        ensures
            r@ == bounded(shadow_text(self.config, *metadata, risk_level, now.at())),
    {
        let mut out = match risk_level {
            RiskLevel::Critical => {
                if self.is_self_signed(metadata) {
                    let mut text = String::from_str(
                        "Shadow certificate is self-signed (subject == issuer: '",
                    );
                    text.append(metadata.subject.as_str());
                    text.append("')");
                    text
                } else {
                    let mut text = String::from_str("Shadow certificate uses weak key: ");
                    text.append(metadata.key_algorithm.as_str());
                    text.append(" ");
                    push_decimal(&mut text, metadata.key_size as u64);
                    text.append(" bits");
                    text
                }
            },
            RiskLevel::High => {
                if self.has_untrusted_issuer(metadata) {
                    let mut text = String::from_str("Shadow certificate has untrusted issuer: '");
                    text.append(metadata.issuer.as_str());
                    text.append("'");
                    text
                } else {
                    let mut text = String::from_str(
                        "Shadow certificate has excessive validity period: ",
                    );
                    push_signed(&mut text, metadata.not_after.days_since(&metadata.not_before));
                    text.append(" days (max: ");
                    push_signed(&mut text, self.config.max_validity_days);
                    text.append(")");
                    text
                }
            },
            RiskLevel::Medium => {
                let mut text = String::from_str("Shadow certificate has ");
                push_signed(&mut text, metadata.not_after.days_since(now));
                text.append(" days remaining (threshold: ");
                push_signed(&mut text, self.config.near_expiry_threshold_days);
                text.append(")");
                text
            },
            RiskLevel::Low => String::from_str(
                "Shadow certificate detected with low risk: trusted issuer, adequate key strength, normal validity",
            ),
        };
        append_origin(&mut out, metadata, metadata.first_seen.iso_text().as_str());
        bound_reasoning(out)
    }
}

// ---------------------------------------------------------------------------
// Laws
// ---------------------------------------------------------------------------

/// Subject and issuer are the same up to ASCII case, or the key of RSA or ECDSA is smaller than
/// allowed.
pub open spec fn is_unsound(config: ShadowClassifierConfig, cert: CertificateMetadata) -> bool {
    let algorithm = uppercase(cert.key_algorithm@);
    ||| eq_ignoring_ascii_case(cert.subject@, cert.issuer@)
    ||| algorithm == "RSA"@ && cert.key_size < config.min_rsa_key_size
    ||| algorithm == "ECDSA"@ && cert.key_size < config.min_ecdsa_key_size
    ||| algorithm == "EC"@ && cert.key_size < config.min_ecdsa_key_size
}

/// There are trusted issuers and the certificate's is none of them up to case, or the certificate
/// is valid for more days than allowed.
pub open spec fn is_out_of_policy(config: ShadowClassifierConfig, cert: CertificateMetadata) -> bool {
    ||| config.trusted_issuers@.len() > 0 && !exists|i: int|
        0 <= i < config.trusted_issuers@.len() && lowercase(
            (#[trigger] config.trusted_issuers@[i])@,
        ) == lowercase(cert.issuer@)
    ||| cert.not_after.at() - cert.not_before.at() > config.max_validity_days
        * 86_400_000_000_000
}

/// The certificate has not expired, but will in less than the given number of days.
pub open spec fn expires_soon(
    config: ShadowClassifierConfig,
    cert: CertificateMetadata,
    now: Timestamp,
) -> bool {
    0 < cert.not_after.at() - now.at() < config.near_expiry_threshold_days * 86_400_000_000_000
}

/// The risk of a shadow certificate is that of the worst thing about it, whatever the list of
/// trusted issuers: critical exactly where it is unsound; high exactly where it is sound and out
/// of policy; medium exactly where it is neither but expires soon; and low in all other cases.
pub proof fn risk_is_that_of_the_worst(
    config: ShadowClassifierConfig,
    cert: CertificateMetadata,
    now: Timestamp,
)
    ensures
        risk_of(config, cert, now.at()) is Critical <==> is_unsound(config, cert),
        risk_of(config, cert, now.at()) is High <==> !is_unsound(config, cert) && is_out_of_policy(
            config,
            cert,
        ),
        risk_of(config, cert, now.at()) is Medium <==> !is_unsound(config, cert)
            && !is_out_of_policy(config, cert) && expires_soon(config, cert, now),
        risk_of(config, cert, now.at()) is Low <==> !is_unsound(config, cert) && !is_out_of_policy(
            config,
            cert,
        ) && !expires_soon(config, cert, now),
{
    crate::anomaly::lemma_algorithms_differ();
    crate::anomaly::lemma_fewer_days(
        cert.not_after.at() - now.at(),
        config.near_expiry_threshold_days as int,
    );
}

/// A certificate is deferred exactly where the inventory could not be asked, known exactly where
/// it was found there, and else a shadow certificate of its risk and origin.
pub proof fn classification_follows_the_inventory(
    r: ShadowClassification,
    config: ShadowClassifierConfig,
    cert: CertificateMetadata,
    available: bool,
    in_inventory: bool,
    now: Timestamp,
)
    requires
        is_classification(r, config, cert, available, in_inventory, now.at()),
    ensures
        r is Deferred <==> !available,
        r matches ShadowClassification::Deferred { reason } ==> reason@
            == "Certificate inventory is unreachable; classification deferred until inventory becomes available"@,
        r is Known <==> available && in_inventory,
        r is Shadow <==> available && !in_inventory,
        r matches ShadowClassification::Shadow { risk_level, context } ==> {
            &&& risk_level is Critical <==> is_unsound(config, cert)
            &&& risk_level is High <==> !is_unsound(config, cert) && is_out_of_policy(config, cert)
            &&& risk_level is Medium <==> !is_unsound(config, cert) && !is_out_of_policy(
                config,
                cert,
            ) && expires_soon(config, cert, now)
            &&& context.source_ip == cert.source_ip
            &&& context.destination == cert.destination_ip
            &&& context.first_seen == cert.first_seen
        },
{
    risk_is_that_of_the_worst(config, cert, now);
}

/// The alert about a shadow certificate is as urgent as its risk is high, is about that
/// certificate, and says why and where it was observed.
pub proof fn shadow_alert_tells_why(
    config: ShadowClassifierConfig,
    cert: CertificateMetadata,
    risk: RiskLevel,
    now: Timestamp,
)
    ensures
        ({
            let alert = shadow_alert(config, cert, risk, now);
            let validity = cert.not_after.at() - cert.not_before.at();
            let origin = " | Origin: source_ip="@ + (match cert.source_ip {
                Some(ip) => ip@,
                None => "unknown"@,
            }) + ", destination="@ + (match cert.destination_ip {
                Some(ip) => ip@,
                None => "unknown"@,
            }) + ", first_seen="@ + cert.first_seen.text("%Y-%m-%dT%H:%M:%SZ"@);
            &&& alert.severity is Critical <==> risk is Critical
            &&& alert.severity is High <==> risk is High
            &&& alert.severity is Medium <==> risk is Medium
            &&& alert.severity is Low <==> risk is Low
            &&& alert.action_type is Alert
            &&& alert.cert_fingerprint == cert.fingerprint@
            &&& alert.created_at == now
            &&& alert.source_anomaly is None
            &&& alert.attempt_count == 0
            &&& risk is Critical && eq_ignoring_ascii_case(cert.subject@, cert.issuer@)
                ==> alert.reasoning == bounded(
                "Shadow certificate is self-signed (subject == issuer: '"@ + cert.subject@ + "')"@
                    + origin,
            )
            &&& risk is Critical && !eq_ignoring_ascii_case(cert.subject@, cert.issuer@)
                ==> alert.reasoning == bounded(
                "Shadow certificate uses weak key: "@ + cert.key_algorithm@ + " "@ + decimal(
                    cert.key_size as nat,
                ) + " bits"@ + origin,
            )
            &&& risk is High && has_untrusted_issuer(config, cert) ==> alert.reasoning == bounded(
                "Shadow certificate has untrusted issuer: '"@ + cert.issuer@ + "'"@ + origin,
            )
            &&& risk is High && !has_untrusted_issuer(config, cert) ==> alert.reasoning == bounded(
                "Shadow certificate has excessive validity period: "@ + signed_decimal(
                    whole_days(validity),
                ) + " days (max: "@ + signed_decimal(config.max_validity_days as int) + ")"@
                    + origin,
            )
            &&& risk is Medium ==> alert.reasoning == bounded(
                "Shadow certificate has "@ + signed_decimal(
                    whole_days(cert.not_after.at() - now.at()),
                ) + " days remaining (threshold: "@ + signed_decimal(
                    config.near_expiry_threshold_days as int,
                ) + ")"@ + origin,
            )
            &&& risk is Low ==> alert.reasoning == bounded(
                "Shadow certificate detected with low risk: trusted issuer, adequate key strength, normal validity"@
                    + origin,
            )
        }),
{
}

/// An issuer is untrusted exactly where the list is not empty and does not hold it up to case. A
/// longer list trusts no fewer issuers, once there is one.
pub proof fn trusted_issuers_are_those_listed(
    trusted: Seq<String>,
    more: Seq<String>,
    issuer: Seq<char>,
    i: int,
)
    ensures
        trusted.len() == 0 ==> !issuer_untrusted(trusted, issuer),
        0 <= i < trusted.len() && lowercase(trusted[i]@) == issuer ==> !issuer_untrusted(
            trusted,
            issuer,
        ) && !issuer_untrusted(trusted + more, issuer),
        trusted.len() > 0 && !issuer_untrusted(trusted, issuer) ==> exists|k: int|
            0 <= k < trusted.len() && lowercase((#[trigger] trusted[k])@) == issuer,
{
    if 0 <= i < trusted.len() && lowercase(trusted[i]@) == issuer {
        assert((trusted + more)[i] == trusted[i]);
    }
}

/// The usual limits: keys of RSA from 2048 bits and of ECDSA from 256, at most 398 days of
/// validity, notice 30 days before expiry, and no list of trusted issuers.
pub proof fn usual_limits_of_shadows(config: ShadowClassifierConfig)
    ensures
        default_limits(config) <==> {
            &&& config.min_rsa_key_size == 2048
            &&& config.min_ecdsa_key_size == 256
            &&& config.max_validity_days == 398
            &&& config.near_expiry_threshold_days == 30
            &&& config.trusted_issuers@.len() == 0
        },
{
}

} // verus!
