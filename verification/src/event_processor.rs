//! From kernel events to certificate metadata.

use vstd::prelude::*;
use vstd::utf8::{decode_utf8, valid_utf8};
use x509_parser::prelude::FromDer;
use crate::bpf::{TlsCertEvent, MAX_CERT_DATA, MAX_SNI};
use crate::completeness::{
    has_all, CHAIN_DEPTH, ISSUER, ISSUER_FINGERPRINT, KEY_ALGORITHM, KEY_SIZE, NOT_AFTER,
    NOT_BEFORE, SANS, SERIAL_NUMBER, SUBJECT,
};
use crate::hex::{hex, hex_range};
use crate::text::{
    decimal, decimal_is_read_back, first_chars, led_in, push_decimal, same_text, take_first_chars, views,
};
use crate::time::{in_calendar, Timestamp, NANOS_PER_SEC};
use crate::types::{zero_fingerprint, CertificateMetadata};

verus! {

/// Most names of a certificate that are kept.
pub const MAX_SANS: usize = 100;

/// Most characters of a distinguished name that are kept.
pub const MAX_NAME_CHARS: usize = 2048;

/// Why an event yields no metadata.
#[derive(Clone, Debug)]
pub enum EventProcessError {
    /// The certificate cannot be read at all.
    MalformedCertificate {
        reason: String,
        timestamp_ns: u64,
        src_ip: u32,
        dst_ip: u32,
        dst_port: u16,
        available_bytes: u32,
    },
    /// The certificate can be read in part only.
    PartialExtraction { missing_fields: String },
}

impl EventProcessError {
    /// The error in words.
    pub fn message(&self) -> (r: String)
        ensures
            r@ == (match self {
                EventProcessError::MalformedCertificate { reason, .. } => "malformed certificate: "@
                    + reason@,
                EventProcessError::PartialExtraction { missing_fields } =>
                    "partial certificate extraction: "@ + missing_fields@,
            }),
    {
        match self {
            EventProcessError::MalformedCertificate { reason, .. } => led_in("malformed certificate: ", reason.as_str()),
            EventProcessError::PartialExtraction { missing_fields } => led_in("partial certificate extraction: ", missing_fields.as_str()),
        }
    }
}

/// What an event yields.
#[derive(Clone, Debug)]
pub struct ProcessedEvent {
    pub metadata: CertificateMetadata,
    /// Whether the kernel could not hand over the whole certificate.
    pub is_truncated: bool,
}

// ---------------------------------------------------------------------------
// Parsed certificates
// ---------------------------------------------------------------------------

/// The fields of an X.509 certificate.
#[derive(Clone, Debug)]
pub struct ParsedCertificate {
    pub subject: String,
    pub issuer: String,
    /// Serial number in hexadecimal.
    pub serial_number: String,
    /// Start of the validity period in seconds since the Unix epoch.
    pub not_before: i64,
    /// End of the validity period in seconds since the Unix epoch.
    pub not_after: i64,
    /// Object identifier of the key's algorithm.
    pub key_oid: String,
    /// Parameters of the key's algorithm.
    pub key_parameters: Option<Vec<u8>>,
    /// The public key.
    pub key_data: Vec<u8>,
}

/// The fields of an X.509 certificate as mathematical values.
pub struct ParsedView {
    pub subject: Seq<char>,
    pub issuer: Seq<char>,
    pub serial_number: Seq<char>,
    pub not_before: i64,
    pub not_after: i64,
    pub key_oid: Seq<char>,
    pub key_parameters: Option<Seq<u8>>,
    pub key_data: Seq<u8>,
}

impl View for ParsedCertificate {
    type V = ParsedView;

    open spec fn view(&self) -> ParsedView {
        ParsedView {
            subject: self.subject@,
            issuer: self.issuer@,
            serial_number: self.serial_number@,
            not_before: self.not_before,
            not_after: self.not_after,
            key_oid: self.key_oid@,
            key_parameters: match self.key_parameters {
                Some(p) => Some(p@),
                None => None,
            },
            key_data: self.key_data@,
        }
    }
}

/// A subject alternative name.
#[derive(Clone, Debug)]
pub enum AlternativeName {
    Dns(String),
    /// 4 bytes, or 16.
    Ip(Vec<u8>),
    Email(String),
    Uri(String),
    /// A name of another kind.
    Other,
}

/// A subject alternative name as a mathematical value.
pub enum NameView {
    Dns(Seq<char>),
    Ip(Seq<u8>),
    Email(Seq<char>),
    Uri(Seq<char>),
    Other,
}

impl View for AlternativeName {
    type V = NameView;

    open spec fn view(&self) -> NameView {
        match self {
            AlternativeName::Dns(s) => NameView::Dns(s@),
            AlternativeName::Ip(b) => NameView::Ip(b@),
            AlternativeName::Email(s) => NameView::Email(s@),
            AlternativeName::Uri(s) => NameView::Uri(s@),
            AlternativeName::Other => NameView::Other,
        }
    }
}

/// The names as mathematical values.
pub open spec fn name_views(names: Seq<AlternativeName>) -> Seq<NameView> {
    Seq::new(names.len(), |i: int| names[i]@)
}

/// The SHA-256 digest of the bytes, as `sha2::Sha256` computes it.
pub uninterp spec fn sha256(data: Seq<u8>) -> Seq<u8>;

/// The fields that `x509_parser` reads from a certificate in DER; `None` where the bytes do
/// not start with one.
pub uninterp spec fn x509_fields(der: Seq<u8>) -> Option<ParsedView>;

/// The names in the extension that `x509_parser` finds in a certificate in DER; none where
/// there is no such extension or it cannot be read.
pub uninterp spec fn x509_names(der: Seq<u8>) -> Seq<NameView>;

/// The SHA-256 digest of the bytes. `sha2::Sha256::digest` depends on the bytes alone; what
/// the digest is, is not spelled out.
#[verifier::external_body]
pub fn compute_sha256(data: &[u8]) -> (r: [u8; 32])
    ensures
        r@ == sha256(data@),
{
    <sha2::Sha256 as sha2::Digest>::digest(data).into()
}

/// `x509_parser::certificate::X509Certificate::from_der`: the fields of the certificate with
/// which the bytes start. They depend on the bytes alone; the grammar is not spelled out.
#[verifier::external_body]
fn parse_fields(der: &[u8]) -> (r: Option<ParsedCertificate>)
    ensures
        match r {
            Some(c) => x509_fields(der@) == Some(c@),
            None => x509_fields(der@) is None,
        },
{
    let (_, c) = x509_parser::certificate::X509Certificate::from_der(der).ok()?;
    let key = c.public_key();
    Some(ParsedCertificate {
        subject: c.subject().to_string(),
        issuer: c.issuer().to_string(),
        serial_number: c.serial.to_str_radix(16),
        not_before: c.validity().not_before.timestamp(),
        not_after: c.validity().not_after.timestamp(),
        key_oid: key.algorithm.algorithm.to_string(),
        key_parameters: key.algorithm.parameters.as_ref().map(|p| p.data.to_vec()),
        key_data: key.subject_public_key.data.to_vec(),
    })
}

/// `X509Certificate::subject_alternative_name` of `x509_parser`: the names in the
/// certificate's extension, in order. They depend on the bytes alone.
#[verifier::external_body]
fn parse_names(der: &[u8]) -> (r: Vec<AlternativeName>)
    ensures
        name_views(r@) == x509_names(der@),
{
    let parsed = x509_parser::certificate::X509Certificate::from_der(der).ok();
    let ext = parsed.as_ref().and_then(|(_, c)| c.subject_alternative_name().ok().flatten());
    ext.map_or(Vec::new(), |e| e.value.general_names.iter().map(|n| match n {
        x509_parser::extensions::GeneralName::DNSName(s) => AlternativeName::Dns(s.to_string()),
        x509_parser::extensions::GeneralName::IPAddress(b) => AlternativeName::Ip(b.to_vec()),
        x509_parser::extensions::GeneralName::RFC822Name(s) => AlternativeName::Email(s.to_string()),
        x509_parser::extensions::GeneralName::URI(s) => AlternativeName::Uri(s.to_string()),
        _ => AlternativeName::Other,
    }).collect())
}

/// `String::from_utf8`: the text that the bytes encode, where they are valid UTF-8.
#[verifier::external_body]
fn utf8_text(bytes: Vec<u8>) -> (r: Option<String>)
    ensures
        r is Some <==> valid_utf8(bytes@),
        r matches Some(s) ==> s@ == decode_utf8(bytes@),
{
    String::from_utf8(bytes).ok()
}

// ---------------------------------------------------------------------------
// Addresses and names
// ---------------------------------------------------------------------------

/// Four numbers with dots between.
pub open spec fn dotted(a: nat, b: nat, c: nat, d: nat) -> Seq<char> {
    decimal(a) + "."@ + decimal(b) + "."@ + decimal(c) + "."@ + decimal(d)
}

/// An IPv4 address, most significant byte first.
pub open spec fn ipv4_text(ip: u32) -> Seq<char> {
    dotted(
        (ip / 0x100_0000) as nat,
        ((ip / 0x1_0000) % 0x100) as nat,
        ((ip / 0x100) % 0x100) as nat,
        (ip % 0x100) as nat,
    )
}

/// Four numbers with dots between.
fn dotted_text(a: u8, b: u8, c: u8, d: u8) -> (r: String)
    ensures
        r@ == dotted(a as nat, b as nat, c as nat, d as nat),
{
    let mut out = String::new();
    push_decimal(&mut out, a as u64);
    assert(out@ =~= decimal(a as nat));
    out.append(".");
    push_decimal(&mut out, b as u64);
    out.append(".");
    push_decimal(&mut out, c as u64);
    out.append(".");
    push_decimal(&mut out, d as u64);
    out
}

/// An IPv4 address in dotted notation, most significant byte first.
pub fn format_ipv4(ip: u32) -> (r: String)
    ensures
        r@ == ipv4_text(ip),
{
    dotted_text(
        (ip / 0x100_0000) as u8,
        ((ip / 0x1_0000) % 0x100) as u8,
        ((ip / 0x100) % 0x100) as u8,
        (ip % 0x100) as u8,
    )
}

/// The first `count` pairs of bytes in hexadecimal, with colons between.
pub open spec fn hex_pairs(bytes: Seq<u8>, count: nat) -> Seq<char>
    decreases count,
{
    if count == 0 {
        Seq::empty()
    } else if count == 1 {
        hex(bytes.subrange(0, 2))
    } else {
        hex_pairs(bytes, (count - 1) as nat) + ":"@ + hex(
            bytes.subrange(2 * (count - 1), 2 * count as int),
        )
    }
}

/// An IPv6 address: eight groups of four hexadecimal digits.
fn ipv6_text(bytes: &Vec<u8>) -> (r: String)
    requires
        bytes.len() == 16,
    ensures
        r@ == hex_pairs(bytes@, 8),
{
    let mut out = String::new();
    let mut i: usize = 0;
    while i < 8
        invariant
            i <= 8,
            bytes.len() == 16,
            out@ == hex_pairs(bytes@, i as nat),
        decreases 8 - i,
    {
        if i > 0 {
            out.append(":");
        }
        out.append(hex_range(bytes.as_slice(), 2 * i, 2 * i + 2).as_str());
        assert(i == 0 ==> out@ =~= hex_pairs(bytes@, 1));
        i += 1;
    }
    out
}

/// A name in words; `None` for an address that is neither of 4 nor of 16 bytes, and for a
/// name of another kind.
pub open spec fn name_text(name: NameView) -> Option<Seq<char>> {
    match name {
        NameView::Dns(s) => Some(s),
        NameView::Ip(b) => if b.len() == 4 {
            Some(dotted(b[0] as nat, b[1] as nat, b[2] as nat, b[3] as nat))
        } else if b.len() == 16 {
            Some(hex_pairs(b, 8))
        } else {
            None
        },
        NameView::Email(s) => Some(s),
        NameView::Uri(s) => Some(s),
        NameView::Other => None,
    }
}

/// The names in words, in order.
pub open spec fn name_texts(names: Seq<NameView>) -> Seq<Seq<char>>
    decreases names.len(),
{
    if names.len() == 0 {
        Seq::empty()
    } else {
        match name_text(names.last()) {
            Some(text) => name_texts(names.drop_last()).push(text),
            None => name_texts(names.drop_last()),
        }
    }
}

/// The first names in words, as many as are kept.
pub open spec fn kept_sans(names: Seq<NameView>) -> Seq<Seq<char>> {
    let all = name_texts(names);
    if all.len() <= MAX_SANS {
        all
    } else {
        all.take(MAX_SANS as int)
    }
}

/// A name in words.
fn text_of_name(name: &AlternativeName) -> (r: Option<String>)
    ensures
        r is Some <==> name_text(name@) is Some,
        r matches Some(s) ==> name_text(name@) == Some(s@),
{
    match name {
        AlternativeName::Dns(s) => Some(s.clone()),
        AlternativeName::Ip(b) => {
            if b.len() == 4 {
                Some(dotted_text(b[0], b[1], b[2], b[3]))
            } else if b.len() == 16 {
                Some(ipv6_text(b))
            } else {
                None
            }
        },
        AlternativeName::Email(s) => Some(s.clone()),
        AlternativeName::Uri(s) => Some(s.clone()),
        AlternativeName::Other => None,
    }
}

/// The names of a certificate in words: at most 100, in order.
pub fn extract_sans(names: &Vec<AlternativeName>) -> (r: Vec<String>)
    ensures
        views(r@) == kept_sans(name_views(names@)),
        r.len() <= MAX_SANS,
{
    let mut out: Vec<String> = Vec::new();
    let mut i: usize = 0;
    let ghost all = name_views(names@);
    while i < names.len()
        invariant
            i <= names.len(),
            all == name_views(names@),
            out.len() <= MAX_SANS,
            views(out@) == kept_sans(all.take(i as int)),
        decreases names.len() - i,
    {
        assert(all.take(i + 1).drop_last() =~= all.take(i as int));
        assert(all.take(i + 1).last() == names@[i as int]@);
        let text = text_of_name(&names[i]);
        match text {
            Some(s) => {
                let ghost before = out@;
                let ghost texts = name_texts(all.take(i as int));
                if out.len() < MAX_SANS {
                    out.push(s);
                    assert(views(before).len() == before.len());
                    assert(views(out@) =~= texts.push(s@)) by {
                        assert(views(before) == texts);
                        assert forall|j: int| 0 <= j < out@.len() implies views(out@)[j]
                            == texts.push(s@)[j] by {
                            if j < before.len() {
                                assert(views(before)[j] == before[j]@);
                            }
                        }
                    }
                } else {
                    assert(texts.push(s@).take(MAX_SANS as int) =~= texts.take(MAX_SANS as int));
                    assert(texts.len() == MAX_SANS ==> texts.take(MAX_SANS as int) =~= texts);
                }
            },
            None => {},
        }
        i += 1;
    }
    assert(all.take(i as int) =~= all);
    out
}

// ---------------------------------------------------------------------------
// Keys
// ---------------------------------------------------------------------------

/// The name of a key's algorithm, by its object identifier.
pub open spec fn algorithm_name(oid: Seq<char>) -> Seq<char> {
    if oid == "1.2.840.113549.1.1.1"@ {
        "RSA"@
    } else if oid == "1.2.840.10045.2.1"@ {
        "ECDSA"@
    } else if oid == "1.3.101.112"@ {
        "Ed25519"@
    } else if oid == "1.3.101.113"@ {
        "Ed448"@
    } else {
        oid
    }
}

/// The size of an RSA key, estimated from the length of its encoding.
pub open spec fn rsa_size(raw_len: int) -> int {
    if raw_len >= 512 {
        4096
    } else if raw_len >= 384 {
        3072
    } else if raw_len >= 256 {
        2048
    } else if raw_len >= 128 {
        1024
    } else {
        raw_len * 8
    }
}

/// The size of an RSA key, estimated from the length of its encoding.
pub fn estimate_rsa_key_size(raw_len: usize) -> (r: u32)
    ensures
        r == rsa_size(raw_len as int),
{
    if raw_len >= 512 {
        4096
    } else if raw_len >= 384 {
        3072
    } else if raw_len >= 256 {
        2048
    } else if raw_len >= 128 {
        1024
    } else {
        (raw_len * 8) as u32
    }
}

/// The object identifier of the curve P-256.
pub open spec fn p256_oid() -> Seq<u8> {
    seq![0x2a, 0x86, 0x48, 0xce, 0x3d, 0x03, 0x01, 0x07]
}

/// The object identifier of the curve P-384.
pub open spec fn p384_oid() -> Seq<u8> {
    seq![0x2b, 0x81, 0x04, 0x00, 0x22]
}

/// The object identifier of the curve P-521.
pub open spec fn p521_oid() -> Seq<u8> {
    seq![0x2b, 0x81, 0x04, 0x00, 0x23]
}

/// The bytes occur somewhere in the data.
pub open spec fn occurs_in(data: Seq<u8>, bytes: Seq<u8>) -> bool {
    exists|i: int|
        0 <= i <= data.len() - bytes.len() && #[trigger] data.subrange(i, i + bytes.len()) == bytes
}

/// The size of an elliptic-curve key, by the curve named in the algorithm's parameters.
pub open spec fn curve_size(parameters: Seq<u8>) -> u32 {
    if occurs_in(parameters, p256_oid()) {
        256
    } else if occurs_in(parameters, p384_oid()) {
        384
    } else if occurs_in(parameters, p521_oid()) {
        521
    } else {
        0
    }
}

/// The size of an elliptic-curve key, by the length of an uncompressed point.
pub open spec fn point_size(raw_len: int) -> u32 {
    if raw_len == 65 {
        256
    } else if raw_len == 97 {
        384
    } else if raw_len == 133 {
        521
    } else {
        0
    }
}

/// The size of a key; 0 where it is not known.
pub open spec fn key_size_of(cert: ParsedView) -> int {
    let algorithm = algorithm_name(cert.key_oid);
    if algorithm == "RSA"@ {
        rsa_size(cert.key_data.len() as int)
    } else if algorithm == "ECDSA"@ {
        match cert.key_parameters {
            Some(p) => curve_size(p) as int,
            None => point_size(cert.key_data.len() as int) as int,
        }
    } else if algorithm == "Ed25519"@ {
        256
    } else if algorithm == "Ed448"@ {
        448
    } else {
        0
    }
}

/// Whether the bytes occur somewhere in the data.
pub fn contains_oid_bytes(data: &[u8], oid_bytes: &[u8]) -> (r: bool)
    ensures
        r == occurs_in(data@, oid_bytes@),
{
    if data.len() < oid_bytes.len() {
        return false;
    }
    let last: usize = data.len() - oid_bytes.len();
    let mut i: usize = 0;
    while i <= last
        invariant
            i <= last,
            last == data@.len() - oid_bytes@.len(),
            forall|j: int|
                0 <= j < i ==> #[trigger] data@.subrange(j, j + oid_bytes@.len()) != oid_bytes@,
        decreases last - i,
    {
        if bytes_at(data, i, oid_bytes) {
            return true;
        }
        if i == last {
            return false;
        }
        i += 1;
    }
    false
}

/// Whether the bytes stand in the data at the given place.
fn bytes_at(data: &[u8], from: usize, bytes: &[u8]) -> (r: bool)
    requires
        from + bytes@.len() <= data@.len(),
    ensures
        r == (data@.subrange(from as int, from + bytes@.len()) == bytes@),
{
    let total: usize = data.len();
    let mut k: usize = 0;
    while k < bytes.len()
        invariant
            k <= bytes@.len(),
            total == data@.len(),
            from + bytes@.len() <= data@.len(),
            forall|j: int| 0 <= j < k ==> data@.subrange(from as int, from + bytes@.len())[j]
                == #[trigger] bytes@[j],
        decreases bytes@.len() - k,
    {
        if data[from + k] != bytes[k] {
            assert(data@.subrange(from as int, from + bytes@.len())[k as int] != bytes@[k as int]);
            return false;
        }
        k += 1;
    }
    assert(data@.subrange(from as int, from + bytes@.len()) =~= bytes@);
    true
}

/// The size of an elliptic-curve key, by the curve named in the algorithm's parameters.
pub fn estimate_ec_key_size_from_params(param_data: &[u8]) -> (r: u32)
    ensures
        r == curve_size(param_data@),
{
    let p256: [u8; 8] = [0x2a, 0x86, 0x48, 0xce, 0x3d, 0x03, 0x01, 0x07];
    let p384: [u8; 5] = [0x2b, 0x81, 0x04, 0x00, 0x22];
    let p521: [u8; 5] = [0x2b, 0x81, 0x04, 0x00, 0x23];
    assert(p256@ =~= p256_oid());
    assert(p384@ =~= p384_oid());
    assert(p521@ =~= p521_oid());
    if contains_oid_bytes(param_data, p256.as_slice()) {
        256
    } else if contains_oid_bytes(param_data, p384.as_slice()) {
        384
    } else if contains_oid_bytes(param_data, p521.as_slice()) {
        521
    } else {
        0
    }
}

/// The algorithm of a certificate's key, and its size in bits, 0 where it is not known.
pub fn extract_key_info(cert: &ParsedCertificate) -> (r: (String, u32))
    ensures
        r.0@ == algorithm_name(cert.key_oid@),
        r.1 == key_size_of(cert@),
{
    let oid = cert.key_oid.as_str();
    let algorithm = if same_text(oid, "1.2.840.113549.1.1.1") {
        String::from_str("RSA")
    } else if same_text(oid, "1.2.840.10045.2.1") {
        String::from_str("ECDSA")
    } else if same_text(oid, "1.3.101.112") {
        String::from_str("Ed25519")
    } else if same_text(oid, "1.3.101.113") {
        String::from_str("Ed448")
    } else {
        cert.key_oid.clone()
    };
    let name = algorithm.as_str();
    let size: u32 = if same_text(name, "RSA") {
        estimate_rsa_key_size(cert.key_data.len())
    } else if same_text(name, "ECDSA") {
        match &cert.key_parameters {
            Some(p) => estimate_ec_key_size_from_params(p.as_slice()),
            None => {
                let raw_len: usize = cert.key_data.len();
                if raw_len == 65 {
                    256
                } else if raw_len == 97 {
                    384
                } else if raw_len == 133 {
                    521
                } else {
                    0
                }
            },
        }
    } else if same_text(name, "Ed25519") {
        256
    } else if same_text(name, "Ed448") {
        448
    } else {
        0
    };
    (algorithm, size)
}

// ---------------------------------------------------------------------------
// Metadata
// ---------------------------------------------------------------------------

/// A bit, where the field is there.
pub open spec fn bit_if(present: bool, bit: u32) -> u32 {
    if present {
        bit
    } else {
        0
    }
}

/// The completeness flags of a certificate that could be parsed.
pub open spec fn extracted_flags(
    subject: bool,
    issuer: bool,
    sans: bool,
    algorithm: bool,
    size: bool,
    issuer_fingerprint: bool,
) -> u32 {
    bit_if(subject, SUBJECT) | bit_if(issuer, ISSUER) | SERIAL_NUMBER | NOT_BEFORE | NOT_AFTER
        | bit_if(sans, SANS) | bit_if(algorithm, KEY_ALGORITHM) | bit_if(size, KEY_SIZE)
        | CHAIN_DEPTH | bit_if(issuer_fingerprint, ISSUER_FINGERPRINT)
}

/// The flags of a certificate that could be parsed tell exactly which fields are there. The
/// serial number, the validity period and the chain depth always are.
pub proof fn flags_tell_fields(
    subject: bool,
    issuer: bool,
    sans: bool,
    algorithm: bool,
    size: bool,
    issuer_fingerprint: bool,
)
    ensures
        ({
            let flags = extracted_flags(
                subject,
                issuer,
                sans,
                algorithm,
                size,
                issuer_fingerprint,
            );
            &&& has_all(flags, SUBJECT) <==> subject
            &&& has_all(flags, ISSUER) <==> issuer
            &&& has_all(flags, SERIAL_NUMBER)
            &&& has_all(flags, NOT_BEFORE)
            &&& has_all(flags, NOT_AFTER)
            &&& has_all(flags, SANS) <==> sans
            &&& has_all(flags, KEY_ALGORITHM) <==> algorithm
            &&& has_all(flags, KEY_SIZE) <==> size
            &&& has_all(flags, CHAIN_DEPTH)
            &&& has_all(flags, ISSUER_FINGERPRINT) <==> issuer_fingerprint
        }),
{
    let a = bit_if(subject, SUBJECT);
    let b = bit_if(issuer, ISSUER);
    let c = bit_if(sans, SANS);
    let d = bit_if(algorithm, KEY_ALGORITHM);
    let e = bit_if(size, KEY_SIZE);
    let f = bit_if(issuer_fingerprint, ISSUER_FINGERPRINT);
    let flags = a | b | 0x004u32 | 0x008u32 | 0x010u32 | c | d | e | 0x100u32 | f;
    assert((flags & 0x001 == 0x001 <==> a == 0x001) && (flags & 0x002 == 0x002 <==> b == 0x002) && (
    flags & 0x020 == 0x020 <==> c == 0x020) && (flags & 0x040 == 0x040 <==> d == 0x040) && (flags
        & 0x080 == 0x080 <==> e == 0x080) && (flags & 0x200 == 0x200 <==> f == 0x200) && (flags
        & 0x004 == 0x004) && (flags & 0x008 == 0x008) && (flags & 0x010 == 0x010) && (flags & 0x100
        == 0x100)) by (bit_vector)
        requires
            flags == a | b | 0x004u32 | 0x008u32 | 0x010u32 | c | d | e | 0x100u32 | f,
            a == 0 || a == 0x001,
            b == 0 || b == 0x002,
            c == 0 || c == 0x020,
            d == 0 || d == 0x040,
            e == 0 || e == 0x080,
            f == 0 || f == 0x200,
    ;
}

/// The server name in an event, where its length is sound and it is valid UTF-8.
pub open spec fn sni_of(event: TlsCertEvent) -> Option<Seq<char>> {
    let bytes = event.sni@.take(event.sni_len as int);
    if 0 < event.sni_len <= MAX_SNI && valid_utf8(bytes) {
        Some(decode_utf8(bytes))
    } else {
        None
    }
}

/// The issuer's fingerprint in an event, where it is known.
pub open spec fn issuer_fingerprint_of(event: TlsCertEvent) -> Option<[u8; 32]> {
    if event.issuer_fingerprint@ == zero_fingerprint() {
        None
    } else {
        Some(event.issuer_fingerprint)
    }
}

/// An optional text as a mathematical value.
pub open spec fn text_view(s: Option<String>) -> Option<Seq<char>> {
    match s {
        Some(t) => Some(t@),
        None => None,
    }
}

/// What the metadata takes from the event and from the instant of the observation.
pub open spec fn observed(
    m: CertificateMetadata,
    event: TlsCertEvent,
    fingerprint: Seq<u8>,
    now: Timestamp,
) -> bool {
    &&& m.fingerprint@ == fingerprint
    &&& m.chain_depth == event.chain_depth
    &&& m.issuer_fingerprint == issuer_fingerprint_of(event)
    &&& m.first_seen == now
    &&& m.last_seen == now
    &&& m.connection_count == 1
    &&& text_view(m.source_ip) == Some(ipv4_text(event.src_ip))
    &&& text_view(m.destination_ip) == Some(ipv4_text(event.dst_ip))
    &&& text_view(m.sni_hostname) == sni_of(event)
}

/// The instant is the given one, or where the calendar does not reach that, the present one.
pub open spec fn is_instant(t: Timestamp, secs: i64, now: Timestamp) -> bool {
    if in_calendar(secs as int, 0) {
        t.at() == secs * NANOS_PER_SEC
    } else {
        t == now
    }
}

/// The metadata of a certificate that could be parsed.
pub open spec fn is_extracted(
    m: CertificateMetadata,
    event: TlsCertEvent,
    fingerprint: Seq<u8>,
    cert: ParsedView,
    names: Seq<NameView>,
    now: Timestamp,
) -> bool {
    &&& observed(m, event, fingerprint, now)
    &&& m.subject@ == first_chars(cert.subject, MAX_NAME_CHARS as nat)
    &&& m.issuer@ == first_chars(cert.issuer, MAX_NAME_CHARS as nat)
    &&& m.serial_number@ == cert.serial_number
    &&& is_instant(m.not_before, cert.not_before, now)
    &&& is_instant(m.not_after, cert.not_after, now)
    &&& views(m.sans@) == kept_sans(names)
    &&& m.key_algorithm@ == algorithm_name(cert.key_oid)
    &&& m.key_size == key_size_of(cert)
    &&& m.completeness_flags == extracted_flags(
        cert.subject.len() > 0,
        cert.issuer.len() > 0,
        kept_sans(names).len() > 0,
        algorithm_name(cert.key_oid).len() > 0,
        key_size_of(cert) > 0,
        issuer_fingerprint_of(event) is Some,
    )
}

/// The flags of a certificate that could be parsed match its metadata: a bit is set exactly
/// where the field is there.
pub proof fn flags_match_metadata(
    m: CertificateMetadata,
    event: TlsCertEvent,
    fingerprint: Seq<u8>,
    cert: ParsedView,
    names: Seq<NameView>,
    now: Timestamp,
)
    requires
        is_extracted(m, event, fingerprint, cert, names, now),
    ensures
        has_all(m.completeness_flags, SUBJECT) <==> m.subject@.len() > 0,
        has_all(m.completeness_flags, ISSUER) <==> m.issuer@.len() > 0,
        has_all(m.completeness_flags, SERIAL_NUMBER),
        has_all(m.completeness_flags, NOT_BEFORE),
        has_all(m.completeness_flags, NOT_AFTER),
        has_all(m.completeness_flags, SANS) <==> m.sans@.len() > 0,
        has_all(m.completeness_flags, KEY_ALGORITHM) <==> m.key_algorithm@.len() > 0,
        has_all(m.completeness_flags, KEY_SIZE) <==> m.key_size > 0,
        has_all(m.completeness_flags, CHAIN_DEPTH),
        has_all(m.completeness_flags, ISSUER_FINGERPRINT) <==> m.issuer_fingerprint is Some,
{
    flags_tell_fields(
        cert.subject.len() > 0,
        cert.issuer.len() > 0,
        kept_sans(names).len() > 0,
        algorithm_name(cert.key_oid).len() > 0,
        key_size_of(cert) > 0,
        issuer_fingerprint_of(event) is Some,
    );
    assert(views(m.sans@).len() == m.sans@.len());
}

/// The metadata of a certificate of which only the event tells something.
pub open spec fn is_partial(
    m: CertificateMetadata,
    event: TlsCertEvent,
    fingerprint: Seq<u8>,
    now: Timestamp,
) -> bool {
    &&& observed(m, event, fingerprint, now)
    &&& m.subject@.len() == 0
    &&& m.issuer@.len() == 0
    &&& m.serial_number@.len() == 0
    &&& m.not_before.at() == 0
    &&& m.not_after.at() == 0
    &&& m.sans@.len() == 0
    &&& m.key_algorithm@.len() == 0
    &&& m.key_size == 0
    &&& m.completeness_flags == CHAIN_DEPTH | bit_if(
        issuer_fingerprint_of(event) is Some,
        ISSUER_FINGERPRINT,
    )
}

/// The flags of a certificate of which only the event tells something match its metadata: the
/// chain depth is there, the issuer's fingerprint where the event names it, and nothing else.
pub proof fn partial_flags_match_metadata(
    m: CertificateMetadata,
    event: TlsCertEvent,
    fingerprint: Seq<u8>,
    now: Timestamp,
)
    requires
        is_partial(m, event, fingerprint, now),
    ensures
        has_all(m.completeness_flags, CHAIN_DEPTH),
        !has_all(m.completeness_flags, SUBJECT) && m.subject@.len() == 0,
        !has_all(m.completeness_flags, ISSUER) && m.issuer@.len() == 0,
        !has_all(m.completeness_flags, SERIAL_NUMBER) && m.serial_number@.len() == 0,
        !has_all(m.completeness_flags, NOT_BEFORE),
        !has_all(m.completeness_flags, NOT_AFTER),
        !has_all(m.completeness_flags, SANS) && m.sans@.len() == 0,
        !has_all(m.completeness_flags, KEY_ALGORITHM) && m.key_algorithm@.len() == 0,
        !has_all(m.completeness_flags, KEY_SIZE) && m.key_size == 0,
        has_all(m.completeness_flags, ISSUER_FINGERPRINT) <==> m.issuer_fingerprint is Some,
{
    let f = bit_if(issuer_fingerprint_of(event) is Some, ISSUER_FINGERPRINT);
    let flags = 0x100u32 | f;
    assert(flags & 0x100 == 0x100 && flags & 0x0ff == 0 && flags & 0x200 == f) by (bit_vector)
        requires
            flags == 0x100u32 | f,
            f == 0 || f == 0x200,
    ;
    assert(flags & 0x001 == 0 && flags & 0x002 == 0 && flags & 0x004 == 0 && flags & 0x008 == 0
        && flags & 0x010 == 0 && flags & 0x020 == 0 && flags & 0x040 == 0 && flags & 0x080 == 0)
        by (bit_vector)
        requires
            flags & 0x0ff == 0,
    ;
}

/// The certificate did not fit into the event.
pub open spec fn is_cut(event: TlsCertEvent) -> bool {
    event.cert_len > MAX_CERT_DATA
}

/// The bytes of the certificate that the event holds.
pub open spec fn available(event: TlsCertEvent) -> Seq<u8> {
    event.cert_data@.take(
        if is_cut(event) {
            MAX_CERT_DATA as int
        } else {
            event.cert_len as int
        },
    )
}

/// The error of an event whose certificate cannot be read.
pub open spec fn is_malformed(
    e: EventProcessError,
    event: TlsCertEvent,
    why: Seq<char>,
    bytes: int,
) -> bool {
    match e {
        EventProcessError::MalformedCertificate {
            reason,
            timestamp_ns,
            src_ip,
            dst_ip,
            dst_port,
            available_bytes,
        } => {
            &&& reason@ == why
            &&& timestamp_ns == event.timestamp_ns
            &&& src_ip == event.src_ip
            &&& dst_ip == event.dst_ip
            &&& dst_port == event.dst_port
            &&& available_bytes == bytes
        },
        EventProcessError::PartialExtraction { .. } => false,
    }
}

/// The result of an event, given the fingerprint of its bytes, what was parsed of them and
/// the instant of the observation: an error without any bytes; the full metadata where the
/// certificate could be parsed; else the partial metadata where it was cut off, and an error
/// where it was not.
pub open spec fn is_processed(
    r: Result<ProcessedEvent, EventProcessError>,
    event: TlsCertEvent,
    fingerprint: Seq<u8>,
    cert: Option<ParsedView>,
    names: Seq<NameView>,
    now: Timestamp,
) -> bool {
    if event.cert_len == 0 {
        r matches Err(e) && is_malformed(e, event, "zero-length certificate data"@, 0)
    } else {
        match cert {
            Some(c) => r matches Ok(p) && p.is_truncated == is_cut(event) && is_extracted(
                p.metadata,
                event,
                fingerprint,
                c,
                names,
                now,
            ),
            None => if is_cut(event) {
                r matches Ok(p) && p.is_truncated && is_partial(
                    p.metadata,
                    event,
                    fingerprint,
                    now,
                )
            } else {
                r matches Err(e) && is_malformed(
                    e,
                    event,
                    "failed to parse DER-encoded certificate"@,
                    event.cert_len as int,
                )
            },
        }
    }
}

/// The server name in an event.
pub fn extract_sni(event: &TlsCertEvent) -> (r: Option<String>)
    ensures
        text_view(r) == sni_of(*event),
{
    let sni_len: usize = event.sni_len as usize;
    if sni_len == 0 || sni_len > MAX_SNI {
        return None;
    }
    let bytes = first_bytes(event.sni.as_slice(), sni_len);
    assert(bytes@ == event.sni@.take(event.sni_len as int));
    utf8_text(bytes)
}

/// The first bytes of a slice.
fn first_bytes(data: &[u8], count: usize) -> (r: Vec<u8>)
    requires
        count <= data@.len(),
    ensures
        r@ == data@.take(count as int),
{
    let mut out: Vec<u8> = Vec::new();
    let mut i: usize = 0;
    while i < count
        invariant
            i <= count <= data@.len(),
            out@ == data@.take(i as int),
        decreases count - i,
    {
        out.push(data[i]);
        assert(data@.take(i + 1) =~= data@.take(i as int).push(data@[i as int]));
        i += 1;
    }
    out
}

/// The issuer's fingerprint in an event, where it is known.
fn extract_issuer_fingerprint(event: &TlsCertEvent) -> (r: Option<[u8; 32]>)
    ensures
        r == issuer_fingerprint_of(*event),
{
    let mut i: usize = 0;
    while i < 32
        invariant
            i <= 32,
            forall|j: int| 0 <= j < i ==> event.issuer_fingerprint@[j] == 0,
        decreases 32 - i,
    {
        if event.issuer_fingerprint[i] != 0 {
            assert(event.issuer_fingerprint@[i as int] != zero_fingerprint()[i as int]);
            return Some(event.issuer_fingerprint);
        }
        i += 1;
    }
    assert(event.issuer_fingerprint@ =~= zero_fingerprint());
    None
}

/// The instant that many seconds after the Unix epoch, or the present one where the calendar
/// does not reach that.
fn instant_or(secs: i64, now: &Timestamp) -> (r: Timestamp)
    ensures
        is_instant(r, secs, *now),
{
    match Timestamp::new(secs, 0) {
        Some(t) => t,
        None => *now,
    }
}

/// A bit, where the field is there.
fn flag(present: bool, bit: u32) -> (r: u32)
    ensures
        r == bit_if(present, bit),
{
    if present {
        bit
    } else {
        0
    }
}

/// The metadata of a certificate that could be parsed.
pub fn extract_metadata(
    event: &TlsCertEvent,
    fingerprint: [u8; 32],
    cert: ParsedCertificate,
    names: &Vec<AlternativeName>,
    now: &Timestamp,
) -> (r: CertificateMetadata)
    ensures
        is_extracted(r, *event, fingerprint@, cert@, name_views(names@), *now),
{
    let sans = extract_sans(names);
    let (key_algorithm, key_size) = extract_key_info(&cert);
    let issuer_fingerprint = extract_issuer_fingerprint(event);
    assert(views(sans@).len() == sans.len());
    let completeness_flags: u32 = flag(!cert.subject.as_str().is_empty(), SUBJECT) | flag(
        !cert.issuer.as_str().is_empty(),
        ISSUER,
    ) | SERIAL_NUMBER | NOT_BEFORE | NOT_AFTER | flag(sans.len() > 0, SANS) | flag(
        !key_algorithm.as_str().is_empty(),
        KEY_ALGORITHM,
    ) | flag(key_size > 0, KEY_SIZE) | CHAIN_DEPTH | flag(
        issuer_fingerprint.is_some(),
        ISSUER_FINGERPRINT,
    );
    CertificateMetadata {
        fingerprint,
        not_before: instant_or(cert.not_before, now),
        not_after: instant_or(cert.not_after, now),
        subject: take_first_chars(cert.subject.as_str(), MAX_NAME_CHARS),
        issuer: take_first_chars(cert.issuer.as_str(), MAX_NAME_CHARS),
        serial_number: cert.serial_number,
        sans,
        key_algorithm,
        key_size,
        chain_depth: event.chain_depth,
        issuer_fingerprint,
        first_seen: *now,
        last_seen: *now,
        connection_count: 1,
        source_ip: Some(format_ipv4(event.src_ip)),
        destination_ip: Some(format_ipv4(event.dst_ip)),
        sni_hostname: extract_sni(event),
        completeness_flags,
    }
}

/// The metadata of a certificate that was cut off and could not be parsed: what the event
/// itself tells.
pub fn build_partial_metadata(event: &TlsCertEvent, fingerprint: [u8; 32], now: &Timestamp) -> (r:
    CertificateMetadata)
    ensures
        is_partial(r, *event, fingerprint@, *now),
{
    let issuer_fingerprint = extract_issuer_fingerprint(event);
    let completeness_flags: u32 = CHAIN_DEPTH | flag(
        issuer_fingerprint.is_some(),
        ISSUER_FINGERPRINT,
    );
    CertificateMetadata {
        fingerprint,
        subject: String::new(),
        issuer: String::new(),
        serial_number: String::new(),
        not_before: Timestamp::epoch(),
        not_after: Timestamp::epoch(),
        sans: Vec::new(),
        key_algorithm: String::new(),
        key_size: 0,
        chain_depth: event.chain_depth,
        issuer_fingerprint,
        first_seen: *now,
        last_seen: *now,
        connection_count: 1,
        source_ip: Some(format_ipv4(event.src_ip)),
        destination_ip: Some(format_ipv4(event.dst_ip)),
        sni_hostname: extract_sni(event),
        completeness_flags,
    }
}

/// The result of an event, given the fingerprint of its bytes, what was parsed of them and
/// the instant of the observation.
pub fn process_parsed(
    event: &TlsCertEvent,
    fingerprint: [u8; 32],
    cert: Option<ParsedCertificate>,
    names: &Vec<AlternativeName>,
    now: &Timestamp,
) -> (r: Result<ProcessedEvent, EventProcessError>)
    ensures
        is_processed(
            r,
            *event,
            fingerprint@,
            match cert {
                Some(c) => Some(c@),
                None => None,
            },
            name_views(names@),
            *now,
        ),
{
    if event.cert_len == 0 {
        return Err(malformed(event, "zero-length certificate data", 0));
    }
    let is_truncated = event.cert_len > 4096;
    match cert {
        Some(c) => {
            let metadata = extract_metadata(event, fingerprint, c, names, now);
            Ok(ProcessedEvent { metadata, is_truncated })
        },
        None => {
            if is_truncated {
                let metadata = build_partial_metadata(event, fingerprint, now);
                Ok(ProcessedEvent { metadata, is_truncated })
            } else {
                Err(malformed(event, "failed to parse DER-encoded certificate", event.cert_len))
            }
        },
    }
}

/// The error of an event whose certificate cannot be read.
fn malformed(event: &TlsCertEvent, reason: &str, available_bytes: u32) -> (r: EventProcessError)
    ensures
        is_malformed(r, *event, reason@, available_bytes as int),
{
    EventProcessError::MalformedCertificate {
        reason: String::from_str(reason),
        timestamp_ns: event.timestamp_ns,
        src_ip: event.src_ip,
        dst_ip: event.dst_ip,
        dst_port: event.dst_port,
        available_bytes,
    }
}

/// The metadata of the certificate in an event, observed at a given instant.
pub fn process_event_at(event: &TlsCertEvent, now: &Timestamp) -> (r: Result<
    ProcessedEvent,
    EventProcessError,
>)
    ensures
        is_processed(
            r,
            *event,
            sha256(available(*event)),
            x509_fields(available(*event)),
            x509_names(available(*event)),
            *now,
        ),
{
    let count: usize = if event.cert_len > 4096 {
        MAX_CERT_DATA
    } else {
        event.cert_len as usize
    };
    let bytes = first_bytes(event.cert_data.as_slice(), count);
    assert(bytes@ == available(*event));
    let fingerprint = compute_sha256(bytes.as_slice());
    let cert = parse_fields(bytes.as_slice());
    let names = parse_names(bytes.as_slice());
    process_parsed(event, fingerprint, cert, &names, now)
}

/// The metadata of the certificate in an event, observed at the present instant.
pub fn process_event(event: &TlsCertEvent) -> (r: Result<ProcessedEvent, EventProcessError>)
    ensures
        exists|now: Timestamp| #[trigger]
            is_processed(
                r,
                *event,
                sha256(available(*event)),
                x509_fields(available(*event)),
                x509_names(available(*event)),
                now,
            ),
{
    let now = Timestamp::now();
    process_event_at(event, &now)
}

/// Every event either yields metadata or is reported as malformed, and metadata comes exactly
/// where there are bytes that can be parsed or that were cut off.
pub proof fn metadata_iff_parsed_or_cut(
    r: Result<ProcessedEvent, EventProcessError>,
    event: TlsCertEvent,
    fingerprint: Seq<u8>,
    cert: Option<ParsedView>,
    names: Seq<NameView>,
    now: Timestamp,
)
    requires
        is_processed(r, event, fingerprint, cert, names, now),
    ensures
        r is Ok <==> event.cert_len > 0 && (cert is Some || is_cut(event)),
        r matches Ok(p) ==> p.metadata.fingerprint@ == fingerprint && p.is_truncated == is_cut(event),
{
}

// ---------------------------------------------------------------------------
// Laws
// ---------------------------------------------------------------------------

/// The text of an address is its four bytes in decimal, the most significant first, with dots
/// between.
pub proof fn address_is_four_bytes(ip: u32) -> (bytes: (nat, nat, nat, nat))
    ensures
        bytes.0 < 256 && bytes.1 < 256 && bytes.2 < 256 && bytes.3 < 256,
        ip == bytes.0 * 0x100_0000 + bytes.1 * 0x1_0000 + bytes.2 * 0x100 + bytes.3,
        ipv4_text(ip) == decimal(bytes.0) + seq!['.'] + decimal(bytes.1) + seq!['.'] + decimal(
            bytes.2,
        ) + seq!['.'] + decimal(bytes.3),
{
    reveal_strlit(".");
    assert("."@ =~= seq!['.']);
    let a: nat = (ip / 0x100_0000) as nat;
    let b: nat = ((ip / 0x1_0000) % 0x100) as nat;
    let c: nat = ((ip / 0x100) % 0x100) as nat;
    let d: nat = (ip % 0x100) as nat;
    assert(a < 256 && ip == a * 0x100_0000 + b * 0x1_0000 + c * 0x100 + d);
    (a, b, c, d)
}

/// Different addresses have different texts.
pub proof fn addresses_have_distinct_texts(a: u32, b: u32)
    requires
        ipv4_text(a) == ipv4_text(b),
    ensures
        a == b,
{
    let x = address_is_four_bytes(a);
    let y = address_is_four_bytes(b);
    let dot = seq!['.'];
    lemma_four_parts(decimal(x.0), decimal(x.1), decimal(x.2), decimal(x.3));
    lemma_four_parts(decimal(y.0), decimal(y.1), decimal(y.2), decimal(y.3));
    lemma_split_at_dot(
        x.0,
        decimal(x.1) + dot + (decimal(x.2) + dot + decimal(x.3)),
        y.0,
        decimal(y.1) + dot + (decimal(y.2) + dot + decimal(y.3)),
    );
    lemma_split_at_dot(
        x.1,
        decimal(x.2) + dot + decimal(x.3),
        y.1,
        decimal(y.2) + dot + decimal(y.3),
    );
    lemma_split_at_dot(x.2, decimal(x.3), y.2, decimal(y.3));
    decimal_is_read_back(x.3);
    decimal_is_read_back(y.3);
}

proof fn lemma_four_parts(a: Seq<char>, b: Seq<char>, c: Seq<char>, d: Seq<char>)
    ensures
        a + seq!['.'] + b + seq!['.'] + c + seq!['.'] + d == a + seq!['.'] + (b + seq!['.'] + (c
            + seq!['.'] + d)),
{
    assert(a + seq!['.'] + b + seq!['.'] + c + seq!['.'] + d =~= a + seq!['.'] + (b + seq!['.'] + (c
        + seq!['.'] + d)));
}

/// What stands in front of the first dot, and what follows it, are determined by the text.
proof fn lemma_split_at_dot(a: nat, rest: Seq<char>, b: nat, other: Seq<char>)
    requires
        decimal(a) + seq!['.'] + rest == decimal(b) + seq!['.'] + other,
    ensures
        a == b,
        rest == other,
{
    let s = decimal(a) + seq!['.'] + rest;
    let t = decimal(b) + seq!['.'] + other;
    decimal_is_read_back(a);
    decimal_is_read_back(b);
    let n = decimal(a).len() as int;
    let m = decimal(b).len() as int;
    if n < m {
        assert(s[n] == '.');
        assert(t[n] == decimal(b)[n]);
    } else if m < n {
        assert(t[m] == '.');
        assert(s[m] == decimal(a)[m]);
    }
    assert(s.take(n) =~= decimal(a));
    assert(t.take(n) =~= decimal(b));
    assert(s.skip(n + 1) =~= rest);
    assert(t.skip(n + 1) =~= other);
}

/// The text of an IPv6 address has eight groups of four digits, one for each pair of bytes and
/// in their order, with colons between.
pub proof fn long_address_is_eight_groups(bytes: Seq<u8>, group: int)
    requires
        bytes.len() == 16,
        0 <= group < 8,
    ensures
        name_text(NameView::Ip(bytes)) matches Some(text) && {
            &&& text.len() == 39
            &&& text.subrange(5 * group, 5 * group + 4) == hex(
                bytes.subrange(2 * group, 2 * group + 2),
            )
            &&& group < 7 ==> text[5 * group + 4] == ':'
        },
{
    lemma_groups(bytes, 8, group);
}

proof fn lemma_groups(bytes: Seq<u8>, count: nat, group: int)
    requires
        bytes.len() == 16,
        0 <= group < count <= 8,
    ensures
        hex_pairs(bytes, count).len() == 5 * count - 1,
        hex_pairs(bytes, count).subrange(5 * group, 5 * group + 4) == hex(
            bytes.subrange(2 * group, 2 * group + 2),
        ),
        group < count - 1 ==> hex_pairs(bytes, count)[5 * group + 4] == ':',
    decreases count,
{
    reveal_strlit(":");
    let text = hex_pairs(bytes, count);
    let tail = bytes.subrange(2 * (count - 1), 2 * count as int);
    crate::hex::hex_doubles_length(tail);
    if count == 1 {
        assert(text.subrange(0, 4) =~= text);
    } else {
        let before = hex_pairs(bytes, (count - 1) as nat);
        lemma_groups(bytes, (count - 1) as nat, if group < count - 1 {
            group
        } else {
            0
        });
        if group < count - 1 {
            assert(text.subrange(5 * group, 5 * group + 4) =~= before.subrange(
                5 * group,
                5 * group + 4,
            ));
        } else {
            assert(text.subrange(5 * group, 5 * group + 4) =~= hex(tail));
        }
    }
}

/// Each name of a certificate is put into words on its own and in order: host names, mail
/// addresses and links as they are, addresses of 4 bytes as four numbers. Nothing else but an
/// address of 16 bytes has words.
pub proof fn names_are_put_into_words_in_order(a: Seq<NameView>, b: Seq<NameView>, name: NameView)
    ensures
        name_texts(a + b) == name_texts(a) + name_texts(b),
        name_texts(seq![name]) == (match name {
            NameView::Dns(s) => seq![s],
            NameView::Email(s) => seq![s],
            NameView::Uri(s) => seq![s],
            NameView::Other => seq![],
            NameView::Ip(bytes) => if bytes.len() == 4 {
                seq![
                    decimal(bytes[0] as nat) + seq!['.'] + decimal(bytes[1] as nat) + seq!['.']
                        + decimal(bytes[2] as nat) + seq!['.'] + decimal(bytes[3] as nat),
                ]
            } else if bytes.len() == 16 {
                seq![hex_pairs(bytes, 8)]
            } else {
                seq![]
            },
        }),
    decreases b.len(),
{
    reveal_strlit(".");
    assert("."@ =~= seq!['.']);
    let one = seq![name];
    assert(one.drop_last() =~= Seq::<NameView>::empty());
    reveal_with_fuel(name_texts, 2);
    assert(name_texts(one) =~= (match name_text(name) {
        Some(text) => seq![text],
        None => seq![],
    }));
    if b.len() == 0 {
        assert(a + b =~= a);
        assert(name_texts(a) + name_texts(b) =~= name_texts(a));
    } else {
        assert((a + b).drop_last() =~= a + b.drop_last());
        names_are_put_into_words_in_order(a, b.drop_last(), name);
        assert(name_texts(a + b) =~= name_texts(a) + name_texts(b));
    }
}

/// Of the names in words the first hundred are kept.
pub proof fn first_hundred_names_are_kept(names: Seq<NameView>)
    ensures
        name_texts(names).len() <= 100 ==> kept_sans(names) == name_texts(names),
        name_texts(names).len() > 100 ==> kept_sans(names).len() == 100,
        forall|i: int|
            0 <= i < kept_sans(names).len() ==> #[trigger] kept_sans(names)[i] == name_texts(
                names,
            )[i],
{
}

/// The four known algorithms are named, and any other goes by its object identifier.
pub proof fn algorithms_go_by_their_identifiers(oid: Seq<char>)
    ensures
        oid == "1.2.840.113549.1.1.1"@ ==> algorithm_name(oid) == "RSA"@,
        oid == "1.2.840.10045.2.1"@ ==> algorithm_name(oid) == "ECDSA"@,
        oid == "1.3.101.112"@ ==> algorithm_name(oid) == "Ed25519"@,
        oid == "1.3.101.113"@ ==> algorithm_name(oid) == "Ed448"@,
        ![
            "1.2.840.113549.1.1.1"@,
            "1.2.840.10045.2.1"@,
            "1.3.101.112"@,
            "1.3.101.113"@,
        ]@.contains(oid) ==> algorithm_name(oid) == oid,
{
    lemma_identifiers_differ();
    let known = ["1.2.840.113549.1.1.1"@, "1.2.840.10045.2.1"@, "1.3.101.112"@, "1.3.101.113"@]@;
    assert(known[0] == "1.2.840.113549.1.1.1"@);
    assert(known[1] == "1.2.840.10045.2.1"@);
    assert(known[2] == "1.3.101.112"@);
    assert(known[3] == "1.3.101.113"@);
}

proof fn lemma_identifiers_differ()
    ensures
        "1.2.840.113549.1.1.1"@ != "1.2.840.10045.2.1"@,
        "1.2.840.113549.1.1.1"@ != "1.3.101.112"@,
        "1.2.840.113549.1.1.1"@ != "1.3.101.113"@,
        "1.2.840.10045.2.1"@ != "1.3.101.112"@,
        "1.2.840.10045.2.1"@ != "1.3.101.113"@,
        "1.3.101.112"@ != "1.3.101.113"@,
{
    reveal_strlit("1.2.840.113549.1.1.1");
    reveal_strlit("1.2.840.10045.2.1");
    reveal_strlit("1.3.101.112");
    reveal_strlit("1.3.101.113");
    assert("1.2.840.113549.1.1.1"@.len() == 20);
    assert("1.2.840.10045.2.1"@.len() == 17);
    assert("1.3.101.112"@.len() == 11 && "1.3.101.112"@[10] == '2');
    assert("1.3.101.113"@.len() == 11 && "1.3.101.113"@[10] == '3');
}

/// The size of an RSA key is the largest of the usual sizes that its encoding has room for, and
/// below the smallest of them the number of bits of the encoding.
pub proof fn rsa_key_has_largest_fitting_size(raw_len: int)
    ensures
        raw_len < 128 ==> rsa_size(raw_len) == 8 * raw_len,
        raw_len >= 128 ==> {
            let size = rsa_size(raw_len);
            &&& size % 1024 == 0
            &&& 1024 <= size <= 4096
            &&& size <= 8 * raw_len
            &&& size < 4096 ==> 8 * raw_len < size + 1024
        },
{
}

/// An uncompressed point has one byte and twice as many bytes as its curve's size takes, which
/// is 32 for 256 bits, 48 for 384 and 66 for 521. No other length tells the curve.
pub proof fn point_has_two_coordinates(raw_len: int)
    ensures
        raw_len == 1 + 2 * 32int <==> point_size(raw_len) == 256,
        raw_len == 1 + 2 * 48int <==> point_size(raw_len) == 384,
        raw_len == 1 + 2 * 66int <==> point_size(raw_len) == 521,
        point_size(raw_len) == 0 || point_size(raw_len) == 256 || point_size(raw_len) == 384
            || point_size(raw_len) == 521,
{
}

/// The parameters of an elliptic-curve key name the curve by its object identifier, wherever
/// it stands in them.
pub proof fn curve_is_named_in_parameters(before: Seq<u8>, after: Seq<u8>, parameters: Seq<u8>)
    ensures
        curve_size(before + seq![0x2au8, 0x86, 0x48, 0xce, 0x3d, 0x03, 0x01, 0x07] + after) == 256,
        curve_size(parameters) == 384 ==> occurs_in(
            parameters,
            seq![0x2bu8, 0x81, 0x04, 0x00, 0x22],
        ),
        curve_size(parameters) == 521 ==> occurs_in(
            parameters,
            seq![0x2bu8, 0x81, 0x04, 0x00, 0x23],
        ),
        curve_size(parameters) == 256 <==> occurs_in(
            parameters,
            seq![0x2au8, 0x86, 0x48, 0xce, 0x3d, 0x03, 0x01, 0x07],
        ),
        curve_size(parameters) == 0 <==> {
            &&& !occurs_in(parameters, seq![0x2au8, 0x86, 0x48, 0xce, 0x3d, 0x03, 0x01, 0x07])
            &&& !occurs_in(parameters, seq![0x2bu8, 0x81, 0x04, 0x00, 0x22])
            &&& !occurs_in(parameters, seq![0x2bu8, 0x81, 0x04, 0x00, 0x23])
        },
        occurs_in(parameters, seq![0x2bu8, 0x81, 0x04, 0x00, 0x22]) ==> curve_size(parameters)
            == 384 || curve_size(parameters) == 256,
{
    let oid = seq![0x2au8, 0x86, 0x48, 0xce, 0x3d, 0x03, 0x01, 0x07];
    let data = before + oid + after;
    occurs_wherever_it_stands(before, oid, after);
    assert(p256_oid() =~= oid);
    assert(p384_oid() =~= seq![0x2bu8, 0x81, 0x04, 0x00, 0x22]);
    assert(p521_oid() =~= seq![0x2bu8, 0x81, 0x04, 0x00, 0x23]);
}

/// Bytes occur in data exactly where the data can be split around them.
pub proof fn occurs_wherever_it_stands(before: Seq<u8>, bytes: Seq<u8>, after: Seq<u8>)
    ensures
        occurs_in(before + bytes + after, bytes),
        forall|data: Seq<u8>| #[trigger] occurs_in(data, bytes) ==> exists|a: Seq<u8>, b: Seq<u8>|
            data == a + bytes + b,
{
    let data = before + bytes + after;
    let at = before.len() as int;
    assert(data.subrange(at, at + bytes.len()) =~= bytes);
    assert forall|data: Seq<u8>| #[trigger] occurs_in(data, bytes) implies exists|
        a: Seq<u8>,
        b: Seq<u8>,
    | data == a + bytes + b by {
        let i = choose|i: int|
            0 <= i <= data.len() - bytes.len() && #[trigger] data.subrange(i, i + bytes.len())
                == bytes;
        assert(data =~= data.take(i) + bytes + data.skip(i + bytes.len()));
    }
}

/// The size of a key follows from its algorithm alone for Ed25519 and Ed448, from the length of
/// the key for RSA, and for an elliptic curve from the parameters where there are any and else
/// from the length of the key. The size of a key of another algorithm is not known.
pub proof fn key_size_by_algorithm(cert: ParsedView)
    ensures
        cert.key_oid == "1.2.840.113549.1.1.1"@ ==> key_size_of(cert) == rsa_size(
            cert.key_data.len() as int,
        ),
        cert.key_oid == "1.2.840.10045.2.1"@ ==> key_size_of(cert) == (match cert.key_parameters {
            Some(p) => curve_size(p),
            None => point_size(cert.key_data.len() as int),
        }),
        cert.key_oid == "1.3.101.112"@ ==> key_size_of(cert) == 256,
        cert.key_oid == "1.3.101.113"@ ==> key_size_of(cert) == 448,
        cert.key_oid.len() > 7 && cert.key_oid != "1.2.840.113549.1.1.1"@ && cert.key_oid
            != "1.2.840.10045.2.1"@ && cert.key_oid != "1.3.101.112"@ && cert.key_oid
            != "1.3.101.113"@ ==> key_size_of(cert) == 0,
{
    lemma_identifiers_differ();
    reveal_strlit("RSA");
    reveal_strlit("ECDSA");
    reveal_strlit("Ed25519");
    reveal_strlit("Ed448");
    assert("RSA"@.len() == 3 && "ECDSA"@.len() == 5 && "Ed25519"@.len() == 7 && "Ed448"@.len()
        == 5);
    assert("ECDSA"@[0] == 'E' && "ECDSA"@[1] == 'C' && "Ed448"@[1] == 'd');
}

/// The server name of an event is the text whose UTF-8 encoding the event holds, in as many
/// bytes as the event says, from 1 to 256.
pub proof fn server_name_is_what_the_bytes_encode(event: TlsCertEvent)
    ensures
        sni_of(event) is Some <==> 1 <= event.sni_len <= 256 && valid_utf8(
            event.sni@.subrange(0, event.sni_len as int),
        ),
        sni_of(event) matches Some(name) ==> vstd::utf8::encode_utf8(name) == event.sni@.subrange(
            0,
            event.sni_len as int,
        ),
{
    let bytes = event.sni@.take(event.sni_len as int);
    assert(bytes =~= event.sni@.subrange(0, event.sni_len as int));
    if valid_utf8(bytes) {
        vstd::utf8::decode_utf8_encode_utf8(bytes);
    }
}

/// The issuer's fingerprint is known exactly where one of its bytes is not zero.
pub proof fn issuer_fingerprint_is_not_zero(event: TlsCertEvent)
    ensures
        issuer_fingerprint_of(event) is Some <==> exists|i: int|
            0 <= i < 32 && #[trigger] event.issuer_fingerprint@[i] != 0,
        issuer_fingerprint_of(event) matches Some(fp) ==> fp == event.issuer_fingerprint,
{
    let fp = event.issuer_fingerprint@;
    if forall|i: int| 0 <= i < 32 ==> fp[i] == 0 {
        assert(fp =~= zero_fingerprint());
    } else {
        let i = choose|i: int| 0 <= i < 32 && fp[i] != 0;
        assert(zero_fingerprint()[i] == 0);
    }
}

/// The certificate of an event is in its first bytes, as many as it has and at most 4096.
pub proof fn certificate_bytes_of_an_event(event: TlsCertEvent)
    ensures
        available(event).len() == if event.cert_len < 4096 {
            event.cert_len as int
        } else {
            4096
        },
        forall|i: int|
            0 <= i < available(event).len() ==> #[trigger] available(event)[i]
                == event.cert_data@[i],
{
}

/// Whatever can be read of a certificate, its metadata tell of the connection in which it was
/// observed: both addresses, the server name, the chain and the instant, once.
pub proof fn metadata_tell_of_the_connection(
    r: Result<ProcessedEvent, EventProcessError>,
    event: TlsCertEvent,
    fingerprint: Seq<u8>,
    cert: Option<ParsedView>,
    names: Seq<NameView>,
    now: Timestamp,
)
    requires
        is_processed(r, event, fingerprint, cert, names, now),
    ensures
        r matches Ok(p) ==> {
            let m = p.metadata;
            &&& m.fingerprint@ == fingerprint
            &&& m.source_ip matches Some(ip) && ip@ == ipv4_text(event.src_ip)
            &&& m.destination_ip matches Some(ip) && ip@ == ipv4_text(event.dst_ip)
            &&& m.sni_hostname is Some <==> sni_of(event) is Some
            &&& m.sni_hostname matches Some(name) ==> Some(name@) == sni_of(event)
            &&& m.issuer_fingerprint == issuer_fingerprint_of(event)
            &&& m.chain_depth == event.chain_depth
            &&& m.first_seen == now
            &&& m.last_seen == now
            &&& m.connection_count == 1
            &&& p.is_truncated <==> event.cert_len > 4096
        },
{
}

/// Where a certificate could be parsed, its metadata hold what was parsed: the names cut to 2048
/// characters, the serial number, the validity period to the second, the first hundred
/// alternative names and the key. An end of the period that the calendar does not reach is
/// taken to be now.
pub proof fn metadata_hold_what_was_parsed(
    r: Result<ProcessedEvent, EventProcessError>,
    event: TlsCertEvent,
    fingerprint: Seq<u8>,
    cert: ParsedView,
    names: Seq<NameView>,
    now: Timestamp,
)
    requires
        is_processed(r, event, fingerprint, Some(cert), names, now),
        event.cert_len > 0,
    ensures
        r matches Ok(p) && {
            let m = p.metadata;
            &&& cert.subject.len() <= 2048 ==> m.subject@ == cert.subject
            &&& cert.subject.len() > 2048 ==> m.subject@ == cert.subject.subrange(0, 2048)
            &&& cert.issuer.len() <= 2048 ==> m.issuer@ == cert.issuer
            &&& cert.issuer.len() > 2048 ==> m.issuer@ == cert.issuer.subrange(0, 2048)
            &&& m.serial_number@ == cert.serial_number
            &&& in_calendar(cert.not_before as int, 0) ==> m.not_before.at() == cert.not_before
                * 1_000_000_000
            &&& !in_calendar(cert.not_before as int, 0) ==> m.not_before == now
            &&& in_calendar(cert.not_after as int, 0) ==> m.not_after.at() == cert.not_after
                * 1_000_000_000
            &&& !in_calendar(cert.not_after as int, 0) ==> m.not_after == now
            &&& views(m.sans@) == kept_sans(names)
            &&& m.key_algorithm@ == algorithm_name(cert.key_oid)
            &&& m.key_size == key_size_of(cert)
            &&& m.completeness_flags < 0x400
        },
{
    assert(cert.subject.len() > 2048 ==> cert.subject.take(2048) =~= cert.subject.subrange(
        0,
        2048,
    ));
    assert(cert.issuer.len() > 2048 ==> cert.issuer.take(2048) =~= cert.issuer.subrange(0, 2048));
    let a = bit_if(cert.subject.len() > 0, SUBJECT);
    let b = bit_if(cert.issuer.len() > 0, ISSUER);
    let c = bit_if(kept_sans(names).len() > 0, SANS);
    let d = bit_if(algorithm_name(cert.key_oid).len() > 0, KEY_ALGORITHM);
    let e = bit_if(key_size_of(cert) > 0, KEY_SIZE);
    let f = bit_if(issuer_fingerprint_of(event) is Some, ISSUER_FINGERPRINT);
    assert(a | b | 0x004u32 | 0x008u32 | 0x010u32 | c | d | e | 0x100u32 | f < 0x400) by (bit_vector)
        requires
            a <= 0x200,
            b <= 0x200,
            c <= 0x200,
            d <= 0x200,
            e <= 0x200,
            f <= 0x200,
    ;
}

/// A certificate that cannot be read at all is reported with the connection in which it was
/// observed and with the number of its bytes; one without any bytes for that reason.
pub proof fn malformed_certificate_tells_of_the_connection(
    r: Result<ProcessedEvent, EventProcessError>,
    event: TlsCertEvent,
    fingerprint: Seq<u8>,
    cert: Option<ParsedView>,
    names: Seq<NameView>,
    now: Timestamp,
)
    requires
        is_processed(r, event, fingerprint, cert, names, now),
    ensures
        r is Err <==> event.cert_len == 0 || (cert is None && event.cert_len <= 4096),
        r matches Err(e) ==> (e matches EventProcessError::MalformedCertificate {
            reason,
            timestamp_ns,
            src_ip,
            dst_ip,
            dst_port,
            available_bytes,
        } && {
            &&& reason@ == "zero-length certificate data"@ <==> event.cert_len == 0
            &&& reason@ == "failed to parse DER-encoded certificate"@ <==> event.cert_len > 0
            &&& timestamp_ns == event.timestamp_ns
            &&& src_ip == event.src_ip
            &&& dst_ip == event.dst_ip
            &&& dst_port == event.dst_port
            &&& available_bytes == event.cert_len
        }),
{
    reveal_strlit("zero-length certificate data");
    reveal_strlit("failed to parse DER-encoded certificate");
    assert("zero-length certificate data"@[0] == 'z');
    assert("failed to parse DER-encoded certificate"@[0] == 'f');
}

} // verus!
