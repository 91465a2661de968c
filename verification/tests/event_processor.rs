use tlapix::bpf::TlsCertEvent;
use tlapix::completeness;
use tlapix::dedup::DeduplicationEngine;
use tlapix::event_processor::{
    compute_sha256, estimate_ec_key_size_from_params, estimate_rsa_key_size, extract_key_info,
    build_partial_metadata, extract_metadata, extract_sans, extract_sni, format_ipv4,
    process_event, AlternativeName, EventProcessError, ParsedCertificate,
};
use tlapix::ring_buffer::{ReaderStats, RingBufferReader, RingBufferReaderConfig};
use tlapix::time::Timestamp;

/// Helper to create a zeroed-out test event.
fn create_test_event() -> TlsCertEvent {
    TlsCertEvent {
        timestamp_ns: 1_000_000_000,
        src_ip: 0xC0A80001, // 192.168.0.1
        dst_ip: 0x0A000001, // 10.0.0.1
        src_port: 54321,
        dst_port: 443,
        ip_version: 4,
        tls_version: 0x0303,
        sni_len: 0,
        sni: [0u8; 256],
        fingerprint: [0u8; 32],
        cert_len: 0,
        cert_data: [0u8; 4096],
        chain_depth: 1,
        issuer_fingerprint: [0u8; 32],
        is_new: 1,
    }
}

fn tlv(tag: u8, content: &[u8]) -> Vec<u8> {
    let mut out = vec![tag];
    let n = content.len();
    if n < 128 {
        out.push(n as u8);
    } else if n < 256 {
        out.extend([0x81, n as u8]);
    } else {
        out.extend([0x82, (n >> 8) as u8, n as u8]);
    }
    out.extend_from_slice(content);
    out
}

fn seq(parts: &[Vec<u8>]) -> Vec<u8> {
    tlv(0x30, &parts.concat())
}

/// A distinguished name with a single common name.
fn name(common: &str) -> Vec<u8> {
    let attribute = seq(&[tlv(0x06, &[0x55, 0x04, 0x03]), tlv(0x0c, common.as_bytes())]);
    tlv(0x30, &tlv(0x31, &attribute))
}

/// A certificate in DER with the given key and alternative names.
fn certificate(spki: Vec<u8>, names: &[Vec<u8>]) -> Vec<u8> {
    let algorithm = seq(&[
        tlv(0x06, &[0x2a, 0x86, 0x48, 0x86, 0xf7, 0x0d, 0x01, 0x01, 0x0b]),
        tlv(0x05, &[]),
    ]);
    let validity = seq(&[tlv(0x17, b"240101000000Z"), tlv(0x17, b"250101000000Z")]);
    let mut tbs = vec![
        tlv(0xa0, &tlv(0x02, &[2])),
        tlv(0x02, &[0x1a, 0x2b]),
        algorithm.clone(),
        name("Test CA"),
        validity,
        name("test.example.com"),
        spki,
    ];
    if !names.is_empty() {
        let extension = seq(&[tlv(0x06, &[0x55, 0x1d, 0x11]), tlv(0x04, &seq(names))]);
        tbs.push(tlv(0xa3, &seq(&[extension])));
    }
    seq(&[seq(&tbs), algorithm, tlv(0x03, &[0, 1, 2, 3])])
}

/// An RSA key of 2048 bits.
fn rsa_key() -> Vec<u8> {
    let mut modulus = vec![0u8; 257];
    modulus[1] = 0xc3;
    modulus[256] = 1;
    let key = seq(&[tlv(0x02, &modulus), tlv(0x02, &[1, 0, 1])]);
    let mut bits = vec![0u8];
    bits.extend(key);
    seq(&[
        seq(&[
            tlv(0x06, &[0x2a, 0x86, 0x48, 0x86, 0xf7, 0x0d, 0x01, 0x01, 0x01]),
            tlv(0x05, &[]),
        ]),
        tlv(0x03, &bits),
    ])
}

/// A key on the curve P-384.
fn p384_key() -> Vec<u8> {
    let mut bits = vec![0u8; 98];
    bits[1] = 4;
    seq(&[
        seq(&[
            tlv(0x06, &[0x2a, 0x86, 0x48, 0xce, 0x3d, 0x02, 0x01]),
            tlv(0x06, &[0x2b, 0x81, 0x04, 0x00, 0x22]),
        ]),
        tlv(0x03, &bits),
    ])
}

fn test_certificate() -> Vec<u8> {
    certificate(
        rsa_key(),
        &[tlv(0x82, b"test.example.com"), tlv(0x82, b"www.example.com")],
    )
}

fn event_with(der: &[u8]) -> TlsCertEvent {
    let mut event = create_test_event();
    event.cert_data[..der.len()].copy_from_slice(der);
    event.cert_len = der.len() as u32;
    event
}

#[test]
fn test_compute_sha256() {
    let data = b"hello world";
    let hash = compute_sha256(data);
    // Known SHA-256 of "hello world"
    let expected = [
        0xb9, 0x4d, 0x27, 0xb9, 0x93, 0x4d, 0x3e, 0x08, 0xa5, 0x2e, 0x52, 0xd7, 0xda, 0x7d,
        0xab, 0xfa, 0xc4, 0x84, 0xef, 0xe3, 0x7a, 0x53, 0x80, 0xee, 0x90, 0x88, 0xf7, 0xac,
        0xe2, 0xef, 0xcd, 0xe9,
    ];
    assert_eq!(hash, expected);
}


#[test]
fn test_format_ipv4() {
    assert_eq!(format_ipv4(0xC0A80001), "192.168.0.1");
    assert_eq!(format_ipv4(0x7F000001), "127.0.0.1");
    assert_eq!(format_ipv4(0x0A000001), "10.0.0.1");
}


#[test]
fn test_extract_sni_empty() {
    let mut event = create_test_event();
    event.sni_len = 0;
    assert_eq!(extract_sni(&event), None);
}


#[test]
fn test_extract_sni_valid() {
    let mut event = create_test_event();
    let hostname = b"example.com";
    event.sni[..hostname.len()].copy_from_slice(hostname);
    event.sni_len = hostname.len() as u16;
    assert_eq!(extract_sni(&event), Some("example.com".to_string()));
}


#[test]
fn test_process_event_zero_length_cert() {
    let mut event = create_test_event();
    event.cert_len = 0;
    let result = process_event(&event);
    assert!(result.is_err());
    match result.unwrap_err() {
        EventProcessError::MalformedCertificate { reason, .. } => {
            assert!(reason.contains("zero-length"));
        }
        _ => panic!("expected MalformedCertificate error"),
    }
}


#[test]
fn test_process_event_invalid_der() {
    let mut event = create_test_event();
    // Fill with garbage data that isn't valid DER
    event.cert_data[..10].copy_from_slice(&[0xFF; 10]);
    event.cert_len = 10;
    let result = process_event(&event);
    assert!(result.is_err());
}


#[test]
fn test_process_event_truncated_cert_returns_partial() {
    let mut event = create_test_event();
    // Set cert_len larger than buffer to indicate truncation
    event.cert_len = 8192;
    // Fill with some data (won't parse as valid cert, but truncation path
    // should return partial metadata)
    event.cert_data[..100].copy_from_slice(&[0x30; 100]);
    let result = process_event(&event);
    // Truncated certs should return partial metadata, not an error
    assert!(result.is_ok());
    let processed = result.unwrap();
    assert!(processed.is_truncated);
    // Completeness flags should only have CHAIN_DEPTH set (partial extraction)
    assert_eq!(
        processed.metadata.completeness_flags & completeness::SUBJECT,
        0
    );
}


#[test]
fn test_process_event_valid_certificate() {
    let cert_der = test_certificate();
    let mut event = create_test_event();
    let copy_len = cert_der.len().min(4096);
    event.cert_data[..copy_len].copy_from_slice(&cert_der[..copy_len]);
    event.cert_len = cert_der.len() as u32;

    // Set SNI
    let sni = b"test.example.com";
    event.sni[..sni.len()].copy_from_slice(sni);
    event.sni_len = sni.len() as u16;

    let result = process_event(&event);
    assert!(result.is_ok(), "failed to process valid cert: {:?}", result.err());

    let processed = result.unwrap();
    assert!(!processed.is_truncated);

    let meta = &processed.metadata;

    // Fingerprint should be the SHA-256 of the DER data
    let expected_fp = compute_sha256(&cert_der[..copy_len]);
    assert_eq!(meta.fingerprint, expected_fp);

    // Subject should contain "test.example.com"
    assert!(
        meta.subject.contains("test.example.com"),
        "subject was: {}",
        meta.subject
    );

    // Key algorithm should be RSA
    assert_eq!(meta.key_algorithm, "RSA");

    // Key size should be 2048
    assert_eq!(meta.key_size, 2048);

    // SNI should be extracted
    assert_eq!(meta.sni_hostname, Some("test.example.com".to_string()));

    // Completeness flags should have all required fields set
    assert_ne!(meta.completeness_flags & completeness::SUBJECT, 0);
    assert_ne!(meta.completeness_flags & completeness::ISSUER, 0);
    assert_ne!(meta.completeness_flags & completeness::SERIAL_NUMBER, 0);
    assert_ne!(meta.completeness_flags & completeness::NOT_BEFORE, 0);
    assert_ne!(meta.completeness_flags & completeness::NOT_AFTER, 0);
    assert_ne!(meta.completeness_flags & completeness::KEY_ALGORITHM, 0);
    assert_ne!(meta.completeness_flags & completeness::KEY_SIZE, 0);

    // SANs should include the test domains
    assert!(
        meta.sans.iter().any(|s| s == "test.example.com"),
        "SANs were: {:?}",
        meta.sans
    );
}


#[test]
fn test_process_event_completeness_flags_bitmask() {
    // Verify that completeness flags correctly reflect which fields are present
    let cert_der = test_certificate();
    let mut event = create_test_event();
    let copy_len = cert_der.len().min(4096);
    event.cert_data[..copy_len].copy_from_slice(&cert_der[..copy_len]);
    event.cert_len = cert_der.len() as u32;

    let result = process_event(&event).unwrap();
    let flags = result.metadata.completeness_flags;

    // For a valid cert, ALL_REQUIRED should be set
    assert_eq!(
        flags & completeness::ALL_REQUIRED,
        completeness::ALL_REQUIRED,
        "not all required flags set: got {:#010b}, expected {:#010b}",
        flags & completeness::ALL_REQUIRED,
        completeness::ALL_REQUIRED
    );
}


#[test]
fn parsed_certificate_fields_are_exact() {
    let event = event_with(&test_certificate());
    let meta = process_event(&event).unwrap().metadata;
    assert_eq!(meta.subject, "CN=test.example.com");
    assert_eq!(meta.issuer, "CN=Test CA");
    assert_eq!(meta.serial_number, "1a2b");
    assert_eq!(meta.not_before.timestamp(), 1_704_067_200);
    assert_eq!(meta.not_after.timestamp(), 1_735_689_600);
    assert_eq!(meta.sans, vec!["test.example.com", "www.example.com"]);
    assert_eq!(meta.issuer_fingerprint, None);
    assert_eq!(meta.source_ip, Some("192.168.0.1".to_string()));
    assert_eq!(meta.destination_ip, Some("10.0.0.1".to_string()));
    assert_eq!(meta.completeness_flags, 0x1ff);
    assert_eq!(meta.connection_count, 1);
    assert_eq!(meta.first_seen, meta.last_seen);
}

#[test]
fn names_of_every_kind_are_read() {
    let names = [
        tlv(0x82, b"a.example.com"),
        tlv(0x87, &[10, 0, 0, 255]),
        tlv(0x87, &[0x20, 0x01, 0x0d, 0xb8, 0, 0, 0, 0, 0, 0, 0, 0, 0, 0, 0, 1]),
        tlv(0x81, b"x@example.com"),
        tlv(0x86, b"https://example.com/"),
        tlv(0x88, &[0x2a, 0x03]),
    ];
    let meta = process_event(&event_with(&certificate(p384_key(), &names))).unwrap().metadata;
    assert_eq!(
        meta.sans,
        vec![
            "a.example.com",
            "10.0.0.255",
            "2001:0db8:0000:0000:0000:0000:0000:0001",
            "x@example.com",
            "https://example.com/"
        ]
    );
    assert_eq!(meta.key_algorithm, "ECDSA");
    assert_eq!(meta.key_size, 384);
}

#[test]
fn at_most_hundred_names_are_kept() {
    let names: Vec<AlternativeName> =
        (0..120).map(|i| AlternativeName::Dns(format!("host-{}", i))).collect();
    let sans = extract_sans(&names);
    assert_eq!(sans.len(), 100);
    assert_eq!(sans[0], "host-0");
    assert_eq!(sans[99], "host-99");
}

#[test]
fn certificate_without_names_lacks_the_flag() {
    let meta = process_event(&event_with(&certificate(rsa_key(), &[]))).unwrap().metadata;
    assert!(meta.sans.is_empty());
    assert_eq!(meta.completeness_flags & completeness::SANS, 0);
}

#[test]
fn issuer_fingerprint_comes_from_the_event() {
    let mut event = event_with(&test_certificate());
    event.issuer_fingerprint[31] = 9;
    let meta = process_event(&event).unwrap().metadata;
    assert_eq!(meta.issuer_fingerprint, Some(event.issuer_fingerprint));
    assert_eq!(
        meta.completeness_flags & completeness::ISSUER_FINGERPRINT,
        completeness::ISSUER_FINGERPRINT
    );
}

#[test]
fn truncated_certificate_keeps_only_the_chain_depth() {
    let mut event = create_test_event();
    event.cert_len = 5000;
    let processed = process_event(&event).unwrap();
    assert!(processed.is_truncated);
    assert_eq!(processed.metadata.completeness_flags, completeness::CHAIN_DEPTH);
    assert_eq!(processed.metadata.fingerprint, compute_sha256(&[0u8; 4096]));
    assert_eq!(processed.metadata.not_after.timestamp(), 0);
}

#[test]
fn partial_metadata_flags_the_issuer_fingerprint() {
    let mut event = create_test_event();
    event.issuer_fingerprint = [7u8; 32];
    let meta = build_partial_metadata(&event, [1u8; 32], &Timestamp::now());
    assert_eq!(meta.issuer_fingerprint, Some([7u8; 32]));
    assert_eq!(
        meta.completeness_flags,
        completeness::CHAIN_DEPTH | completeness::ISSUER_FINGERPRINT
    );
}

#[test]
fn long_names_are_cut() {
    let cert = ParsedCertificate {
        subject: "\u{e9}".repeat(2049),
        issuer: "x".repeat(2048),
        serial_number: "1".to_string(),
        not_before: 0,
        not_after: 1,
        key_oid: "1.2.3".to_string(),
        key_parameters: None,
        key_data: vec![],
    };
    let event = create_test_event();
    let meta = extract_metadata(&event, [1u8; 32], cert, &vec![], &Timestamp::now());
    assert_eq!(meta.subject, "\u{e9}".repeat(2048));
    assert_eq!(meta.issuer, "x".repeat(2048));
}

#[test]
fn malformed_certificate_is_reported_with_its_connection() {
    let mut event = create_test_event();
    event.cert_data[..10].copy_from_slice(&[0xFF; 10]);
    event.cert_len = 10;
    match process_event(&event).unwrap_err() {
        EventProcessError::MalformedCertificate {
            reason,
            timestamp_ns,
            src_ip,
            dst_ip,
            dst_port,
            available_bytes,
        } => {
            assert_eq!(reason, "failed to parse DER-encoded certificate");
            assert_eq!(timestamp_ns, 1_000_000_000);
            assert_eq!(src_ip, 0xC0A80001);
            assert_eq!(dst_ip, 0x0A000001);
            assert_eq!(dst_port, 443);
            assert_eq!(available_bytes, 10);
        }
        other => panic!("unexpected error {:?}", other),
    }
}

#[test]
fn event_error_messages() {
    let error = EventProcessError::PartialExtraction { missing_fields: "sans".to_string() };
    assert_eq!(error.message(), "partial certificate extraction: sans");
    let error = process_event(&create_test_event()).unwrap_err();
    assert_eq!(error.message(), "malformed certificate: zero-length certificate data");
}

#[test]
fn server_name_needs_valid_text_and_length() {
    let mut event = create_test_event();
    event.sni[0] = 0xff;
    event.sni_len = 1;
    assert_eq!(extract_sni(&event), None);
    event.sni_len = 257;
    assert_eq!(extract_sni(&event), None);
    event.sni[..2].copy_from_slice("\u{e9}".as_bytes());
    event.sni_len = 2;
    assert_eq!(extract_sni(&event), Some("\u{e9}".to_string()));
}

#[test]
fn rsa_key_sizes() {
    let sizes: Vec<u32> =
        [600, 512, 511, 384, 270, 256, 140, 127, 0].iter().map(|n| estimate_rsa_key_size(*n)).collect();
    assert_eq!(sizes, vec![4096, 4096, 3072, 3072, 2048, 2048, 1024, 1016, 0]);
}

#[test]
fn curve_sizes() {
    let p256 = [0x06, 0x08, 0x2a, 0x86, 0x48, 0xce, 0x3d, 0x03, 0x01, 0x07];
    assert_eq!(estimate_ec_key_size_from_params(&p256), 256);
    assert_eq!(estimate_ec_key_size_from_params(&[0x2b, 0x81, 0x04, 0x00, 0x22]), 384);
    assert_eq!(estimate_ec_key_size_from_params(&[9, 0x2b, 0x81, 0x04, 0x00, 0x23]), 521);
    assert_eq!(estimate_ec_key_size_from_params(&[0x2b, 0x81, 0x04, 0x00]), 0);
    assert_eq!(estimate_ec_key_size_from_params(&[]), 0);
}

#[test]
fn key_without_parameters_is_sized_by_its_point() {
    let mut cert = ParsedCertificate {
        subject: String::new(),
        issuer: String::new(),
        serial_number: String::new(),
        not_before: 0,
        not_after: 0,
        key_oid: "1.2.840.10045.2.1".to_string(),
        key_parameters: None,
        key_data: vec![0; 133],
    };
    assert_eq!(extract_key_info(&cert), ("ECDSA".to_string(), 521));
    cert.key_oid = "1.3.101.112".to_string();
    assert_eq!(extract_key_info(&cert), ("Ed25519".to_string(), 256));
    cert.key_oid = "1.3.101.113".to_string();
    assert_eq!(extract_key_info(&cert), ("Ed448".to_string(), 448));
    cert.key_oid = "1.2.3".to_string();
    assert_eq!(extract_key_info(&cert), ("1.2.3".to_string(), 0));
}

#[test]
fn test_ring_buffer_reader_processes_events() {
    let mut stats = ReaderStats::default();
    let now = Timestamp::now();
    let event = event_with(&test_certificate());
    let passed = RingBufferReader::handle_event_at(&event, &mut stats, &now).unwrap();
    assert!(!passed.is_truncated);
    assert!(passed.is_new);
    assert_ne!(passed.metadata.fingerprint, [0u8; 32]);
    assert_eq!(passed.metadata.first_seen, now);
    assert_eq!(stats.events_processed, 1);
}

#[test]
fn test_ring_buffer_reader_handles_malformed() {
    let reader = RingBufferReader::new(RingBufferReaderConfig::default());
    assert_eq!(reader.config.channel_capacity, 1024);
    let mut stats = ReaderStats::default();
    let now = Timestamp::now();
    let bad = event_with(&[0xFF; 10]);
    assert!(RingBufferReader::handle_event_at(&bad, &mut stats, &now).is_none());
    let mut cut = create_test_event();
    cut.cert_len = 9000;
    cut.is_new = 0;
    let passed = RingBufferReader::handle_event_at(&cut, &mut stats, &now).unwrap();
    assert!(passed.is_truncated);
    assert!(!passed.is_new);
    let good = event_with(&test_certificate());
    assert!(RingBufferReader::handle_event_at(&good, &mut stats, &now).is_some());
    assert_eq!(
        stats,
        ReaderStats {
            events_received: 3,
            events_processed: 2,
            events_malformed: 1,
            events_truncated: 1,
        }
    );
}

#[test]
fn test_dedup_forwards_only_unique_certificates() {
    // The same event three times
    let event = event_with(&test_certificate());
    let mut stats = ReaderStats::default();
    let mut received_events = Vec::new();
    for _ in 0..3 {
        let passed =
            RingBufferReader::handle_event_at(&event, &mut stats, &Timestamp::now()).unwrap();
        received_events.push(passed);
    }

    // All 3 events should be received by the reader (it doesn't dedup)
    assert_eq!(received_events.len(), 3);

    // Now run through dedup - only the first should be "new"
    let mut dedup = DeduplicationEngine::new(1000);
    let mut unique_count = 0;
    for evt in &received_events {
        if dedup.mark_seen(evt.metadata.fingerprint) {
            unique_count += 1;
        }
    }
    assert_eq!(
        unique_count, 1,
        "Only one unique certificate should pass dedup"
    );
}
