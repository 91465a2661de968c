use chrono::{DateTime, Utc};
use tlapix::config::InventorySource;
use tlapix::inventory::{
    parse_hex_fingerprint, validate_entry, InventoryError, InventoryManager, RawInventoryEntry,
};
use tlapix::storage::InventoryRefreshLogRow;
use tlapix::time::Timestamp;

fn ts(t: DateTime<Utc>) -> Timestamp {
    Timestamp::new(t.timestamp(), t.timestamp_subsec_nanos()).unwrap()
}

fn fingerprint_to_hex(fp: &[u8; 32]) -> String {
    fp.iter().map(|b| format!("{:02x}", b)).collect()
}

fn entry(fingerprint: Option<String>, subject: Option<&str>) -> RawInventoryEntry {
    RawInventoryEntry { fingerprint, subject: subject.map(|s| s.to_string()) }
}

fn file_manager(poll: u64) -> InventoryManager {
    InventoryManager::new(InventorySource::File { path: "/tmp/test".to_string() }, poll)
}

#[test]
fn test_parse_hex_fingerprint_valid() {
    let fp = [0xab; 32];
    let hex = fingerprint_to_hex(&fp);
    let parsed = parse_hex_fingerprint(&hex).unwrap();
    assert_eq!(parsed, fp);
}

#[test]
fn test_parse_hex_fingerprint_with_colons() {
    let fp = [0x01; 32];
    let hex_with_colons: String = fp
        .iter()
        .map(|b| format!("{:02x}", b))
        .collect::<Vec<_>>()
        .join(":");
    let parsed = parse_hex_fingerprint(&hex_with_colons).unwrap();
    assert_eq!(parsed, fp);
}

#[test]
fn test_parse_hex_fingerprint_invalid_length() {
    assert!(parse_hex_fingerprint("abcd").is_none());
    assert!(parse_hex_fingerprint("").is_none());
}

#[test]
fn test_parse_hex_fingerprint_invalid_chars() {
    let bad = "zz".repeat(32);
    assert!(parse_hex_fingerprint(&bad).is_none());
}

#[test]
fn parse_hex_fingerprint_keeps_byte_order_and_ignores_case() {
    let mut fp = [0u8; 32];
    for i in 0..32 {
        fp[i] = (i * 8 + 3) as u8;
    }
    let hex = fingerprint_to_hex(&fp);
    assert_eq!(parse_hex_fingerprint(&hex), Some(fp));
    assert_eq!(parse_hex_fingerprint(&hex.to_uppercase()), Some(fp));
    assert_eq!(parse_hex_fingerprint(&format!("{}0", hex)), None);
}

#[test]
fn test_file_based_import_valid_entries() {
    let fp1 = [0x01; 32];
    let fp2 = [0x02; 32];
    let entries = vec![
        entry(Some(fingerprint_to_hex(&fp1)), Some("CN=example.com")),
        entry(Some(fingerprint_to_hex(&fp2)), Some("CN=test.org")),
    ];
    let mut manager = file_manager(300);
    let now = ts(Utc::now());
    let plan = manager.plan_refresh(&entries, "refresh-1", &now);
    let (result, _) = manager.finish_refresh(&plan, 0, 0, "refresh-1", &now);
    assert_eq!(result.total_entries, 2);
    assert_eq!(result.new_entries, 2);
    assert_eq!(result.skipped_invalid, 0);
    assert_eq!(plan.rows[0].fingerprint, fp1);
    assert_eq!(plan.rows[0].subject, "CN=example.com");
    assert_eq!(plan.rows[0].source, "file");
    assert_eq!(plan.rows[0].last_refresh_id, "refresh-1");
    assert_eq!(plan.rows[0].imported_at, now.timestamp_millis());
    assert_eq!(plan.rows[1].fingerprint, fp2);
}

#[test]
fn test_file_based_import_mixed_valid_invalid() {
    let fp_valid = [0x0A; 32];
    let entries = vec![
        entry(Some(fingerprint_to_hex(&fp_valid)), Some("CN=valid.com")),
        entry(Some("not-a-valid-hex".to_string()), Some("CN=bad-fp.com")),
        entry(Some(fingerprint_to_hex(&[0x0B; 32])), Some("")),
        entry(None, Some("CN=missing-fp.com")),
        entry(Some(fingerprint_to_hex(&[0x0C; 32])), None),
        entry(Some(fingerprint_to_hex(&[0x0D; 32])), Some("CN=also-valid.com")),
    ];
    let mut manager = file_manager(300);
    let now = ts(Utc::now());
    let plan = manager.plan_refresh(&entries, "r", &now);
    let (result, _) = manager.finish_refresh(&plan, 0, 0, "r", &now);
    assert_eq!(result.total_entries, 2); // fp_valid and 0x0D
    assert_eq!(result.skipped_invalid, 4); // bad hex, empty subject, missing fp, missing subject
    let fps: Vec<[u8; 32]> = plan.rows.iter().map(|r| r.fingerprint).collect();
    assert_eq!(fps, vec![fp_valid, [0x0D; 32]]);
}

#[test]
fn validate_entry_needs_both_fields() {
    let hex = fingerprint_to_hex(&[7; 32]);
    assert_eq!(
        validate_entry(&entry(Some(hex.clone()), Some("CN=a"))),
        Some(([7; 32], "CN=a".to_string()))
    );
    assert_eq!(validate_entry(&entry(Some(hex), Some(""))), None);
    assert_eq!(validate_entry(&entry(None, Some("CN=a"))), None);
}

#[test]
fn test_staleness_detection() {
    let mut manager = file_manager(300);
    assert!(!manager.is_stale());
    manager.last_successful_refresh = Some(ts(Utc::now() - chrono::Duration::minutes(61)));
    assert!(manager.is_stale());
    manager.last_successful_refresh = Some(ts(Utc::now() - chrono::Duration::minutes(5)));
    assert!(!manager.is_stale());
}

#[test]
fn staleness_starts_after_sixty_minutes() {
    let mut manager = file_manager(300);
    let start = Utc::now();
    manager.last_successful_refresh = Some(ts(start));
    let hour = start + chrono::Duration::minutes(60);
    assert!(!manager.is_stale_at(&ts(hour)));
    assert!(manager.is_stale_at(&ts(hour + chrono::Duration::nanoseconds(1))));
    let over = ts(hour + chrono::Duration::seconds(30));
    assert!(manager.is_stale_at(&over));
    assert_eq!(manager.staleness_minutes_at(&over), Some(60));
    let later = ts(start + chrono::Duration::minutes(61));
    assert!(manager.is_stale_at(&later));
    assert_eq!(manager.staleness_minutes_at(&later), Some(61));
    manager.last_successful_refresh = Some(ts(Utc::now() - chrono::Duration::seconds(3630)));
    assert!(manager.is_stale());
}

#[test]
fn test_stale_entries_removed_on_refresh() {
    let fp1 = [0x01; 32];
    let mut manager = file_manager(300);
    let now = ts(Utc::now());
    let entries = vec![entry(Some(fingerprint_to_hex(&fp1)), Some("CN=one.com"))];
    let plan = manager.plan_refresh(&entries, "second", &now);
    let (result, log) = manager.finish_refresh(&plan, 1, 1, "second", &now);
    assert_eq!(result.total_entries, 1);
    assert_eq!(result.removed_entries, 1);
    assert_eq!(result.new_entries, 0);
    assert_eq!(log.removed_entries, Some(1));
}

#[test]
fn test_poll_interval_clamped_to_max() {
    assert_eq!(file_manager(600).poll_interval_secs, 300);
    assert_eq!(file_manager(120).poll_interval_secs, 120);
}

#[test]
fn test_refresh_logs_recorded() {
    let mut manager = file_manager(300);
    let now = ts(Utc::now());
    let entries = vec![entry(Some(fingerprint_to_hex(&[1; 32])), Some("CN=logged.com"))];
    let plan = manager.plan_refresh(&entries, "id-1", &now);
    let (_, log) = manager.finish_refresh(&plan, 0, 0, "id-1", &now);
    assert!(log.success);
    assert_eq!(log.source, "file");
    assert_eq!(log.total_entries, Some(1));
    assert_eq!(log.new_entries, Some(1));
    assert_eq!(log.id, "id-1");
    assert_eq!(manager.last_refresh(), Some(now));
}

#[test]
fn failed_import_is_logged_for_services_only() {
    let now = ts(Utc::now());
    assert!(file_manager(300).failed_refresh_log("x", &now).is_none());
    let api = InventoryManager::new(
        InventorySource::Api { endpoint: "https://a".to_string(), auth_token: "t".to_string() },
        300,
    );
    let row = api.failed_refresh_log("x", &now).unwrap();
    assert!(!row.success);
    assert_eq!(row.source, "api");
    assert_eq!(row.total_entries, None);
}

#[test]
fn test_initialize_from_storage() {
    let mut manager = file_manager(300);
    let at = Utc::now() - chrono::Duration::minutes(10);
    let mut row = InventoryRefreshLogRow {
        id: "log-1".to_string(),
        timestamp: at.timestamp_millis(),
        source: "file".to_string(),
        total_entries: Some(10),
        new_entries: Some(5),
        removed_entries: Some(0),
        skipped_invalid: Some(0),
        success: false,
    };
    manager.initialize_from_storage(None);
    manager.initialize_from_storage(Some(&row));
    assert!(manager.last_refresh().is_none());
    row.success = true;
    manager.initialize_from_storage(Some(&row));
    assert_eq!(manager.last_refresh().unwrap().timestamp_millis(), at.timestamp_millis());
}

#[test]
fn inventory_error_messages() {
    assert_eq!(InventoryError::Timeout(30).message(), "Request timed out after 30 seconds");
    assert_eq!(InventoryError::Io("gone".to_string()).message(), "I/O error: gone");
    assert_eq!(InventoryError::Json("bad".to_string()).message(), "JSON parse error: bad");
    assert_eq!(InventoryError::Http("no".to_string()).message(), "HTTP error: no");
    assert_eq!(InventoryError::Storage("s".to_string()).message(), "Storage error: s");
}
