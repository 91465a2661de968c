# tlapix

Verified core of a certificate guardian: a daemon that observes TLS certificates in
traffic, finds anomalies, predicts renewal failures, and tracks certificates that are not
in the inventory.

- `src/` is the library, written in Verus. Every function there has a contract, and the
  laws of the library stand beside them as public proof functions.
- `app/` is the daemon around the library: files, network, database and kernel maps.
- `tests/` runs the library on concrete values.

| Module | Content |
|--------|---------|
| `text`, `hex`, `ids`, `time`, `probability` | texts, numbers, identifiers and instants |
| `types`, `completeness`, `bpf`, `config`, `storage` | shared types, kernel records, database rows |
| `event_processor`, `ring_buffer`, `dedup`, `buffer` | from kernel events to the analyzer |
| `sni_match`, `anomaly`, `ai_backend` | anomalies of certificates |
| `renewal`, `renewal_scheduler` | prediction of renewal failures |
| `shadow`, `shadow_escalation`, `inventory`, `reconciliation` | certificates outside the inventory |
| `audit`, `export`, `prometheus`, `statsd`, `webhooks`, `web_ui` | audit trail, metrics, notifications, dashboard |
| `cli`, `integrity` | start of the daemon |

What the proofs rest on beside Verus and `vstd` is marked `external_body` or
`assume_specification`: calls into `chrono`, `uuid`, `lru`, `sha2`, `x509-parser` and
`serde_json`, and a few functions of the standard library.
