# watch-watch

A server that enrolls network-monitoring agents and correlates the security
events they publish, and the agent ("collector") that enrolls with it and
forwards kernel network events to Kafka.

- `src/` is the verified library (Verus):
  - `rules.rs`: detection rules and the correlation engine. Each correlated
    rule keeps one sliding window per (rule, group key); `process` drops the
    stale front of the window, appends the event and judges the window.
  - `registry.rs`: enrollment tokens (issuing, storage digest, admission)
    and agent registration, including public-key encoding.
  - `server.rs`, `collector.rs`, `kafka.rs`, `config.rs`: the decisions and
    records of the HTTP server, the collector and the Kafka administration.
  - `text.rs`: joining, decimal numbers, whitespace trimming, HTTP bodies.
  - `codec.rs`: the trusted bridges to chrono, sha2, hex, base64, nanoid,
    rand and ed25519-dalek.
- `app/` runs the programs: SQLite storage, the axum server, Kafka clients,
  the eBPF event stream, configuration files, and serde forms of the records.
- `tests/` exercises the library on concrete values.
