# trustverify

Checks whether a confidential workload runs on known hardware: it parses a TEE
attestation quote (Intel TDX DCAP, or a simplified mock format), extracts the
Platform ID, looks it up in a provider registry (with optional ed25519-signed
entries), compares it with the quote history for TCB regressions and host
migration, and reports a verdict with a trust score.

Layout:

- `src/` — the library, verified with Verus:
  - `parser.rs` — quote text normalisation and the DCAP / simplified parser;
  - `registry.rs` — registry model, lookup, checking and making entry signatures;
  - `history.rs` — regression and migration decisions over stored records;
  - `engine.rs` — the verdict, trust score, and the record to store;
  - `quote_fetcher.rs` — extracting the quote from a GCP attestation token;
  - `encoding.rs`, `text.rs` — hex / Base64 codecs and character handling.
- `app/` — the program around it: CLI, HTTP API, SQLite history store, the
  metadata-server fetch, key generation and the file handling of registry
  signing, and JSON forms of the types.
- `tests/` — tests of the library.
