# Tolerance API

A REST API over the NIST SP 800-171 / 800-172 and FAR 52.204-21 requirement
catalogues (the CPRT JSON exports), for CMMC compliance work: a search index
over the elements, the family → requirement → security-requirement hierarchy,
SPRS scoring weights, POA&M eligibility rules, pagination, JSON or TOON output,
and an offline ingest that lays every document out as key-value pairs.

## Layout

- `src/` — the library, verified with Verus. Every public function states in
  its contract what it returns; the laws of the library (search results respect
  the kind filter and come in order, pages of a listing fit together, a window
  read from stored pages is the window of the items written, the POA&M rules,
  identifier forms that agree) are proof functions.
  - `model`, `query` — document keys, element kinds, path and query parsing.
  - `index` — tokenizer and search index (lookup by identifier, by kind, word
    and substring search).
  - `annex`, `scoring` — the SPRS weight table and its lookups.
  - `poam` — POA&M eligibility (32 CFR §170.21).
  - `assemble`, `service`, `state`, `document` — response assembly and the
    operations behind each endpoint.
  - `kv` — key layout, per-document ingest, and reading a window of a paged
    bucket.
  - `toon` — a TOON encoder for JSON values.
  - `text`, `order` — character-level string utilities and ordering.
- `tests/` — tests of the library.
- `app/` — the HTTP server (axum), loading of the JSON exports, serialization,
  and the `ingest` command that writes `wrangler kv bulk put` files.

## Scoring table

The scoring table is built in: it holds the DoD Assessment Methodology
(Annex A) weights of the 110 SP 800-171 Rev 2 requirements, keyed by their
zero-padded Rev 3 identifiers (`03.01.01`), with the CMMC level, the
foundational flag (the Level 1 practices) and a priority derived from the
weight. The server and the ingest command read `data/cmmc-scoring.json` when
it is present (`ScoringDatabase::from_entries`, `CmmcState::with_scoring`) and
use the built-in table otherwise.

## Running

```bash
tolerance_api            # serve on [::]:3000 (HOST, PORT, NIST_*_PATH)
tolerance_api ingest     # write ./kv-bulk/bulk-*.json
```
