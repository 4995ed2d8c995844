# MADE Activity Tracker — verified core

The logic of a GitHub activity tracker, written in Verus and proved
against its contracts: business-day counting, the counts behind the
dashboard metrics, time buckets for charts, embedding texts, timeline
merging, activity trends, the collaboration matrix, the roadmap of
milestone cycles, the query texts of the metrics filters, and the
decisions taken while synchronising GitHub data (which source to read,
what to store, when to read another page, what an OAuth answer means).

Layout:

- `src/` — the verified library (`made_activity_tracker`).
  - `metrics/` business days, metric counts, chart buckets, filters
  - `db/` records, row filters, query clauses, timelines, user views
  - `github/` GraphQL/REST/`gh` reply shapes, sync planning and
    fallback order, user search sync, device-flow sign-in, roadmap
  - `embeddings/` texts prepared for embedding
  - `search/`, `ai/`, `config/` duplicates, assistant server paths,
    settings
  - `text.rs`, `ordering.rs`, `calendar.rs` shared building blocks
    (the last one holds the calls into `chrono`)
- `tests/` — tests of the library.
- `app/` — a command-line front end: SQLite, HTTP, the `gh` process,
  the keychain, JSON, and the floating-point ratios of the reports.
