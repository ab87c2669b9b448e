# albums

The verified core of the Albums media server: a Rust library checked with Verus, and the
server program around it.

- `src/` — the library, checked by Verus against its contracts:
  - `paths` — sharded thumbnail paths (`thumbs/34/00001234.jpg`: base, directory, file) and
    hexadecimal names;
  - `perf` — timing totals by label, kept as a list of (label, nanoseconds) with no label
    twice: vstd's `HashMap` specification holds only for keys that obey its key model,
    which `String` does not, so a `HashMap<String, _>` could not be reasoned about;
  - `query` — validation of sort requests and the SQL plan of a media listing;
  - `timestamp` — capture timestamps: parsing, display, UTC normalisation, EXIF dates
    and offsets (formatting and parsing are chrono's, behind named results);
  - `metadata` — which files are photos, hidden-file filtering, orientation, and the
    metadata decision for a photo;
  - `indexer` — the indexing run as a step machine: which walked entries get a row,
    progress, re-index test, batching, stopping;
  - `errors`, `serving`, `models`, `stats`, `state`, `logger` — error answers, served-file
    headers, stored rows, system figures, configuration and the logger's decisions.
- `tests/` — tests on concrete values, run against the real outside crates.
- `app/` — the HTTP server (axum), the database access (rusqlite), the directory walk,
  image decoding and thumbnailing, and the logger's thread.
