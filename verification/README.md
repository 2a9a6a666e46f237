# diffbelt

An immutable key-value store whose main job is taking diffs between versions
of the data (generations). This crate holds its logic, verified with Verus:
the layout of record keys, the text encodings of keys and values, the state
machine that works out a diff, the walk that drops the records of finished
phantoms, the writes that each store operation plans, and the reading of
HTTP requests and the writing of their answers and errors.

Layout:

- `src/` — the verified library.
  - `bytes.rs` — byte strings and their order.
  - `common.rs` — keys, values, generation and phantom ids.
  - `record_key.rs` — the record key layout, with its encode/parse laws.
  - `str_serialization.rs` — UTF-8 and base64 text forms, with round-trip laws.
  - `diff_logic.rs` — the diff state machine and its laws.
  - `raw_db/` — changed keys, diff generations, the phantom-dropping walk,
    the diff over a collection's records (`diff_records.rs`), planned
    writes, keys around a record.
  - `http/` — request reading (JSON and binary forms), encodings, errors,
    answers.
- `tests/` — tests of the library.
- `app/` — the HTTP server around the library.
