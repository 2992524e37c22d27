# mos_storage_sqlite

The local SQLite storage of M/OS, as a library verified with Verus.

- `src/` is the verified library. `sqlite.rs`, `clock.rs` and the few
  `external_body` readers next to their callers are the only trusted items:
  each names the `rusqlite`, `time`, `uuid`, `sha2` or `hex` call it makes and
  says what its contract claims. The calls that matter most for the
  storage's guarantees also add an event to a ghost `Trace` (what was handed
  to SQLite and what it answered), so that contracts can say what was done:
  a successful opening's trace shows the durability pragmas handed over and
  WAL, `synchronous=FULL` and foreign keys read back, an integrity check that
  answered `ok`, the version read, the migration scripts from that version
  on in order, a snapshot (checked whole, to a file named
  `pre-migration-v<version>-<time>.db`) exactly when an older populated
  database is upgraded, and the orphan guard passed at the end. The
  transactions state the exact sequence of their statements and their
  commit the same way (starting, ending and reopening a day, storing an
  analysis with its evidence and search entry, deleting a meeting, trimming
  a transcript, forgetting a provider, truncating or deleting a
  conversation); where a statement that changed no row means "not found",
  the trace records the count SQLite reported and the contract says that a
  zero count is `NotFound` and stops the transaction there. Every read
  states that what it returns is what the trace shows SQLite answered. What SQLite does with what it is
  handed is not proved. Also
  proved: how SQLite failures become errors (`error.rs`), when a backup is
  trusted and which daily snapshots are pruned (`backup.rs`), the CronoCAD
  import rules (`cronocad.rs`), and the repositories' own bookkeeping
  (academic providers, daily sessions, devices, ingestion, meetings,
  conversations, attention settings).
- `tests/` runs the library against real SQLite databases in temporary
  directories.
- `app/` is the unverified shell: creating the directories and reading the
  migration scripts from disk, the shared, locked storage, `.mos-backup`
  archives (zip), the serialisable copies of the report types, and the few
  computations on floating point.
