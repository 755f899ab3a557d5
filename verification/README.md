# awa-model

The storage engine of a PostgreSQL-backed job queue: its rules as a verified
library, and the PostgreSQL driver around them.

Jobs live on planes: ready rows on lanes, leases and receipts of running
attempts, deferred rows, terminal rows, dead letters. The append-only planes are
partitioned by rings of slots that are rotated, pruned and reused.

## Layout

- `src/` holds the rules: routing, placement, payloads, state transitions, ring
  rotation and pruning, completion, cancellation, claim cursors, counters, and
  the text of generated SQL. Every function has a contract that Verus proves.
  Facts that hold across functions are public proof functions whose names begin
  with `law_`.
- `app/` holds the statements, transactions and caches. It asks the database,
  hands the answers to the library, and carries out what the library decides.
- `tests/` runs the library on concrete values.

## What is trusted

Calls into other crates stand behind small functions whose contracts are
believed: JSON values in `json`, calendar and durations in `clock`, hexadecimal,
UUID text and expression parsing in `outside`, and the hash of a unique key in
`routing`.
