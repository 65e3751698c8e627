# nv_telemetry

Libraries for modeling bare-metal telemetry, with their behaviour stated as
contracts and proved by Verus.

## Layout

- `src/telemetry/` — the source-neutral observation model: names and
  vocabulary, attributes and properties (sorted, duplicate-free, depth
  bounded), time, finite numbers, readings, logs, states, inventory,
  acquisition status, resource graphs (canonical order, limits, lookup,
  reachability) and scope-checked batches; the table form of a readings
  payload and hexadecimal byte text.
- `src/schema/` — the validated contract types: one type per contract
  message, each holding the schema's invariants for as long as it exists,
  with a plain wire form it is decoded from and encoded to. Builders and
  decoders run the same checks and report the same path and violation.
  The value vocabulary also has its canonical total order, its injective
  content-hash byte stream, and a direct protobuf emitter.
- `src/orchestration/` — the clock acquisitions are stamped with, and the
  planner that resolves poll needs against provider declarations.
- `src/order.rs`, `src/sort.rs` — the byte-lexicographic order the canonical
  forms sort by, and a binary insertion sort with duplicate detection.
- `src/text.rs`, `src/system_time.rs` — building text, and the boundary to
  the standard library's clocks.
- `tests/` — behaviour on concrete values.
- `app/` — serde twins of the observation model (`serde_model.rs`),
  protobuf message definitions and byte encoding and decoding for the value
  vocabulary (`protobuf.rs`), and cadences as `Duration`s (`cadence.rs`).
