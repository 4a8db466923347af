# kerb

Real-time telemetry from sim-racing titles (iRacing, Assetto Corsa Evo,
Le Mans Ultimate), read from the shared memory the simulators publish.

The crate is written in Verus: the logic that decides or computes is stated
in `requires` / `ensures` contracts and proved.

## Layout

- `src/` — the verified library.
  - `iracing/` — the remote-control (broadcast) messages and their packing,
    the shared-memory header checks, picking the newest data buffer, decoding
    variables, and lookups in the session-info tree.
  - `lmu.rs` — vehicle slots, the player's slot, and the reader that accepts
    a copy of a region only when no write overlapped it.
  - `serializer.rs` — flattening nested telemetry records into a
    `name -> value` snapshot.
  - `snapshot_plan.rs` — which entries each field of a raw record contributes
    to a snapshot.
  - `typegen.rs` — the variable catalogue (merging, TOML output, snake_case
    field names) and the typed-frame source generator.
  - `sim_string.rs`, `utils.rs`, `text.rs` — the fixed-length strings the
    sims write, CP-1252 and UTF-16 decoding, sorted text listings.
  - `connection.rs`, `error.rs`, `types.rs`, `ac_evo/` — picking the running
    simulator, errors, values and metadata.
- `app/` — the Windows side: shared-memory mappings, window messages, files,
  serde glue and floating-point formatting, all handing plain values to the
  library.
- `tests/` — tests of the library on concrete values.
