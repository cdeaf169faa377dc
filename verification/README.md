# kami_data

Verified data tier of the KAMI game engine, written in Verus.

- `src/edn.rs` — an EDN reader (values, maps, vectors, strings, keywords, comments) with
  its grammar stated as spec functions, plus keyword lookup and table access.
- `src/catalog.rs` — genres, catalog entries, their comparable mirror, and the
  `:game/catalog` loader, with round-trip laws.
- `src/brainrot.rs`, `src/npc_tuning.rs`, `src/waves.rs` — character ids and the table
  lookups of the brainrot-evolution, NPC-tuning and wave loaders.
- `src/npc.rs` — NPC behavior-tree decisions, the Skibidi/Sigma/Rizz phase machines,
  waypoint advance and the dialogue stub.
- `src/pmx.rs` — the PMX mesh reader (header, vertices, faces), with the file layout
  stated as spec functions; floats are kept as their bit patterns.
- `app/` — the floating-point side (NPC movement and timers, float-valued table
  specs, the glam mesh view) and error types with `std::error::Error`.
- `tests/` — runtime tests of the library.
