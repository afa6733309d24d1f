# arnis core

Verified core of the Arnis world generator, written in Verus.

- `src/ore_generation.rs`: placement of ore veins in the filled underground:
  the vanilla-to-column height map, the deepslate band, placement ranges,
  vein-centre sampling, vein walks and the per-chunk vein plan.
- `src/rng.rs`: per-chunk seeds and the `rand` draws the planner makes.
- `src/world_editor/`: chunk sections (`common.rs`), packing of palette
  indices into 64-bit words (`packing.rs`), and the decode / overlay /
  re-encode merge of chunks for append-mode saves (`chunk_merge.rs`).
- `src/world_metadata.rs`, `src/coordinate_system.rs`: generation settings
  and their append warnings; Minecraft bounding boxes.
- `app/`: the program side: console output, reading and writing world
  files, NBT and JSON serialisation, and the floating-point geography.
