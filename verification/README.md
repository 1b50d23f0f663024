# rand_explorer

A desktop explorer for the `rand` crate family, split in two:

- `src/` is the verified library (Verus). It holds the logic of the explorer:
  the engine kinds and seeding of generators, the determinism check, the
  sequence operations (choose, sample, weighted choice, shuffle, passwords),
  the primitive samples with the coin and dice tallies, the build metadata
  parser, the tab list with its code examples, and the live-refresh decision.
  Calls into `rand`, `rand_chacha` and `rand_pcg`, and the few std text
  operations vstd does not specify, sit behind small trusted wrappers in
  `src/rng.rs` and `src/text.rs`, each with the contract its source shows.
- `app/` is the egui program around it: windows and widgets, file I/O for
  presets and CSV export, and the floating-point sampling and statistics
  (ranges, distributions, histograms), which the library does not hold.

`tests/` exercises the library on concrete values.
