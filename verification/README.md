# liquid_witness

Recomputes Liquid/AMP asset supply and holder-category claims against
watch-only observations and packs the outcome into a CAB-compatible bundle.

- `src/` is the verified library: verdict rules and exit codes (`verdict`),
  holder normalisation (`holders`, ordered by `order`), the claim comparison
  and its laws (`recompute`), the canonical claim JSON (`canonical`), its
  SHA-256 digest (`digest`), bundle assembly (`cab_bridge`), the watch-only
  descriptor guard (`descriptor`), scan records (`scan`, `amp_asset`) and the
  command-line decisions (`cli`).
- `app/` is the `witness` command: argument parsing, file I/O, JSON through
  serde, and the live LWK scan over Electrum.
- `tests/` exercises the library on concrete values.

Category totals are kept in a `Vec` sorted by category, with no category
twice, instead of a `BTreeMap` keyed by strings: vstd's `BTreeMap`
specification proves little about string keys, so the ordering and the
uniqueness are stated as the vector's invariant and proved. A `BTreeMap`
form was not tried.
