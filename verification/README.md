# zeno_core

The core of a leakage-aware time-series toolkit, written in Verus: every
function in `src/` carries a contract that Verus proves.

- `src/engine/window.rs`, `arrow_ops.rs`, `columns.rs`, `polars_ops.rs`:
  lag and rolling-window features, feature column names, and the feature
  plans that a Polars frame is extended with.
- `src/validator/temporal.rs`, `src/engine/polars_ops.rs`: train/test split
  and feature-cutoff checks.
- `src/validator/leakage.rs`: window fingerprints (XXH3 digests of
  little-endian word buffers), span overlap, Jaccard similarity, the leakage detector and the
  rolling-hash validator.
- `src/engine/serverless.rs`: expanding and rolling backtest fold plans.
- `src/engine/audit.rs`, `managed.rs`: audit reports, compliance checks, the
  audit log, HTML rendering, pipeline steps, the pipeline registry and
  schedules.
- `src/engine/batch.rs`, `foundation.rs`, `gpu.rs`: chunking of batches and
  streams, model context windows, GPU memory admission.
- `src/string_map.rs`, `src/text.rs`: a text-keyed map, and the decimal and
  lexicographic facts of std's string functions.

The `proof fn law_*` items state the properties that hold across calls.

`app/` is the Python extension (pyo3) around the library: it reads the clock,
Python, Arrow and Polars objects, does the floating-point statistics, and hands the
library plain values. `tests/` runs the library on concrete values.
