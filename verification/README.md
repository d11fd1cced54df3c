# syscallmind

A syscall-stream optimizer for BPF-style blockchain runtimes. Every intercepted syscall
becomes a trace event; events are grouped into per-transaction execution windows; and
a set of optimizations (an epoch-aware result cache, intra-transaction deduplication,
batched sysvar reads, speculative prefetching) is applied only where a safety gate
allows it: only `ReadOnly` and `Idempotent` syscalls are ever optimized, and only
dependency-free, all-`ReadOnly` sequences are ever reordered.

## Layout

- `src/` — the library, verified with Verus.
  - `common.rs`, `syscall_ids.rs`, `text.rs` — shared types, the FNV-1a argument hash,
    syscall IDs, decimal rendering.
  - `runtime/` — syscall registry, trace emitter (over a `crossbeam-channel`), and the
    interception handler.
  - `safety/` — classifier, data-dependency checker, and the validator that gates every
    optimization.
  - `optimizer/` — LRU result cache (over the `lru` crate), dedup table, sysvar batcher,
    prefetch buffer.
  - `pipeline/` — ring buffer, execution-window builder, newline-delimited record framing.
  - `anomaly.rs`, `inference.rs`, `workload.rs` — the integer parts of anomaly
    statistics and of the predictor, and the synthetic workload generator (over `rand`).
  - `laws.rs` — properties that span several components.
- `tests/` — executable tests of the library.
- `app/` — the command-line program (`runtime`, `replay`, `workload`), JSON I/O, and the
  floating-point anomaly scoring and next-syscall prediction.
