//! Verified core of a syscall-stream optimizer for BPF-style blockchain runtimes:
//! syscall classification and safety gating, trace pipeline structures, and the
//! cache / dedup / batch / prefetch optimizations.

pub mod common;
pub mod syscall_ids;
pub mod text;
pub mod runtime;
pub mod safety;
pub mod optimizer;
pub mod pipeline;
pub mod anomaly;
pub mod inference;
pub mod workload;
pub mod laws;
