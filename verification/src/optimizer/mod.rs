pub mod dedup;
pub mod batcher;
pub mod cache;
pub mod prefetcher;
