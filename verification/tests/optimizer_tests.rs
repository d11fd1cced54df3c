use std::sync::atomic::{AtomicU64, Ordering};
use std::sync::Arc;
use syscallmind::common::{zero_tx_id, CacheKey};
use syscallmind::optimizer::batcher::{batch_sysvar_reads, can_batch, PendingSyscall};
use syscallmind::optimizer::cache::{CachedResult, SysvarCache};
use syscallmind::optimizer::dedup::DedupTable;
use syscallmind::optimizer::prefetcher::PrefetchBuffer;
use syscallmind::syscall_ids::{
    SOL_ED25519_VERIFY, SOL_GET_CLOCK_SYSVAR, SOL_GET_SLOT_HASHES_SYSVAR, SOL_GET_STAKE_HISTORY_SYSVAR,
    SOL_SHA256,
};

fn p(id: u32, hash: u64) -> PendingSyscall {
    PendingSyscall { syscall_id: id, args_hash: hash, args: vec![], sequence_index: 0 }
}

fn make_cache() -> SysvarCache {
    let epoch = Arc::new(AtomicU64::new(1));
    let slot = Arc::new(AtomicU64::new(10));
    SysvarCache::new(128, epoch, slot)
}

fn result(data: Vec<u8>, epoch: u64, slot: u64) -> CachedResult {
    CachedResult { data, epoch, cached_at_slot: slot }
}

#[test]
fn batches_sysvar_reads() {
    let pending = vec![p(1, 100), p(1, 200), p(2, 300)];
    let batches = batch_sysvar_reads(&pending);
    assert_eq!(batches.len(), 2); // group per syscall_id
}

#[test]
fn deduplicates_identical_hashes() {
    let pending = vec![p(1, 100), p(1, 100), p(1, 100)];
    let batches = batch_sysvar_reads(&pending);
    assert_eq!(batches.len(), 1);
    assert_eq!(batches[0].args_hashes.len(), 1);
}

#[test]
fn non_batchable_syscalls_excluded() {
    let pending = vec![p(20, 0), p(30, 0), p(60, 0)]; // crypto, cpi, abort
    let batches = batch_sysvar_reads(&pending);
    assert!(batches.is_empty());
}

#[test]
fn can_batch_boundaries() {
    assert!(can_batch(1));
    assert!(can_batch(9));
    assert!(!can_batch(10));
    assert!(!can_batch(0));
}

#[test]
fn batcher_groups_by_syscall_id() {
    let pending = vec![
        PendingSyscall { syscall_id: 1, args_hash: 0, args: vec![], sequence_index: 0 },
        PendingSyscall { syscall_id: 1, args_hash: 1, args: vec![], sequence_index: 1 },
        PendingSyscall { syscall_id: 2, args_hash: 0, args: vec![], sequence_index: 2 },
    ];
    let batches = batch_sysvar_reads(&pending);
    assert_eq!(batches.len(), 2);
    let total_fetches: usize = batches.iter().map(|b| b.args_hashes.len()).sum();
    assert_eq!(total_fetches, 3);
}

#[test]
fn batches_are_sorted_and_keep_first_occurrence_order() {
    let pending = vec![p(3, 7), p(1, 5), p(20, 1), p(3, 2), p(1, 5), p(9, 4), p(3, 7)];
    let batches = batch_sysvar_reads(&pending);
    let ids: Vec<u32> = batches.iter().map(|b| b.syscall_ids[0]).collect();
    assert_eq!(ids, vec![1, 3, 9]);
    assert_eq!(batches[1].args_hashes, vec![7, 2]);
    assert_eq!(batches[1].syscall_ids, vec![3, 3]);
    assert_eq!(batches[0].args_hashes, vec![5]);
}

#[test]
fn miss_on_empty() {
    let table = DedupTable::new();
    assert!(table.check(zero_tx_id(), 1, 0).is_none());
}

#[test]
fn hit_after_record() {
    let mut table = DedupTable::new();
    let tx = zero_tx_id();
    table.record(tx, 20, 12345, vec![0xDE, 0xAD]);
    assert_eq!(table.check(tx, 20, 12345).unwrap(), &vec![0xDE, 0xAD]);
}

#[test]
fn dedup_count_increments() {
    let mut table = DedupTable::new();
    let tx = zero_tx_id();
    table.record(tx, 1, 0, vec![]);
    table.check_and_count(tx, 1, 0);
    table.check_and_count(tx, 1, 0);
    assert_eq!(table.dedup_count(), 2);
}

#[test]
fn clear_transaction_removes_entries() {
    let mut table = DedupTable::new();
    let tx = zero_tx_id();
    let mut tx2 = zero_tx_id();
    tx2[0] = 1;
    table.record(tx, 1, 0, vec![]);
    table.record(tx2, 2, 0, vec![]);
    table.clear_transaction(tx);
    assert!(table.check(tx, 1, 0).is_none());
    assert!(table.check(tx2, 2, 0).is_some());
}

#[test]
fn dedup_returns_cached_on_second_call() {
    let mut table = DedupTable::new();
    let tx = zero_tx_id();
    table.record(tx, SOL_SHA256, 100, vec![0xAB]);
    let result = table.check_and_count(tx, SOL_SHA256, 100);
    assert_eq!(result.unwrap(), vec![0xAB]);
    assert_eq!(table.dedup_count(), 1);
}

#[test]
fn dedup_record_overwrites_and_miss_does_not_count() {
    let mut table = DedupTable::new();
    let tx = zero_tx_id();
    table.record(tx, 5, 1, vec![1]);
    table.record(tx, 5, 1, vec![2]);
    assert_eq!(table.len(), 1);
    assert_eq!(table.check(tx, 5, 1).unwrap(), &vec![2]);
    assert!(table.check_and_count(tx, 5, 2).is_none());
    assert_eq!(table.dedup_count(), 0);
    let mut tx2 = zero_tx_id();
    tx2[31] = 3;
    assert!(table.check(tx2, 5, 1).is_none());
    table.record(tx2, 5, 1, vec![3]);
    table.record(tx2, 6, 1, vec![4]);
    assert_eq!(table.len(), 3);
    table.clear_transaction(tx2);
    assert_eq!(table.len(), 1);
    assert!(!table.is_empty());
    table.clear_transaction(tx);
    assert!(table.is_empty());
}

#[test]
fn basic_hit_miss() {
    let mut cache = make_cache();
    let key = CacheKey { syscall_id: SOL_SHA256, args_hash: 42 };
    assert!(cache.get(&key).is_none());
    cache.insert(key, result(vec![1, 2], 1, 10));
    assert!(cache.get(&key).is_some());
    let (hits, misses) = cache.stats();
    assert_eq!(hits, 1);
    assert_eq!(misses, 1);
}

#[test]
fn epoch_invalidation() {
    let epoch = Arc::new(AtomicU64::new(1));
    let slot = Arc::new(AtomicU64::new(10));
    let mut cache = SysvarCache::new(128, epoch.clone(), slot.clone());
    let key = CacheKey { syscall_id: SOL_GET_CLOCK_SYSVAR, args_hash: 1 };
    cache.insert(key, result(vec![0], 1, 10));
    assert!(cache.get(&key).is_some());
    epoch.store(2, Ordering::Relaxed);
    assert!(cache.get(&key).is_none());
}

#[test]
fn permanent_entry_survives_epoch_change() {
    let epoch = Arc::new(AtomicU64::new(1));
    let slot = Arc::new(AtomicU64::new(10));
    let mut cache = SysvarCache::new(128, epoch.clone(), slot.clone());
    let key = CacheKey { syscall_id: SOL_SHA256, args_hash: 99 };
    cache.insert(key, result(vec![0xAB], 1, 10));
    epoch.store(5, Ordering::Relaxed);
    assert!(cache.get(&key).is_some());
}

#[test]
fn cache_hit_rate_accuracy() {
    let epoch = Arc::new(AtomicU64::new(1));
    let slot = Arc::new(AtomicU64::new(5));
    let mut cache = SysvarCache::new(256, epoch, slot);
    let key = CacheKey { syscall_id: SOL_SHA256, args_hash: 1234 };
    cache.insert(key, result(vec![0], 1, 5));
    cache.get(&key); // hit
    cache.get(&CacheKey { syscall_id: SOL_SHA256, args_hash: 9999 }); // miss
    let (hits, misses) = cache.stats();
    let rate = hits as f64 / (hits + misses) as f64;
    assert!((rate - 0.5).abs() < 0.001);
}

#[test]
fn stale_entry_is_dropped_on_lookup() {
    let mut cache = make_cache();
    let key = CacheKey { syscall_id: SOL_GET_SLOT_HASHES_SYSVAR, args_hash: 3 };
    cache.insert(key, result(vec![1], 1, 9));
    assert_eq!(cache.len(), 1);
    assert!(cache.get_at(&key, 1, 10).is_none());
    assert_eq!(cache.len(), 0);
    assert_eq!(cache.stats(), (0, 1));
    // an unregistered ID is treated as epoch-bound on lookup
    let other = CacheKey { syscall_id: SOL_GET_STAKE_HISTORY_SYSVAR, args_hash: 0 };
    cache.insert(other, result(vec![2], 4, 0));
    assert_eq!(cache.get_at(&other, 4, 99).unwrap().data, vec![2]);
    assert!(cache.get_at(&other, 5, 99).is_none());
}

#[test]
fn full_cache_evicts_least_recently_used() {
    let epoch = Arc::new(AtomicU64::new(1));
    let slot = Arc::new(AtomicU64::new(1));
    let mut cache = SysvarCache::new(2, epoch, slot);
    let k1 = CacheKey { syscall_id: SOL_SHA256, args_hash: 1 };
    let k2 = CacheKey { syscall_id: SOL_SHA256, args_hash: 2 };
    let k3 = CacheKey { syscall_id: SOL_SHA256, args_hash: 3 };
    cache.insert(k1, result(vec![1], 1, 1));
    cache.insert(k2, result(vec![2], 1, 1));
    assert!(cache.get(&k1).is_some()); // k1 becomes most recently used
    cache.insert(k3, result(vec![3], 1, 1)); // evicts k2
    assert_eq!(cache.len(), 2);
    assert!(cache.get(&k2).is_none());
    assert_eq!(cache.get(&k1).unwrap().data, vec![1]);
    assert_eq!(cache.get(&k3).unwrap().data, vec![3]);
}

#[test]
fn zero_capacity_means_one_entry() {
    let mut cache = SysvarCache::new(0, Arc::new(AtomicU64::new(1)), Arc::new(AtomicU64::new(1)));
    assert!(cache.is_empty());
    cache.insert(CacheKey { syscall_id: SOL_SHA256, args_hash: 1 }, result(vec![], 1, 1));
    cache.insert(CacheKey { syscall_id: SOL_SHA256, args_hash: 2 }, result(vec![], 1, 1));
    assert_eq!(cache.len(), 1);
}

#[test]
fn invalidation_sweeps() {
    let epoch = Arc::new(AtomicU64::new(2));
    let slot = Arc::new(AtomicU64::new(20));
    let mut cache = SysvarCache::new(16, epoch, slot);
    let clock_old = CacheKey { syscall_id: SOL_GET_CLOCK_SYSVAR, args_hash: 1 };
    let clock_new = CacheKey { syscall_id: SOL_GET_CLOCK_SYSVAR, args_hash: 2 };
    let hashes_old = CacheKey { syscall_id: SOL_GET_SLOT_HASHES_SYSVAR, args_hash: 1 };
    let hashes_new = CacheKey { syscall_id: SOL_GET_SLOT_HASHES_SYSVAR, args_hash: 2 };
    let sha = CacheKey { syscall_id: SOL_SHA256, args_hash: 1 };
    let stake = CacheKey { syscall_id: SOL_GET_STAKE_HISTORY_SYSVAR, args_hash: 1 };
    cache.insert(clock_old, result(vec![], 1, 19));
    cache.insert(clock_new, result(vec![], 2, 19));
    cache.insert(hashes_old, result(vec![], 2, 19));
    cache.insert(hashes_new, result(vec![], 2, 20));
    cache.insert(sha, result(vec![], 0, 0));
    cache.insert(stake, result(vec![], 0, 0));
    cache.invalidate_slot();
    assert_eq!(cache.len(), 5);
    cache.invalidate_epoch();
    assert_eq!(cache.len(), 4);
    assert!(cache.get_at(&clock_old, 1, 19).is_none());
    assert!(cache.get_at(&clock_new, 2, 0).is_some());
    assert!(cache.get_at(&hashes_new, 0, 20).is_some());
    assert!(cache.get_at(&sha, 9, 9).is_some());
    assert!(cache.get_at(&stake, 0, 0).is_some());
    cache.invalidate_epoch_at(3);
    assert!(cache.get_at(&clock_new, 2, 0).is_none());
    cache.invalidate_slot_at(21);
    assert!(cache.get_at(&hashes_new, 0, 20).is_none());
}

#[test]
fn consume_hit() {
    let mut pf = PrefetchBuffer::new();
    pf.prefetch(SOL_SHA256, 0xDEADBEEF);
    let result = pf.consume(SOL_SHA256, 0xDEADBEEF);
    assert!(result.is_some());
    assert_eq!(result.unwrap().len(), 32); // SHA256 output is 32 bytes
    let (hits, _) = pf.stats();
    assert_eq!(hits, 1);
    assert_eq!(pf.buffer_len(), 0);
}

#[test]
fn prefetch_buffer_ignores_duplicates_and_unknown_keys() {
    let mut pf = PrefetchBuffer::new();
    pf.prefetch(SOL_GET_CLOCK_SYSVAR, 0xABC);
    pf.prefetch(SOL_GET_CLOCK_SYSVAR, 0xABC);
    pf.prefetch(SOL_ED25519_VERIFY, 1);
    pf.prefetch(99, 1);
    assert_eq!(pf.buffer_len(), 3);
    assert!(pf.consume(99, 0).is_none());
    assert_eq!(pf.stats(), (0, 0));
    assert_eq!(pf.consume(SOL_GET_CLOCK_SYSVAR, 0xABC).unwrap(), vec![0u8; 64]);
    assert_eq!(pf.consume(SOL_ED25519_VERIFY, 1).unwrap(), vec![1u8]);
    assert_eq!(pf.consume(99, 1).unwrap(), Vec::<u8>::new());
    assert_eq!(pf.stats(), (3, 0));
}

#[test]
fn consumed_prefetch_is_served_once() {
    let mut pf = PrefetchBuffer::new();
    pf.prefetch(SOL_GET_CLOCK_SYSVAR, 7);
    assert_eq!(pf.consume(SOL_GET_CLOCK_SYSVAR, 7), Some(vec![0u8; 64]));
    assert_eq!(pf.consume(SOL_GET_CLOCK_SYSVAR, 7), None);
    assert_eq!(pf.stats(), (1, 0));
    assert_eq!(pf.buffer_len(), 0);
}

#[test]
fn consume_miss_when_not_prefetched() {
    let mut pf = PrefetchBuffer::new();
    let result = pf.consume(99, 0);
    assert!(result.is_none());
}

#[test]
fn duplicate_key_not_inserted_twice() {
    let mut pf = PrefetchBuffer::new();
    pf.prefetch(SOL_GET_CLOCK_SYSVAR, 0xABC);
    pf.prefetch(SOL_GET_CLOCK_SYSVAR, 0xABC);
    assert_eq!(pf.buffer_len(), 1);
}
