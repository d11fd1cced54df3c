//! Properties that span several components of the library.

use vstd::prelude::*;
use crate::common::{SafetyClass, TransactionId};
use crate::optimizer::cache::{
    effective_policy, lookup_outcome, lru_after_put, lru_lookup, registered_policy, still_valid,
    CachedResult, InvalidationPolicy, LruEntry,
};
use crate::common::CacheKey;
use crate::optimizer::dedup::DedupKey;
use crate::pipeline::window_builder::ingested;
use crate::common::SyscallTraceEvent;
use crate::runtime::syscall_registry::{registry_class, registry_safety};
use crate::common::SyscallClass;
use crate::safety::classifier::{spec_can_reorder, spec_classify, spec_eligible};
use crate::safety::dependency_checker::{all_read_only, has_dep_edge, lemma_read_only_has_no_edges};
use crate::optimizer::prefetcher::{simulated_result, PrefetchKey};
use crate::common::spec_fnv_hash;
use crate::anomaly::{crypto_calls, is_crypto};

verus! {

/// The registry that answers the interception path and the classifier that gates the
/// optimizations agree, for every syscall ID, on whether it may be optimized.
pub proof fn lemma_registry_agrees_with_classifier(id: u32)
    ensures
        registry_safety(id).spec_eligible() == spec_eligible(id),
{
}

/// Syscalls that may be reordered may also be optimized in every other way.
pub proof fn lemma_reorderable_are_eligible(a: u32, b: u32)
    ensures
        spec_can_reorder(a, b) ==> spec_eligible(a) && spec_eligible(b),
        spec_can_reorder(a, b) == spec_can_reorder(b, a),
{
}

/// A sequence may be reordered exactly when all of its syscalls are `ReadOnly`: such a
/// sequence never has a dependency, and then every syscall in it is eligible for batching.
pub proof fn lemma_reorder_safe_iff_read_only(seq: Seq<SyscallTraceEvent>)
    ensures
        (!has_dep_edge(seq) && all_read_only(seq)) == all_read_only(seq),
        all_read_only(seq) ==> forall|k: int| 0 <= k < seq.len() ==> spec_eligible(#[trigger] seq[k].syscall_id),
{
    if all_read_only(seq) {
        lemma_read_only_has_no_edges(seq);
        assert forall|k: int| 0 <= k < seq.len() implies spec_eligible(#[trigger] seq[k].syscall_id) by {
            assert(spec_classify(seq[k].syscall_id) == SafetyClass::ReadOnly);
        }
    }
}

/// No optimization is ever applied to a `StateChanging` or `OrderSensitive` syscall: the
/// gate refuses to cache (when determinism is enforced) or deduplicate it, refuses every
/// batch that holds it, and no sequence that holds it may be reordered.
pub proof fn lemma_gate_refuses_mutating(id: u32, batch: Seq<u32>, sequence: Seq<SyscallTraceEvent>, other: u32)
    requires
        spec_classify(id) == SafetyClass::StateChanging || spec_classify(id) == SafetyClass::OrderSensitive,
    ensures
        !spec_eligible(id),
        batch.contains(id) ==> !(forall|k: int| 0 <= k < batch.len() ==> spec_eligible(#[trigger] batch[k])),
        (exists|k: int| 0 <= k < sequence.len() && #[trigger] sequence[k].syscall_id == id) ==> !all_read_only(sequence),
        !spec_can_reorder(id, other) && !spec_can_reorder(other, id),
{
    if batch.contains(id) {
        let k = choose|k: int| 0 <= k < batch.len() && batch[k] == id;
        assert(!spec_eligible(batch[k]));
    }
    if exists|k: int| 0 <= k < sequence.len() && #[trigger] sequence[k].syscall_id == id {
        let k = choose|k: int| 0 <= k < sequence.len() && #[trigger] sequence[k].syscall_id == id;
        assert(spec_classify(sequence[k].syscall_id) != SafetyClass::ReadOnly);
    }
}

/// A prefetched call is served once: consuming it right after it was prefetched returns
/// the fetched result as ready (a hit) and leaves the buffer as it was before, and a
/// second consume finds nothing.
pub proof fn lemma_prefetch_then_consume(buffer: Map<PrefetchKey, (Seq<u8>, bool)>, syscall_id: u32, args_hash: u64)
    requires
        !buffer.contains_key((syscall_id, args_hash)),
    ensures
        ({
            let k = (syscall_id, args_hash);
            let after = buffer.insert(k, (simulated_result(syscall_id), true));
            &&& after.get(k) == Some((simulated_result(syscall_id), true))
            &&& after.remove(k) == buffer
            &&& after.remove(k).get(k) is None
        }),
{
    let k = (syscall_id, args_hash);
    assert(buffer.insert(k, (simulated_result(syscall_id), true)).remove(k) =~= buffer);
}

/// Deduplication is scoped to its transaction: a result recorded for a call is what a
/// later check of that call sees, and clearing a transaction removes every entry of that
/// transaction and leaves the entries of all other transactions as they were.
pub proof fn lemma_dedup_scoped_to_transaction(m: Map<DedupKey, Seq<u8>>, key: DedupKey, result: Seq<u8>, tx: TransactionId)
    ensures
        m.insert(key, result).contains_key(key) && m.insert(key, result)[key] == result,
        ({
            let cleared = m.restrict(m.dom().filter(|k: DedupKey| k.0 != tx));
            &&& forall|k: DedupKey| k.0 == tx ==> !(#[trigger] cleared.contains_key(k))
            &&& forall|k: DedupKey| k.0 != tx ==> (#[trigger] cleared.contains_key(k) == m.contains_key(k))
                && (m.contains_key(k) ==> cleared[k] == m[k])
        }),
{
}

/// A result put into the cache is what a lookup of its key finds next.
pub proof fn lemma_cache_put_then_lookup(s: Seq<LruEntry>, cap: nat, k: (u32, u64), v: CachedResult)
    ensures
        lru_lookup(lru_after_put(s, cap, k, v), k) == Some(v),
{
    let t = lru_after_put(s, cap, k, v);
    assert(t[0] == (k, v));
}

/// The cache serves a result only while its invalidation policy allows: a hit returns the
/// stored result, and an epoch-bound result only in the epoch it was cached in, a
/// slot-bound one only in its slot.
pub proof fn lemma_cache_hit_only_when_valid(
    before: Seq<LruEntry>, hits0: u64, misses0: u64, key: CacheKey, epoch: u64, slot: u64,
    r: Option<CachedResult>, after: Seq<LruEntry>, hits1: u64, misses1: u64,
)
    requires
        lookup_outcome(before, hits0, misses0, key, epoch, slot, r, after, hits1, misses1),
        r is Some,
    ensures
        lru_lookup(before, (key.syscall_id, key.args_hash)) == r,
        still_valid(effective_policy(key.syscall_id), r.unwrap(), epoch, slot),
        effective_policy(key.syscall_id) == InvalidationPolicy::EpochBound ==> r.unwrap().epoch == epoch,
        effective_policy(key.syscall_id) == InvalidationPolicy::Slot ==> r.unwrap().cached_at_slot == slot,
{
}

/// Results of deterministic (permanently cached) syscalls are served whatever the epoch
/// and slot.
pub proof fn lemma_cache_permanent_always_hits(
    before: Seq<LruEntry>, hits0: u64, misses0: u64, key: CacheKey, epoch: u64, slot: u64,
    r: Option<CachedResult>, after: Seq<LruEntry>, hits1: u64, misses1: u64,
)
    requires
        registered_policy(key.syscall_id) == Some(InvalidationPolicy::Permanent),
        lru_lookup(before, (key.syscall_id, key.args_hash)) is Some,
        lookup_outcome(before, hits0, misses0, key, epoch, slot, r, after, hits1, misses1),
    ensures
        r == lru_lookup(before, (key.syscall_id, key.args_hash)),
{
}

/// A result inserted into the cache is served by a lookup at the epoch and slot it was
/// cached at.
pub proof fn lemma_cache_insert_then_get(
    s: Seq<LruEntry>, cap: nat, key: CacheKey, v: CachedResult, hits0: u64, misses0: u64,
    r: Option<CachedResult>, after: Seq<LruEntry>, hits1: u64, misses1: u64,
)
    requires
        lookup_outcome(lru_after_put(s, cap, (key.syscall_id, key.args_hash), v), hits0, misses0, key,
            v.epoch, v.cached_at_slot, r, after, hits1, misses1),
    ensures
        r == Some(v),
{
    lemma_cache_put_then_lookup(s, cap, (key.syscall_id, key.args_hash), v);
}

/// A window never grows past its size limit.
pub proof fn lemma_window_size_bounded(prior: Option<Seq<SyscallTraceEvent>>, e: SyscallTraceEvent, max: nat)
    requires
        prior matches Some(s) ==> s.len() <= max,
    ensures
        ingested(prior, e, max).len() <= max,
{
}

/// The safety classes, by syscall number: the sysvar reads (1-6) and `sol_get_return_data`
/// (41) alone are `ReadOnly`; logging (10-13), hashing and signature checks (20-23) and the
/// memory operations (50-54) are `Idempotent`; CPI (30) is `OrderSensitive`; everything
/// else, known or not, is `StateChanging`. So exactly the read-only ones may be reordered.
pub proof fn lemma_classification_by_number(id: u32, other: u32)
    ensures
        (spec_classify(id) == SafetyClass::ReadOnly) <==> (1 <= id <= 6 || id == 41),
        (spec_classify(id) == SafetyClass::Idempotent) <==> (10 <= id <= 13 || 20 <= id <= 23 || 50 <= id <= 54),
        (spec_classify(id) == SafetyClass::OrderSensitive) <==> id == 30,
        (spec_classify(id) == SafetyClass::StateChanging) <==> !(1 <= id <= 6 || id == 41 || 10 <= id <= 13
            || 20 <= id <= 23 || 50 <= id <= 54 || id == 30),
        spec_can_reorder(id, other) <==> ((1 <= id <= 6 || id == 41) && (1 <= other <= 6 || other == 41)),
{
}

/// FNV-1a over every byte: the empty input hashes to the offset basis, and appending a
/// byte xors it into the hash and multiplies by the FNV prime modulo 2^64, whatever the
/// input's length.
pub proof fn lemma_fnv_hash_steps(data: Seq<u8>, byte: u8)
    ensures
        spec_fnv_hash(Seq::empty()) == 14695981039346656037u64,
        spec_fnv_hash(data.push(byte)) as int
            == ((spec_fnv_hash(data) ^ (byte as u64)) as int * 1099511628211int) % 0x1_0000_0000_0000_0000int,
{
    assert(data.push(byte).drop_last() =~= data);
}

/// The cryptographic syscalls are exactly sha256, keccak256, secp256k1_recover and
/// ed25519_verify (20-23), and a window's crypto count counts one per such call.
pub proof fn lemma_crypto_counting(events: Seq<SyscallTraceEvent>, e: SyscallTraceEvent)
    ensures
        is_crypto(e.syscall_id) <==> (20 <= e.syscall_id <= 23),
        crypto_calls(Seq::empty()) == 0,
        crypto_calls(events.push(e)) == crypto_calls(events) + if 20 <= e.syscall_id <= 23 { 1int } else { 0int },
{
    assert(events.push(e).drop_last() =~= events);
}

/// What a prefetch stores, by syscall number: 64 zero bytes for the clock, rent and
/// epoch-schedule sysvars (1-3) and for a recovered secp256k1 key (22); a 32-byte zero
/// digest for sha256 and keccak256 (20, 21); the single byte 1 for an ed25519 verdict (23);
/// nothing for any other call.
pub proof fn lemma_prefetched_result_shape(id: u32)
    ensures
        (1 <= id <= 3 || id == 22) ==> simulated_result(id).len() == 64,
        (id == 20 || id == 21) ==> simulated_result(id).len() == 32,
        id == 23 ==> simulated_result(id) == seq![1u8],
        !(1 <= id <= 3 || 20 <= id <= 23) ==> simulated_result(id).len() == 0,
        id != 23 ==> forall|i: int| 0 <= i < simulated_result(id).len() ==> #[trigger] simulated_result(id)[i] == 0u8,
{
}

/// Cache invalidation by syscall number: the clock, rent, epoch-schedule and fees sysvars
/// (1-4) are cached for their epoch, slot hashes (5) for their slot, and the four crypto
/// calls (20-23) permanently; any other call is cached for its epoch.
pub proof fn lemma_cache_policy_by_number(id: u32)
    ensures
        (registered_policy(id) == Some(InvalidationPolicy::EpochBound)) <==> (1 <= id <= 4),
        (registered_policy(id) == Some(InvalidationPolicy::Slot)) <==> id == 5,
        (registered_policy(id) == Some(InvalidationPolicy::Permanent)) <==> (20 <= id <= 23),
        effective_policy(id) == (if id == 5 {
            InvalidationPolicy::Slot
        } else if 20 <= id <= 23 {
            InvalidationPolicy::Permanent
        } else {
            InvalidationPolicy::EpochBound
        }),
{
}

/// The registry by syscall number: the sysvar reads (1-6) are `SysvarRead` and
/// `ReadOnly`, the crypto calls (20-23) `Crypto` and `Idempotent`, CPI (30) is
/// `OrderSensitive`, set-return-data (40), panic (60) and abort (61) are `StateChanging`,
/// and unknown numbers are `Unknown` and `StateChanging`.
pub proof fn lemma_registry_by_number(id: u32)
    ensures
        1 <= id <= 6 ==> registry_class(id) == SyscallClass::SysvarRead && registry_safety(id) == SafetyClass::ReadOnly,
        20 <= id <= 23 ==> registry_class(id) == SyscallClass::Crypto && registry_safety(id) == SafetyClass::Idempotent,
        id == 30 ==> registry_safety(id) == SafetyClass::OrderSensitive,
        (id == 40 || id == 60 || id == 61) ==> registry_safety(id) == SafetyClass::StateChanging,
        !(1 <= id <= 6 || 10 <= id <= 13 || 20 <= id <= 23 || id == 30 || id == 40 || id == 41
            || 50 <= id <= 54 || id == 60 || id == 61)
            ==> registry_class(id) == SyscallClass::Unknown && registry_safety(id) == SafetyClass::StateChanging,
{
}

} // verus!
