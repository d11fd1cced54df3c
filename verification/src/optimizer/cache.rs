//! Epoch-aware LRU cache of syscall results, backed by the `lru` crate.

use std::collections::HashMap;
use std::num::NonZeroUsize;
use std::sync::atomic::AtomicU64;
use std::sync::atomic::Ordering;
use std::sync::Arc;
use lru::LruCache;
use vstd::prelude::*;
use crate::common::{ArgsHash, CacheKey, SyscallId};
use crate::syscall_ids::{
    SOL_ED25519_VERIFY, SOL_GET_CLOCK_SYSVAR, SOL_GET_EPOCH_SCHEDULE_SYSVAR, SOL_GET_FEES_SYSVAR,
    SOL_GET_RENT_SYSVAR, SOL_GET_SLOT_HASHES_SYSVAR, SOL_KECCAK256, SOL_SECP256K1_RECOVER, SOL_SHA256,
};

verus! {

broadcast use vstd::std_specs::hash::group_hash_axioms;

#[derive(Debug, Clone)]
pub struct CachedResult {
    pub data: Vec<u8>,
    pub epoch: u64,
    pub cached_at_slot: u64,
}

#[derive(Debug, Clone, Copy, PartialEq, Eq, Structural)]
pub enum InvalidationPolicy {
    /// Invalidate when the epoch advances.
    EpochBound,
    /// Deterministic result — never auto-invalidate.
    Permanent,
    /// Invalidate on every new slot.
    Slot,
}

/// Key under which a result is cached.
pub type LruKey = (SyscallId, ArgsHash);

/// One cached entry: its key and its result.
pub type LruEntry = (LruKey, CachedResult);

#[verifier::external_type_specification]
#[verifier::external_body]
#[verifier::reject_recursive_types(K)]
#[verifier::reject_recursive_types(V)]
#[verifier::reject_recursive_types(S)]
pub struct ExLruCache<K, V, S>(LruCache<K, V, S>);

#[verifier::external_type_specification]
#[verifier::external_body]
pub struct ExLruDefaultHasher(lru::DefaultHasher);

/// The entries of an LRU cache, most recently used first.
pub uninterp spec fn lru_entries(cache: LruCache<LruKey, CachedResult>) -> Seq<LruEntry>;

/// The capacity an LRU cache was made with.
pub uninterp spec fn lru_capacity(cache: LruCache<LruKey, CachedResult>) -> nat;

/// The entries of `s` that satisfy `keep`, in their order.
pub open spec fn retain_entries(s: Seq<LruEntry>, keep: spec_fn(LruEntry) -> bool) -> Seq<LruEntry>
    decreases s.len(),
{
    if s.len() == 0 {
        Seq::empty()
    } else if keep(s.last()) {
        retain_entries(s.drop_last(), keep).push(s.last())
    } else {
        retain_entries(s.drop_last(), keep)
    }
}

/// `s` with every entry for key `k` removed.
pub open spec fn without_key(s: Seq<LruEntry>, k: LruKey) -> Seq<LruEntry> {
    retain_entries(s, key_is_not(k))
}

pub open spec fn key_is_not(k: LruKey) -> spec_fn(LruEntry) -> bool {
    |e: LruEntry| e.0 != k
}

pub open spec fn key_not_in(ks: Seq<LruKey>) -> spec_fn(LruEntry) -> bool {
    |e: LruEntry| !ks.contains(e.0)
}

pub open spec fn both(f: spec_fn(LruEntry) -> bool, g: spec_fn(LruEntry) -> bool) -> spec_fn(LruEntry) -> bool {
    |e: LruEntry| f(e) && g(e)
}

/// The result stored under `k`, searching from the most recently used end.
pub open spec fn lru_lookup(s: Seq<LruEntry>, k: LruKey) -> Option<CachedResult>
    decreases s.len(),
{
    if s.len() == 0 {
        None
    } else if s[0].0 == k {
        Some(s[0].1)
    } else {
        lru_lookup(s.drop_first(), k)
    }
}

/// No key occurs twice.
pub open spec fn keys_unique(s: Seq<LruEntry>) -> bool {
    forall|i: int, j: int| 0 <= i < j < s.len() ==> #[trigger] s[i].0 != #[trigger] s[j].0
}

/// Entries after `put(k, v)`: an existing `k` is replaced and moved to the front;
/// otherwise, when full, the least recently used entry is evicted first.
pub open spec fn lru_after_put(s: Seq<LruEntry>, cap: nat, k: LruKey, v: CachedResult) -> Seq<LruEntry> {
    if lru_lookup(s, k) is Some {
        seq![(k, v)] + without_key(s, k)
    } else if s.len() >= cap {
        seq![(k, v)] + s.drop_last()
    } else {
        seq![(k, v)] + s
    }
}

/// Entries after `get(k)`: a present `k` moves to the front.
pub open spec fn lru_after_get(s: Seq<LruEntry>, k: LruKey) -> Seq<LruEntry> {
    match lru_lookup(s, k) {
        Some(v) => seq![(k, v)] + without_key(s, k),
        None => s,
    }
}

/// Calls `LruCache::new` with a capacity of `cap`; the cache starts empty.
#[verifier::external_body]
fn lru_new(cap: usize) -> (c: LruCache<LruKey, CachedResult>)
    requires
        cap >= 1,
    ensures
        lru_entries(c) == Seq::<LruEntry>::empty(),
        lru_capacity(c) == cap,
{
    LruCache::new(NonZeroUsize::new(cap).unwrap())
}

/// Calls `LruCache::put`: the entry goes to the front; an existing entry for the key is
/// replaced, otherwise a full cache evicts its least recently used entry.
#[verifier::external_body]
fn lru_put(c: &mut LruCache<LruKey, CachedResult>, k: LruKey, v: CachedResult)
    ensures
        lru_capacity(*final(c)) == lru_capacity(*old(c)),
        lru_entries(*final(c)) == lru_after_put(lru_entries(*old(c)), lru_capacity(*old(c)), k, v),
        keys_unique(lru_entries(*final(c))),
{
    c.put(k, v);
}

/// Calls `LruCache::peek`: the stored result, with no change of recency.
#[verifier::external_body]
fn lru_peek<'a>(c: &'a LruCache<LruKey, CachedResult>, k: &LruKey) -> (r: Option<&'a CachedResult>)
    ensures
        r == match lru_lookup(lru_entries(*c), *k) {
            Some(v) => Some(&v),
            None => None::<&CachedResult>,
        },
{
    c.peek(k)
}

/// Calls `LruCache::get`: the stored result; a present key becomes the most recently used.
#[verifier::external_body]
fn lru_get<'a>(c: &'a mut LruCache<LruKey, CachedResult>, k: &LruKey) -> (r: Option<&'a CachedResult>)
    ensures
        lru_capacity(*final(c)) == lru_capacity(*old(c)),
        lru_entries(*final(c)) == lru_after_get(lru_entries(*old(c)), *k),
        keys_unique(lru_entries(*final(c))),
        r == match lru_lookup(lru_entries(*old(c)), *k) {
            Some(v) => Some(&v),
            None => None::<&CachedResult>,
        },
{
    c.get(k)
}

/// Calls `LruCache::pop`: removes the key's entry; the others keep their order.
#[verifier::external_body]
fn lru_pop(c: &mut LruCache<LruKey, CachedResult>, k: &LruKey) -> (r: Option<CachedResult>)
    ensures
        lru_capacity(*final(c)) == lru_capacity(*old(c)),
        lru_entries(*final(c)) == without_key(lru_entries(*old(c)), *k),
        keys_unique(lru_entries(*final(c))),
        r == lru_lookup(lru_entries(*old(c)), *k),
{
    c.pop(k)
}

/// Walks `LruCache::iter` (most recently used first), keeping of each entry its key,
/// epoch and slot.
#[verifier::external_body]
fn lru_entry_stamps(c: &LruCache<LruKey, CachedResult>) -> (r: Vec<(SyscallId, ArgsHash, u64, u64)>)
    ensures
        r@ == lru_entries(*c).map_values(|e: LruEntry| (e.0.0, e.0.1, e.1.epoch, e.1.cached_at_slot)),
{
    c.iter().map(|(k, v)| (k.0, k.1, v.epoch, v.cached_at_slot)).collect()
}

/// Calls `LruCache::len`: the number of entries.
#[verifier::external_body]
fn lru_len(c: &LruCache<LruKey, CachedResult>) -> (n: usize)
    ensures
        n == lru_entries(*c).len(),
{
    c.len()
}

/// Calls `LruCache::is_empty`.
#[verifier::external_body]
fn lru_is_empty(c: &LruCache<LruKey, CachedResult>) -> (b: bool)
    ensures
        b == (lru_entries(*c).len() == 0),
{
    c.is_empty()
}

/// The invalidation policy registered for `id`, if any.
pub open spec fn registered_policy(id: u32) -> Option<InvalidationPolicy> {
    if id == SOL_GET_CLOCK_SYSVAR || id == SOL_GET_RENT_SYSVAR || id == SOL_GET_EPOCH_SCHEDULE_SYSVAR
        || id == SOL_GET_FEES_SYSVAR {
        Some(InvalidationPolicy::EpochBound)
    } else if id == SOL_GET_SLOT_HASHES_SYSVAR {
        Some(InvalidationPolicy::Slot)
    } else if id == SOL_SHA256 || id == SOL_KECCAK256 || id == SOL_SECP256K1_RECOVER
        || id == SOL_ED25519_VERIFY {
        Some(InvalidationPolicy::Permanent)
    } else {
        None
    }
}

/// The policy lookups go by: the registered one, `EpochBound` when none is registered.
pub open spec fn effective_policy(id: u32) -> InvalidationPolicy {
    match registered_policy(id) {
        Some(p) => p,
        None => InvalidationPolicy::EpochBound,
    }
}

/// Whether a cached result may still be served at the given epoch and slot.
pub open spec fn still_valid(policy: InvalidationPolicy, r: CachedResult, epoch: u64, slot: u64) -> bool {
    match policy {
        InvalidationPolicy::Permanent => true,
        InvalidationPolicy::EpochBound => r.epoch == epoch,
        InvalidationPolicy::Slot => r.cached_at_slot == slot,
    }
}

/// Whether an entry is stale for a slot-bound sweep at `slot`.
pub open spec fn stale_for_slot(e: LruEntry, slot: u64) -> bool {
    registered_policy(e.0.0) == Some(InvalidationPolicy::Slot) && e.1.cached_at_slot != slot
}

/// Whether an entry is stale for an epoch-bound sweep at `epoch`.
pub open spec fn stale_for_epoch(e: LruEntry, epoch: u64) -> bool {
    registered_policy(e.0.0) == Some(InvalidationPolicy::EpochBound) && e.1.epoch != epoch
}

/// The observable effect of a lookup of `key` at (`epoch`, `slot`): the returned result,
/// the entries after, and the hit and miss counters after (each counter wraps).
pub open spec fn lookup_outcome(
    before: Seq<LruEntry>,
    hits0: u64,
    misses0: u64,
    key: CacheKey,
    epoch: u64,
    slot: u64,
    r: Option<CachedResult>,
    after: Seq<LruEntry>,
    hits1: u64,
    misses1: u64,
) -> bool {
    let k = (key.syscall_id, key.args_hash);
    match lru_lookup(before, k) {
        Some(v) => if still_valid(effective_policy(key.syscall_id), v, epoch, slot) {
            &&& r == Some(v)
            &&& after == lru_after_get(before, k)
            &&& hits1 == (hits0 + 1) % 0x1_0000_0000_0000_0000
            &&& misses1 == misses0
        } else {
            &&& r is None
            &&& after == without_key(before, k)
            &&& hits1 == hits0
            &&& misses1 == (misses0 + 1) % 0x1_0000_0000_0000_0000
        },
        None => {
            &&& r is None
            &&& after == before
            &&& hits1 == hits0
            &&& misses1 == (misses0 + 1) % 0x1_0000_0000_0000_0000
        },
    }
}

pub open spec fn deref_result(r: Option<&CachedResult>) -> Option<CachedResult> {
    match r {
        Some(x) => Some(*x),
        None => None,
    }
}

/// Entries left after a slot sweep at `slot`.
pub open spec fn swept_for_slot(s: Seq<LruEntry>, slot: u64) -> Seq<LruEntry> {
    retain_entries(s, |e: LruEntry| !stale_for_slot(e, slot))
}

/// Entries left after an epoch sweep at `epoch`.
pub open spec fn swept_for_epoch(s: Seq<LruEntry>, epoch: u64) -> Seq<LruEntry> {
    retain_entries(s, |e: LruEntry| !stale_for_epoch(e, epoch))
}

pub proof fn lemma_retain_compose(s: Seq<LruEntry>, f: spec_fn(LruEntry) -> bool, g: spec_fn(LruEntry) -> bool)
    ensures
        retain_entries(retain_entries(s, f), g) == retain_entries(s, both(f, g)),
    decreases s.len(),
{
    if s.len() > 0 {
        lemma_retain_compose(s.drop_last(), f, g);
        if f(s.last()) {
            let r = retain_entries(s.drop_last(), f).push(s.last());
            assert(r.drop_last() =~= retain_entries(s.drop_last(), f));
        }
    }
}

pub proof fn lemma_retain_ext(s: Seq<LruEntry>, f: spec_fn(LruEntry) -> bool, g: spec_fn(LruEntry) -> bool)
    requires
        forall|i: int| 0 <= i < s.len() ==> f(#[trigger] s[i]) == g(s[i]),
    ensures
        retain_entries(s, f) == retain_entries(s, g),
    decreases s.len(),
{
    if s.len() > 0 {
        assert forall|i: int| 0 <= i < s.drop_last().len() implies f(#[trigger] s.drop_last()[i]) == g(s.drop_last()[i]) by {
            assert(s.drop_last()[i] == s[i]);
        }
        lemma_retain_ext(s.drop_last(), f, g);
        assert(f(s[s.len() - 1]) == g(s[s.len() - 1]));
    }
}

pub proof fn lemma_retain_all(s: Seq<LruEntry>)
    ensures
        retain_entries(s, key_not_in(Seq::empty())) == s,
    decreases s.len(),
{
    if s.len() > 0 {
        lemma_retain_all(s.drop_last());
        assert(retain_entries(s.drop_last(), key_not_in(Seq::empty())).push(s.last()) =~= s);
    }
}

pub struct SysvarCache {
    inner: LruCache<LruKey, CachedResult>,
    current_epoch: Arc<AtomicU64>,
    current_slot: Arc<AtomicU64>,
    invalidation_map: HashMap<SyscallId, InvalidationPolicy>,
    hits: u64,
    misses: u64,
}

fn load_relaxed(a: &Arc<AtomicU64>) -> u64 {
    a.load(Ordering::Relaxed)
}

impl SysvarCache {
    /// Internal consistency: the policy table is the registered one and keys are unique.
    pub closed spec fn wf(&self) -> bool {
        &&& forall|id: u32| #[trigger] self.invalidation_map@.contains_key(id) == (registered_policy(id) is Some)
        &&& forall|id: u32| self.invalidation_map@.contains_key(id) ==> Some(#[trigger] self.invalidation_map@[id]) == registered_policy(id)
        &&& keys_unique(lru_entries(self.inner))
    }

    /// Cached entries, most recently used first.
    pub closed spec fn view(&self) -> Seq<LruEntry> {
        lru_entries(self.inner)
    }

    pub closed spec fn capacity(&self) -> nat {
        lru_capacity(self.inner)
    }

    pub closed spec fn spec_hits(&self) -> u64 {
        self.hits
    }

    pub closed spec fn spec_misses(&self) -> u64 {
        self.misses
    }

    /// A cache of at least one entry (`capacity` 0 counts as 1) that reads the epoch and
    /// slot from the shared counters.
    pub fn new(capacity: usize, epoch: Arc<AtomicU64>, slot: Arc<AtomicU64>) -> (c: Self)
        ensures
            c.wf(),
            c@ == Seq::<LruEntry>::empty(),
            c.capacity() == if capacity == 0 { 1 } else { capacity as nat },
            c.spec_hits() == 0,
            c.spec_misses() == 0,
    {
        let cap = if capacity == 0 { 1 } else { capacity };
        let mut invalidation_map: HashMap<SyscallId, InvalidationPolicy> = HashMap::new();
        invalidation_map.insert(SOL_GET_CLOCK_SYSVAR, InvalidationPolicy::EpochBound);
        invalidation_map.insert(SOL_GET_RENT_SYSVAR, InvalidationPolicy::EpochBound);
        invalidation_map.insert(SOL_GET_EPOCH_SCHEDULE_SYSVAR, InvalidationPolicy::EpochBound);
        invalidation_map.insert(SOL_GET_FEES_SYSVAR, InvalidationPolicy::EpochBound);
        invalidation_map.insert(SOL_GET_SLOT_HASHES_SYSVAR, InvalidationPolicy::Slot);
        invalidation_map.insert(SOL_SHA256, InvalidationPolicy::Permanent);
        invalidation_map.insert(SOL_KECCAK256, InvalidationPolicy::Permanent);
        invalidation_map.insert(SOL_SECP256K1_RECOVER, InvalidationPolicy::Permanent);
        invalidation_map.insert(SOL_ED25519_VERIFY, InvalidationPolicy::Permanent);
        let c = SysvarCache {
            inner: lru_new(cap),
            current_epoch: epoch,
            current_slot: slot,
            invalidation_map,
            hits: 0,
            misses: 0,
        };
        c
    }

    fn policy_of(&self, id: SyscallId) -> (p: InvalidationPolicy)
        requires
            self.wf(),
        ensures
            p == effective_policy(id),
    {
        match self.invalidation_map.get(&id) {
            Some(p) => *p,
            None => InvalidationPolicy::EpochBound,
        }
    }

    fn registered(&self, id: SyscallId) -> (p: Option<InvalidationPolicy>)
        requires
            self.wf(),
        ensures
            p == registered_policy(id),
    {
        match self.invalidation_map.get(&id) {
            Some(p) => Some(*p),
            None => None,
        }
    }

    pub fn insert(&mut self, key: CacheKey, result: CachedResult)
        requires
            old(self).wf(),
        ensures
            final(self).wf(),
            final(self).capacity() == old(self).capacity(),
            final(self)@ == lru_after_put(old(self)@, old(self).capacity(), (key.syscall_id, key.args_hash), result),
            final(self).spec_hits() == old(self).spec_hits(),
            final(self).spec_misses() == old(self).spec_misses(),
    {
        lru_put(&mut self.inner, (key.syscall_id, key.args_hash), result);
    }

    /// Look up `key` as of the given epoch and slot. A result is served only while its
    /// policy allows (`Permanent` always, `EpochBound` in its epoch, `Slot` in its slot)
    /// and then becomes the most recently used; a stale result is dropped. Hits and
    /// misses are counted (wrapping).
    pub fn get_at(&mut self, key: &CacheKey, current_epoch: u64, current_slot: u64) -> (r: Option<&CachedResult>)
        requires
            old(self).wf(),
        ensures
            final(self).wf(),
            final(self).capacity() == old(self).capacity(),
            lookup_outcome(old(self)@, old(self).spec_hits(), old(self).spec_misses(), *key,
                current_epoch, current_slot, deref_result(r), final(self)@, final(self).spec_hits(),
                final(self).spec_misses()),
    {
        let policy = self.policy_of(key.syscall_id);
        let k = (key.syscall_id, key.args_hash);
        let verdict = match lru_peek(&self.inner, &k) {
            Some(entry) => Some(match policy {
                InvalidationPolicy::Permanent => true,
                InvalidationPolicy::EpochBound => entry.epoch == current_epoch,
                InvalidationPolicy::Slot => entry.cached_at_slot == current_slot,
            }),
            None => None,
        };
        match verdict {
            Some(true) => {
                self.hits = self.hits.wrapping_add(1);
                return lru_get(&mut self.inner, &k);
            },
            Some(false) => {
                lru_pop(&mut self.inner, &k);
            },
            None => {},
        }
        self.misses = self.misses.wrapping_add(1);
        None
    }

    /// Look up `key` at the epoch and slot the shared counters hold at the time of the
    /// call (see `get_at`).
    pub fn get(&mut self, key: &CacheKey) -> (r: Option<&CachedResult>)
        requires
            old(self).wf(),
        ensures
            final(self).wf(),
            final(self).capacity() == old(self).capacity(),
            exists|epoch: u64, slot: u64| #[trigger] lookup_outcome(old(self)@, old(self).spec_hits(),
                old(self).spec_misses(), *key, epoch, slot, deref_result(r), final(self)@,
                final(self).spec_hits(), final(self).spec_misses()),
    {
        let epoch = load_relaxed(&self.current_epoch);
        let slot = load_relaxed(&self.current_slot);
        self.get_at(key, epoch, slot)
    }

    /// Removes the entries that `stale` marks, as listed by `stamps` (a snapshot of the
    /// current entries), keeping the others in order.
    fn remove_listed(&mut self, doomed: &Vec<LruKey>, Ghost(keep): Ghost<spec_fn(LruEntry) -> bool>)
        requires
            old(self).wf(),
            forall|i: int| 0 <= i < old(self)@.len() ==> (doomed@.contains(#[trigger] old(self)@[i].0) <==> !keep(old(self)@[i])),
        ensures
            final(self).wf(),
            final(self).capacity() == old(self).capacity(),
            final(self)@ == retain_entries(old(self)@, keep),
            final(self).spec_hits() == old(self).spec_hits(),
            final(self).spec_misses() == old(self).spec_misses(),
    {
        let ghost s = self@;
        proof {
            lemma_retain_all(s);
            assert(doomed@.take(0) =~= Seq::<LruKey>::empty());
        }
        let mut i: usize = 0;
        while i < doomed.len()
            invariant
                self.wf(),
                self.capacity() == old(self).capacity(),
                self.spec_hits() == old(self).spec_hits(),
                self.spec_misses() == old(self).spec_misses(),
                i <= doomed@.len(),
                self@ == retain_entries(s, key_not_in(doomed@.take(i as int))),
            decreases doomed@.len() - i,
        {
            let k = doomed[i];
            lru_pop(&mut self.inner, &k);
            proof {
                let f = key_not_in(doomed@.take(i as int));
                let g = key_is_not(k);
                lemma_retain_compose(s, f, g);
                let h = key_not_in(doomed@.take(i + 1));
                assert(doomed@.take(i + 1) =~= doomed@.take(i as int).push(k));
                assert forall|j: int| 0 <= j < s.len() implies both(f, g)(#[trigger] s[j]) == h(s[j]) by {
                    broadcast use vstd::seq_lib::group_seq_properties;
                }
                lemma_retain_ext(s, both(f, g), h);
            }
            i = i + 1;
        }
        proof {
            assert(doomed@.take(doomed@.len() as int) =~= doomed@);
            lemma_retain_ext(s, key_not_in(doomed@), keep);
        }
    }

    /// Drops every slot-bound entry cached at a slot other than `current_slot`.
    pub fn invalidate_slot_at(&mut self, current_slot: u64)
        requires
            old(self).wf(),
        ensures
            final(self).wf(),
            final(self).capacity() == old(self).capacity(),
            final(self)@ == swept_for_slot(old(self)@, current_slot),
            final(self).spec_hits() == old(self).spec_hits(),
            final(self).spec_misses() == old(self).spec_misses(),
    {
        let stamps = lru_entry_stamps(&self.inner);
        let mut doomed: Vec<LruKey> = Vec::new();
        let mut i: usize = 0;
        let ghost s = self@;
        while i < stamps.len()
            invariant
                self@ == s,
                self.wf(),
                stamps@ == s.map_values(|e: LruEntry| (e.0.0, e.0.1, e.1.epoch, e.1.cached_at_slot)),
                i <= stamps@.len(),
                forall|k: LruKey| doomed@.contains(k) <==> exists|j: int| 0 <= j < i && #[trigger] s[j].0 == k && stale_for_slot(s[j], current_slot),
            decreases stamps@.len() - i,
        {
            let (id, hash, _epoch, slot) = stamps[i];
            assert(s[i as int].0 == (id, hash) && s[i as int].1.cached_at_slot == slot);
            let stale = match self.registered(id) {
                Some(InvalidationPolicy::Slot) => slot != current_slot,
                _ => false,
            };
            if stale {
                doomed.push((id, hash));
            }
            proof {
                broadcast use vstd::seq_lib::group_seq_properties;
                assert forall|k: LruKey| doomed@.contains(k) <==> exists|j: int| 0 <= j < i + 1 && #[trigger] s[j].0 == k && stale_for_slot(s[j], current_slot) by {
                    if exists|j: int| 0 <= j < i + 1 && #[trigger] s[j].0 == k && stale_for_slot(s[j], current_slot) {
                        let j = choose|j: int| 0 <= j < i + 1 && #[trigger] s[j].0 == k && stale_for_slot(s[j], current_slot);
                        if j < i {
                            assert(exists|j: int| 0 <= j < i && #[trigger] s[j].0 == k && stale_for_slot(s[j], current_slot));
                        }
                    }
                }
            }
            i = i + 1;
        }
        proof {
            assert forall|i: int| 0 <= i < s.len() implies (doomed@.contains(#[trigger] s[i].0) <==> stale_for_slot(s[i], current_slot)) by {
                if doomed@.contains(s[i].0) {
                    let j = choose|j: int| 0 <= j < stamps@.len() && #[trigger] s[j].0 == s[i].0 && stale_for_slot(s[j], current_slot);
                    assert(i == j);
                }
            }
        }
        self.remove_listed(&doomed, Ghost(|e: LruEntry| !stale_for_slot(e, current_slot)));
    }

    /// Drops every slot-bound entry cached at a slot other than the shared slot counter's.
    pub fn invalidate_slot(&mut self)
        requires
            old(self).wf(),
        ensures
            final(self).wf(),
            final(self).capacity() == old(self).capacity(),
            exists|slot: u64| final(self)@ == #[trigger] swept_for_slot(old(self)@, slot),
            final(self).spec_hits() == old(self).spec_hits(),
            final(self).spec_misses() == old(self).spec_misses(),
    {
        let slot = load_relaxed(&self.current_slot);
        self.invalidate_slot_at(slot);
    }

    /// Drops every epoch-bound entry cached in an epoch other than `current_epoch`.
    pub fn invalidate_epoch_at(&mut self, current_epoch: u64)
        requires
            old(self).wf(),
        ensures
            final(self).wf(),
            final(self).capacity() == old(self).capacity(),
            final(self)@ == swept_for_epoch(old(self)@, current_epoch),
            final(self).spec_hits() == old(self).spec_hits(),
            final(self).spec_misses() == old(self).spec_misses(),
    {
        let stamps = lru_entry_stamps(&self.inner);
        let mut doomed: Vec<LruKey> = Vec::new();
        let mut i: usize = 0;
        let ghost s = self@;
        while i < stamps.len()
            invariant
                self@ == s,
                self.wf(),
                stamps@ == s.map_values(|e: LruEntry| (e.0.0, e.0.1, e.1.epoch, e.1.cached_at_slot)),
                i <= stamps@.len(),
                forall|k: LruKey| doomed@.contains(k) <==> exists|j: int| 0 <= j < i && #[trigger] s[j].0 == k && stale_for_epoch(s[j], current_epoch),
            decreases stamps@.len() - i,
        {
            let (id, hash, epoch, _slot) = stamps[i];
            assert(s[i as int].0 == (id, hash) && s[i as int].1.epoch == epoch);
            let stale = match self.registered(id) {
                Some(InvalidationPolicy::EpochBound) => epoch != current_epoch,
                _ => false,
            };
            if stale {
                doomed.push((id, hash));
            }
            proof {
                broadcast use vstd::seq_lib::group_seq_properties;
                assert forall|k: LruKey| doomed@.contains(k) <==> exists|j: int| 0 <= j < i + 1 && #[trigger] s[j].0 == k && stale_for_epoch(s[j], current_epoch) by {
                    if exists|j: int| 0 <= j < i + 1 && #[trigger] s[j].0 == k && stale_for_epoch(s[j], current_epoch) {
                        let j = choose|j: int| 0 <= j < i + 1 && #[trigger] s[j].0 == k && stale_for_epoch(s[j], current_epoch);
                        if j < i {
                            assert(exists|j: int| 0 <= j < i && #[trigger] s[j].0 == k && stale_for_epoch(s[j], current_epoch));
                        }
                    }
                }
            }
            i = i + 1;
        }
        proof {
            assert forall|i: int| 0 <= i < s.len() implies (doomed@.contains(#[trigger] s[i].0) <==> stale_for_epoch(s[i], current_epoch)) by {
                if doomed@.contains(s[i].0) {
                    let j = choose|j: int| 0 <= j < stamps@.len() && #[trigger] s[j].0 == s[i].0 && stale_for_epoch(s[j], current_epoch);
                    assert(i == j);
                }
            }
        }
        self.remove_listed(&doomed, Ghost(|e: LruEntry| !stale_for_epoch(e, current_epoch)));
    }

    /// Drops every epoch-bound entry cached in an epoch other than the shared epoch counter's.
    pub fn invalidate_epoch(&mut self)
        requires
            old(self).wf(),
        ensures
            final(self).wf(),
            final(self).capacity() == old(self).capacity(),
            exists|epoch: u64| final(self)@ == #[trigger] swept_for_epoch(old(self)@, epoch),
            final(self).spec_hits() == old(self).spec_hits(),
            final(self).spec_misses() == old(self).spec_misses(),
    {
        let epoch = load_relaxed(&self.current_epoch);
        self.invalidate_epoch_at(epoch);
    }

    /// (hits, misses)
    pub fn stats(&self) -> (r: (u64, u64))
        ensures
            r == (self.spec_hits(), self.spec_misses()),
    {
        (self.hits, self.misses)
    }

    pub fn len(&self) -> (n: usize)
        ensures
            n == self@.len(),
    {
        lru_len(&self.inner)
    }

    pub fn is_empty(&self) -> (b: bool)
        ensures
            b == (self@.len() == 0),
    {
        lru_is_empty(&self.inner)
    }
}

} // verus!
