//! Buffer of speculatively prefetched syscall results.

use vstd::prelude::*;
use crate::common::{ArgsHash, SyscallId};
use crate::syscall_ids::{
    SOL_ED25519_VERIFY, SOL_GET_CLOCK_SYSVAR, SOL_GET_EPOCH_SCHEDULE_SYSVAR, SOL_GET_RENT_SYSVAR,
    SOL_KECCAK256, SOL_SECP256K1_RECOVER, SOL_SHA256,
};

verus! {

#[derive(Debug, Clone)]
pub struct PrefetchEntry {
    pub syscall_id: SyscallId,
    pub args_hash: ArgsHash,
    pub result: Vec<u8>,
    pub is_ready: bool,
}

/// The stand-in result of prefetching `id`: zeroed sysvar structs (64 bytes), 32-byte
/// hashes, a 64-byte recovered key, a one-byte `1` verdict, or nothing.
pub open spec fn simulated_result(id: u32) -> Seq<u8> {
    if id == SOL_GET_CLOCK_SYSVAR || id == SOL_GET_RENT_SYSVAR || id == SOL_GET_EPOCH_SCHEDULE_SYSVAR {
        Seq::new(64, |i: int| 0u8)
    } else if id == SOL_SHA256 || id == SOL_KECCAK256 {
        Seq::new(32, |i: int| 0u8)
    } else if id == SOL_SECP256K1_RECOVER {
        Seq::new(64, |i: int| 0u8)
    } else if id == SOL_ED25519_VERIFY {
        seq![1u8]
    } else {
        Seq::empty()
    }
}

fn zeros(n: usize) -> (v: Vec<u8>)
    ensures
        v@ == Seq::new(n as nat, |i: int| 0u8),
{
    let mut v: Vec<u8> = Vec::new();
    let mut i: usize = 0;
    while i < n
        invariant
            i <= n,
            v@ == Seq::new(i as nat, |k: int| 0u8),
        decreases n - i,
    {
        v.push(0u8);
        assert(v@ =~= Seq::new((i + 1) as nat, |k: int| 0u8));
        i = i + 1;
    }
    v
}

/// Simulate the result of a prefetched syscall.
/// In production this would call the actual syscall implementation on a background thread.
fn simulate_fetch(syscall_id: SyscallId) -> (r: Vec<u8>)
    ensures
        r@ == simulated_result(syscall_id),
{
    if syscall_id == SOL_GET_CLOCK_SYSVAR || syscall_id == SOL_GET_RENT_SYSVAR
        || syscall_id == SOL_GET_EPOCH_SCHEDULE_SYSVAR {
        zeros(64)
    } else if syscall_id == SOL_SHA256 || syscall_id == SOL_KECCAK256 {
        zeros(32)
    } else if syscall_id == SOL_SECP256K1_RECOVER {
        zeros(64)
    } else if syscall_id == SOL_ED25519_VERIFY {
        let mut v: Vec<u8> = Vec::new();
        v.push(1u8);
        v
    } else {
        Vec::new()
    }
}

pub type PrefetchKey = (SyscallId, ArgsHash);

spec fn key_of(e: PrefetchEntry) -> PrefetchKey {
    (e.syscall_id, e.args_hash)
}

spec fn entries_map(s: Seq<PrefetchEntry>) -> Map<PrefetchKey, (Seq<u8>, bool)>
    decreases s.len(),
{
    if s.len() == 0 {
        Map::empty()
    } else {
        entries_map(s.drop_last()).insert(key_of(s.last()), (s.last().result@, s.last().is_ready))
    }
}

spec fn unique_keys(s: Seq<PrefetchEntry>) -> bool {
    forall|i: int, j: int| 0 <= i < j < s.len() ==> key_of(#[trigger] s[i]) != key_of(#[trigger] s[j])
}

proof fn lemma_entries_map(s: Seq<PrefetchEntry>)
    requires
        unique_keys(s),
    ensures
        forall|k: PrefetchKey| #[trigger] entries_map(s).contains_key(k)
            <==> exists|i: int| 0 <= i < s.len() && key_of(s[i]) == k,
        forall|i: int| 0 <= i < s.len() ==> entries_map(s).contains_key(key_of(#[trigger] s[i]))
            && entries_map(s)[key_of(s[i])] == (s[i].result@, s[i].is_ready),
        entries_map(s).dom().finite(),
        entries_map(s).dom().len() == s.len(),
    decreases s.len(),
{
    if s.len() > 0 {
        let p = s.drop_last();
        assert(unique_keys(p));
        lemma_entries_map(p);
        assert(!entries_map(p).contains_key(key_of(s.last()))) by {
            if entries_map(p).contains_key(key_of(s.last())) {
                let i = choose|i: int| 0 <= i < p.len() && key_of(p[i]) == key_of(s.last());
                assert(key_of(s[i]) == key_of(s[s.len() - 1]));
            }
        }
        assert forall|k: PrefetchKey| #[trigger] entries_map(s).contains_key(k)
            <==> exists|i: int| 0 <= i < s.len() && key_of(s[i]) == k by {
            if entries_map(p).contains_key(k) {
                let i = choose|i: int| 0 <= i < p.len() && key_of(p[i]) == k;
                assert(key_of(s[i]) == k);
            }
            if exists|i: int| 0 <= i < s.len() && key_of(s[i]) == k {
                let i = choose|i: int| 0 <= i < s.len() && key_of(s[i]) == k;
                if i < p.len() {
                    assert(key_of(p[i]) == k);
                }
            }
        }
        assert forall|i: int| 0 <= i < s.len() implies entries_map(s).contains_key(key_of(#[trigger] s[i]))
            && entries_map(s)[key_of(s[i])] == (s[i].result@, s[i].is_ready) by {
            if i < p.len() {
                assert(p[i] == s[i]);
            }
        }
        assert(entries_map(s).dom() =~= entries_map(p).dom().insert(key_of(s.last())));
    }
}

/// Prefetched results waiting to be consumed, keyed by (syscall, argument hash), with
/// hit and miss counters.
pub struct PrefetchBuffer {
    entries: Vec<PrefetchEntry>,
    hits: u64,
    misses: u64,
}

impl PrefetchBuffer {
    /// Internal consistency: one entry per key.
    pub closed spec fn wf(&self) -> bool {
        unique_keys(self.entries@)
    }

    /// Buffered results and whether each is ready.
    pub closed spec fn view(&self) -> Map<PrefetchKey, (Seq<u8>, bool)> {
        entries_map(self.entries@)
    }

    pub closed spec fn spec_hits(&self) -> u64 {
        self.hits
    }

    pub closed spec fn spec_misses(&self) -> u64 {
        self.misses
    }

    pub fn new() -> (b: Self)
        ensures
            b.wf(),
            b@ == Map::<PrefetchKey, (Seq<u8>, bool)>::empty(),
            b@.dom().finite(),
            b.spec_hits() == 0,
            b.spec_misses() == 0,
    {
        PrefetchBuffer { entries: Vec::new(), hits: 0, misses: 0 }
    }

    fn find(&self, key: PrefetchKey) -> (r: Option<usize>)
        requires
            self.wf(),
        ensures
            match r {
                Some(i) => i < self.entries@.len() && key_of(self.entries@[i as int]) == key,
                None => !self@.contains_key(key),
            },
    {
        proof { lemma_entries_map(self.entries@); }
        let mut i: usize = 0;
        while i < self.entries.len()
            invariant
                i <= self.entries@.len(),
                forall|m: int| 0 <= m < i ==> key_of(#[trigger] self.entries@[m]) != key,
            decreases self.entries@.len() - i,
        {
            if self.entries[i].syscall_id == key.0 && self.entries[i].args_hash == key.1 {
                return Some(i);
            }
            i = i + 1;
        }
        None
    }

    /// Prefetches one call unless it is already buffered (in flight): the simulated result
    /// is stored, ready.
    pub fn prefetch(&mut self, syscall_id: SyscallId, args_hash: ArgsHash)
        requires
            old(self).wf(),
        ensures
            final(self).wf(),
            final(self)@ == if old(self)@.contains_key((syscall_id, args_hash)) {
                old(self)@
            } else {
                old(self)@.insert((syscall_id, args_hash), (simulated_result(syscall_id), true))
            },
            final(self)@.dom().finite(),
            final(self)@.dom().len() == old(self)@.dom().len()
                + if old(self)@.contains_key((syscall_id, args_hash)) { 0int } else { 1int },
            final(self).spec_hits() == old(self).spec_hits(),
            final(self).spec_misses() == old(self).spec_misses(),
    {
        proof { lemma_entries_map(self.entries@); }
        if self.find((syscall_id, args_hash)).is_some() {
            return;
        }
        let ghost before = self.entries@;
        let result = simulate_fetch(syscall_id);
        self.entries.push(PrefetchEntry { syscall_id, args_hash, result, is_ready: true });
        proof {
            let s = self.entries@;
            lemma_entries_map(before);
            assert(s.drop_last() =~= before);
            assert(unique_keys(s)) by {
                assert forall|a: int, b: int| 0 <= a < b < s.len() implies key_of(#[trigger] s[a]) != key_of(#[trigger] s[b]) by {
                    if b == s.len() - 1 {
                        assert(before[a] == s[a]);
                    } else {
                        assert(before[a] == s[a] && before[b] == s[b]);
                    }
                }
            }
        }
    }

    /// Consume a buffered result, removing it. A ready result counts a hit and is
    /// returned; one not ready counts a miss; an absent key changes nothing.
    pub fn consume(&mut self, syscall_id: SyscallId, args_hash: ArgsHash) -> (r: Option<Vec<u8>>)
        requires
            old(self).wf(),
        ensures
            final(self).wf(),
            final(self)@ == old(self)@.remove((syscall_id, args_hash)),
            final(self)@.dom().finite(),
            final(self)@.dom().len() == old(self)@.dom().len()
                - if old(self)@.contains_key((syscall_id, args_hash)) { 1int } else { 0int },
            match old(self)@.get((syscall_id, args_hash)) {
                None => r is None && final(self).spec_hits() == old(self).spec_hits()
                    && final(self).spec_misses() == old(self).spec_misses(),
                Some((result, true)) => r is Some && r.unwrap()@ == result
                    && final(self).spec_hits() == (old(self).spec_hits() + 1) % 0x1_0000_0000_0000_0000
                    && final(self).spec_misses() == old(self).spec_misses(),
                Some((_, false)) => r is None && final(self).spec_hits() == old(self).spec_hits()
                    && final(self).spec_misses() == (old(self).spec_misses() + 1) % 0x1_0000_0000_0000_0000,
            },
    {
        proof { lemma_entries_map(self.entries@); }
        let ghost before = self.entries@;
        let i = match self.find((syscall_id, args_hash)) {
            Some(i) => i,
            None => {
                assert(self@ =~= old(self)@.remove((syscall_id, args_hash)));
                return None;
            },
        };
        let entry = self.entries.remove(i);
        proof {
            let s = self.entries@;
            let k = (syscall_id, args_hash);
            assert forall|a: int| 0 <= a < s.len() implies #[trigger] s[a] == before[if a < i { a } else { a + 1 }] by {}
            assert(unique_keys(s)) by {
                assert forall|a: int, b: int| 0 <= a < b < s.len() implies key_of(#[trigger] s[a]) != key_of(#[trigger] s[b]) by {
                    assert(s[a] == before[if a < i { a } else { a + 1 }]);
                    assert(s[b] == before[if b < i { b } else { b + 1 }]);
                }
            }
            lemma_entries_map(s);
            let target = entries_map(before).remove(k);
            assert forall|q: PrefetchKey| #[trigger] entries_map(s).contains_key(q) == target.contains_key(q) by {
                if exists|m: int| 0 <= m < s.len() && key_of(s[m]) == q {
                    let m = choose|m: int| 0 <= m < s.len() && key_of(s[m]) == q;
                    assert(s[m] == before[if m < i { m } else { m + 1 }]);
                }
                if target.contains_key(q) {
                    let m = choose|m: int| 0 <= m < before.len() && key_of(before[m]) == q;
                    assert(m != i);
                    let a = if m < i { m } else { m - 1 };
                    assert(s[a] == before[m]);
                }
            }
            assert forall|q: PrefetchKey| #[trigger] entries_map(s).contains_key(q) implies entries_map(s)[q] == target[q] by {
                let m = choose|m: int| 0 <= m < s.len() && key_of(s[m]) == q;
                assert(s[m] == before[if m < i { m } else { m + 1 }]);
            }
            assert(entries_map(s) =~= target);
        }
        if entry.is_ready {
            self.hits = self.hits.wrapping_add(1);
            Some(entry.result)
        } else {
            self.misses = self.misses.wrapping_add(1);
            None
        }
    }

    /// (hits, misses)
    pub fn stats(&self) -> (r: (u64, u64))
        ensures
            r == (self.spec_hits(), self.spec_misses()),
    {
        (self.hits, self.misses)
    }

    /// Number of buffered results.
    pub fn buffer_len(&self) -> (n: usize)
        requires
            self.wf(),
        ensures
            n == self@.dom().len(),
            self@.dom().finite(),
    {
        proof { lemma_entries_map(self.entries@); }
        self.entries.len()
    }
}

} // verus!
