//! Intra-transaction deduplication of identical syscalls.

use vstd::prelude::*;
use crate::common::{bytes32_eq, ArgsHash, SyscallId, TransactionId};

verus! {

/// Identity of a call within a transaction.
pub type DedupKey = (TransactionId, SyscallId, ArgsHash);

struct DedupEntry {
    key: DedupKey,
    result: Vec<u8>,
}

/// The map denoted by a list of entries (later entries win).
spec fn entries_map(s: Seq<DedupEntry>) -> Map<DedupKey, Seq<u8>>
    decreases s.len(),
{
    if s.len() == 0 {
        Map::empty()
    } else {
        entries_map(s.drop_last()).insert(s.last().key, s.last().result@)
    }
}

spec fn unique_keys(s: Seq<DedupEntry>) -> bool {
    forall|i: int, j: int| 0 <= i < j < s.len() ==> #[trigger] s[i].key != #[trigger] s[j].key
}

proof fn lemma_entries_map(s: Seq<DedupEntry>)
    requires
        unique_keys(s),
    ensures
        forall|k: DedupKey| #[trigger] entries_map(s).contains_key(k)
            <==> exists|i: int| 0 <= i < s.len() && s[i].key == k,
        forall|i: int| 0 <= i < s.len() ==> entries_map(s).contains_key(#[trigger] s[i].key)
            && entries_map(s)[s[i].key] == s[i].result@,
        entries_map(s).dom().finite(),
        entries_map(s).dom().len() == s.len(),
    decreases s.len(),
{
    if s.len() > 0 {
        let p = s.drop_last();
        assert(unique_keys(p));
        lemma_entries_map(p);
        assert(!entries_map(p).contains_key(s.last().key)) by {
            if entries_map(p).contains_key(s.last().key) {
                let i = choose|i: int| 0 <= i < p.len() && p[i].key == s.last().key;
                assert(s[i].key == s[s.len() - 1].key);
            }
        }
        assert forall|k: DedupKey| #[trigger] entries_map(s).contains_key(k)
            <==> exists|i: int| 0 <= i < s.len() && s[i].key == k by {
            if entries_map(p).contains_key(k) {
                let i = choose|i: int| 0 <= i < p.len() && p[i].key == k;
                assert(s[i].key == k);
            }
            if exists|i: int| 0 <= i < s.len() && s[i].key == k {
                let i = choose|i: int| 0 <= i < s.len() && s[i].key == k;
                if i < p.len() {
                    assert(p[i].key == k);
                }
            }
        }
        assert forall|i: int| 0 <= i < s.len() implies entries_map(s).contains_key(#[trigger] s[i].key)
            && entries_map(s)[s[i].key] == s[i].result@ by {
            if i < p.len() {
                assert(p[i] == s[i]);
            }
        }
        assert(entries_map(s).dom() =~= entries_map(p).dom().insert(s.last().key));
    }
}

/// Results of calls already made, keyed by (transaction, syscall, argument hash).
pub struct DedupTable {
    table: Vec<DedupEntry>,
    dedup_count: u64,
}

fn clone_bytes(v: &Vec<u8>) -> (r: Vec<u8>)
    ensures
        r@ == v@,
{
    let mut r: Vec<u8> = Vec::new();
    let mut i: usize = 0;
    while i < v.len()
        invariant
            i <= v@.len(),
            r@ == v@.take(i as int),
        decreases v@.len() - i,
    {
        r.push(v[i]);
        assert(v@.take(i + 1) =~= v@.take(i as int).push(v@[i as int]));
        i = i + 1;
    }
    assert(v@.take(v@.len() as int) =~= v@);
    r
}

fn key_eq(a: &DedupKey, b: &DedupKey) -> (r: bool)
    ensures
        r == (*a == *b),
{
    bytes32_eq(&a.0, &b.0) && a.1 == b.1 && a.2 == b.2
}

impl DedupTable {
    #[verifier::type_invariant]
    spec fn well_formed(self) -> bool {
        unique_keys(self.table@)
    }

    /// The recorded results.
    pub closed spec fn view(&self) -> Map<DedupKey, Seq<u8>> {
        entries_map(self.table@)
    }

    /// How many deduplicated hits `check_and_count` has served.
    pub closed spec fn spec_dedup_count(&self) -> u64 {
        self.dedup_count
    }

    pub fn new() -> (t: Self)
        ensures
            t@ == Map::<DedupKey, Seq<u8>>::empty(),
            t@.dom().finite(),
            t.spec_dedup_count() == 0,
    {
        DedupTable { table: Vec::new(), dedup_count: 0 }
    }

    fn find(&self, key: &DedupKey) -> (r: Option<usize>)
        ensures
            match r {
                Some(i) => i < self.table@.len() && self.table@[i as int].key == *key,
                None => !self@.contains_key(*key),
            },
    {
        proof {
            use_type_invariant(self);
            lemma_entries_map(self.table@);
        }
        let mut i: usize = 0;
        while i < self.table.len()
            invariant
                i <= self.table@.len(),
                forall|m: int| 0 <= m < i ==> #[trigger] self.table@[m].key != *key,
            decreases self.table@.len() - i,
        {
            if key_eq(&self.table[i].key, key) {
                return Some(i);
            }
            i = i + 1;
        }
        None
    }

    /// Returns the recorded result if the exact same call was made in this transaction.
    pub fn check(&self, tx_id: TransactionId, syscall_id: SyscallId, args_hash: ArgsHash) -> (r: Option<&Vec<u8>>)
        ensures
            match r {
                Some(v) => self@.contains_key((tx_id, syscall_id, args_hash))
                    && self@[(tx_id, syscall_id, args_hash)] == v@,
                None => !self@.contains_key((tx_id, syscall_id, args_hash)),
            },
            self@.dom().finite(),
    {
        proof {
            use_type_invariant(self);
            lemma_entries_map(self.table@);
        }
        match self.find(&(tx_id, syscall_id, args_hash)) {
            Some(i) => Some(&self.table[i].result),
            None => None,
        }
    }

    /// Record a call result so future identical calls in the same transaction are deduped.
    pub fn record(&mut self, tx_id: TransactionId, syscall_id: SyscallId, args_hash: ArgsHash, result: Vec<u8>)
        ensures
            final(self)@ == old(self)@.insert((tx_id, syscall_id, args_hash), result@),
            final(self)@.dom().finite(),
            final(self)@.dom().len() == old(self)@.dom().len()
                + if old(self)@.contains_key((tx_id, syscall_id, args_hash)) { 0int } else { 1int },
            final(self).spec_dedup_count() == old(self).spec_dedup_count(),
    {
        proof {
            use_type_invariant(&*self);
            lemma_entries_map(self.table@);
        }
        let key = (tx_id, syscall_id, args_hash);
        let ghost old_table = self.table@;
        match self.find(&key) {
            Some(i) => {
                let mut table: Vec<DedupEntry> = Vec::new();
                std::mem::swap(&mut table, &mut self.table);
                let ghost before = table@;
                table.set(i, DedupEntry { key, result });
                proof {
                    let s = table@;
                    assert(unique_keys(s)) by {
                        assert forall|a: int, b: int| 0 <= a < b < s.len() implies #[trigger] s[a].key != #[trigger] s[b].key by {
                            assert(s[a].key == before[a].key);
                            assert(s[b].key == before[b].key);
                        }
                    }
                    lemma_entries_map(s);
                    lemma_entries_map(before);
                    assert(entries_map(s) =~= entries_map(before).insert(key, s[i as int].result@)) by {
                        assert forall|k: DedupKey| #[trigger] entries_map(s).contains_key(k)
                            == entries_map(before).insert(key, s[i as int].result@).contains_key(k) by {
                            if exists|m: int| 0 <= m < s.len() && s[m].key == k {
                                let m = choose|m: int| 0 <= m < s.len() && s[m].key == k;
                                assert(before[m].key == k);
                            }
                            if exists|m: int| 0 <= m < before.len() && before[m].key == k {
                                let m = choose|m: int| 0 <= m < before.len() && before[m].key == k;
                                assert(s[m].key == k);
                            }
                        }
                        assert forall|k: DedupKey| #[trigger] entries_map(s).contains_key(k) implies
                            entries_map(s)[k] == entries_map(before).insert(key, s[i as int].result@)[k] by {
                            let m = choose|m: int| 0 <= m < s.len() && s[m].key == k;
                            if m != i {
                                assert(before[m] == s[m]);
                            }
                        }
                    }
                }
                self.table = table;
            },
            None => {
                let mut table: Vec<DedupEntry> = Vec::new();
                std::mem::swap(&mut table, &mut self.table);
                table.push(DedupEntry { key, result });
                proof {
                    let s = table@;
                    assert(s.drop_last() =~= old_table);
                    assert(unique_keys(s)) by {
                        assert forall|a: int, b: int| 0 <= a < b < s.len() implies #[trigger] s[a].key != #[trigger] s[b].key by {
                            if b == s.len() - 1 {
                                assert(old_table[a].key == s[a].key);
                            } else {
                                assert(old_table[a] == s[a] && old_table[b] == s[b]);
                            }
                        }
                    }
                }
                self.table = table;
            },
        }
    }

    /// Like `check`, counting a hit when one is found; the result is copied out.
    pub fn check_and_count(&mut self, tx_id: TransactionId, syscall_id: SyscallId, args_hash: ArgsHash) -> (r: Option<Vec<u8>>)
        requires
            old(self)@.contains_key((tx_id, syscall_id, args_hash)) ==> old(self).spec_dedup_count() < u64::MAX,
        ensures
            final(self)@ == old(self)@,
            final(self)@.dom().finite(),
            match r {
                Some(v) => old(self)@.contains_key((tx_id, syscall_id, args_hash))
                    && old(self)@[(tx_id, syscall_id, args_hash)] == v@
                    && final(self).spec_dedup_count() == old(self).spec_dedup_count() + 1,
                None => !old(self)@.contains_key((tx_id, syscall_id, args_hash))
                    && final(self).spec_dedup_count() == old(self).spec_dedup_count(),
            },
    {
        proof {
            use_type_invariant(&*self);
            lemma_entries_map(self.table@);
        }
        let copied = match self.check(tx_id, syscall_id, args_hash) {
            Some(cached) => Some(clone_bytes(cached)),
            None => None,
        };
        if copied.is_some() {
            self.dedup_count = self.dedup_count + 1;
        }
        copied
    }

    /// Remove all entries for a completed transaction.
    #[verifier::rlimit(40)]
    pub fn clear_transaction(&mut self, tx_id: TransactionId)
        ensures
            final(self)@ == old(self)@.restrict(old(self)@.dom().filter(|k: DedupKey| k.0 != tx_id)),
            final(self)@.dom().finite(),
            final(self).spec_dedup_count() == old(self).spec_dedup_count(),
    {
        proof {
            use_type_invariant(&*self);
            lemma_entries_map(self.table@);
        }
        let ghost o = self.table@;
        let mut kept: Vec<DedupEntry> = Vec::new();
        let n = self.table.len();
        let mut i: usize = 0;
        while i < n
            invariant
                n == o.len(),
                o == self.table@,
                unique_keys(o),
                i <= n,
                unique_keys(kept@),
                forall|m: int| 0 <= m < kept@.len() ==> (#[trigger] kept@[m]).key.0 != tx_id && exists|q: int|
                    0 <= q < i && o[q].key == kept@[m].key && o[q].result@ == kept@[m].result@,
                forall|q: int| 0 <= q < i && (#[trigger] o[q]).key.0 != tx_id ==> exists|m: int|
                    0 <= m < kept@.len() && kept@[m].key == o[q].key,
            decreases n - i,
        {
            let e = &self.table[i];
            if !bytes32_eq(&e.key.0, &tx_id) {
                let ghost before = kept@;
                kept.push(DedupEntry { key: e.key, result: clone_bytes(&e.result) });
                proof {
                    let s = kept@;
                    assert forall|a: int, b: int| 0 <= a < b < s.len() implies #[trigger] s[a].key != #[trigger] s[b].key by {
                        assert(s[a] == before[a]);
                        if b == s.len() - 1 {
                            let q = choose|q: int| 0 <= q < i && o[q].key == before[a].key && o[q].result@ == before[a].result@;
                            assert(o[q].key != o[i as int].key);
                        } else {
                            assert(s[b] == before[b]);
                        }
                    }
                    assert forall|m: int| 0 <= m < s.len() implies (#[trigger] s[m]).key.0 != tx_id && exists|q: int|
                        0 <= q < i + 1 && o[q].key == s[m].key && o[q].result@ == s[m].result@ by {
                        if m == s.len() - 1 {
                            assert(o[i as int].key == s[m].key);
                        } else {
                            assert(s[m] == before[m]);
                            let q = choose|q: int| 0 <= q < i && o[q].key == before[m].key && o[q].result@ == before[m].result@;
                            assert(o[q].key == s[m].key);
                        }
                    }
                    assert forall|q: int| 0 <= q < i + 1 && (#[trigger] o[q]).key.0 != tx_id implies exists|m: int|
                        0 <= m < s.len() && s[m].key == o[q].key by {
                        if q == i {
                            assert(s[s.len() - 1].key == o[q].key);
                        } else {
                            let m = choose|m: int| 0 <= m < before.len() && before[m].key == o[q].key;
                            assert(s[m] == before[m]);
                        }
                    }
                }
            }
            i = i + 1;
        }
        proof {
            let s = kept@;
            lemma_entries_map(s);
            let target = entries_map(o).restrict(entries_map(o).dom().filter(|k: DedupKey| k.0 != tx_id));
            assert forall|k: DedupKey| #[trigger] entries_map(s).contains_key(k) == target.contains_key(k) by {
                if entries_map(s).contains_key(k) {
                    let m = choose|m: int| 0 <= m < s.len() && s[m].key == k;
                    let q = choose|q: int| 0 <= q < n && o[q].key == s[m].key && o[q].result@ == s[m].result@;
                    assert(entries_map(o).contains_key(o[q].key));
                }
                if target.contains_key(k) {
                    let q = choose|q: int| 0 <= q < o.len() && o[q].key == k;
                    assert(o[q].key.0 != tx_id);
                    let m = choose|m: int| 0 <= m < s.len() && s[m].key == o[q].key;
                    assert(entries_map(s).contains_key(s[m].key));
                }
            }
            assert forall|k: DedupKey| #[trigger] entries_map(s).contains_key(k) implies entries_map(s)[k] == target[k] by {
                let m = choose|m: int| 0 <= m < s.len() && s[m].key == k;
                let q = choose|q: int| 0 <= q < n && o[q].key == s[m].key && o[q].result@ == s[m].result@;
                assert(entries_map(o)[o[q].key] == o[q].result@);
            }
            assert(entries_map(s) =~= target);
        }
        self.table = kept;
    }

    pub fn dedup_count(&self) -> (c: u64)
        ensures
            c == self.spec_dedup_count(),
    {
        self.dedup_count
    }

    /// Number of recorded calls.
    pub fn len(&self) -> (n: usize)
        ensures
            n == self@.dom().len(),
            self@.dom().finite(),
    {
        proof {
            use_type_invariant(self);
            lemma_entries_map(self.table@);
        }
        self.table.len()
    }

    pub fn is_empty(&self) -> (b: bool)
        ensures
            b == (self@.dom().len() == 0),
            self@.dom().finite(),
    {
        self.len() == 0
    }
}

impl Default for DedupTable {
    fn default() -> Self {
        Self::new()
    }
}

} // verus!
