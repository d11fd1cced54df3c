//! Grouping of batchable sysvar reads into bulk fetches.

use vstd::prelude::*;
use crate::common::{ArgsHash, SyscallId};

verus! {

#[derive(Debug, Clone)]
pub struct PendingSyscall {
    pub syscall_id: SyscallId,
    pub args_hash: ArgsHash,
    pub args: Vec<u8>,
    pub sequence_index: usize,
}

#[derive(Debug, Clone)]
pub struct BatchedFetch {
    pub syscall_ids: Vec<SyscallId>,
    pub args_hashes: Vec<ArgsHash>,
}

/// IDs 1 through 9 are the sysvar reads.
pub open spec fn spec_can_batch(syscall_id: u32) -> bool {
    1 <= syscall_id <= 9
}

/// Returns true if the syscall ID is a sysvar read that can be batched
/// (IDs 1–9 are sysvar reads per the registry).
pub fn can_batch(syscall_id: SyscallId) -> (b: bool)
    ensures
        b == spec_can_batch(syscall_id),
{
    1 <= syscall_id && syscall_id <= 9
}

/// The distinct argument hashes of the pending calls to `id`, in order of first occurrence.
pub open spec fn distinct_hashes(p: Seq<PendingSyscall>, id: u32) -> Seq<u64>
    decreases p.len(),
{
    if p.len() == 0 {
        Seq::empty()
    } else {
        let r = distinct_hashes(p.drop_last(), id);
        if p.last().syscall_id == id && !r.contains(p.last().args_hash) {
            r.push(p.last().args_hash)
        } else {
            r
        }
    }
}

/// One group per batchable ID from `id` up to 9 that occurs in `p`, in increasing ID order.
pub open spec fn groups_from(p: Seq<PendingSyscall>, id: int) -> Seq<(u32, Seq<u64>)>
    decreases 10 - id,
{
    if id > 9 || id < 1 {
        Seq::empty()
    } else if distinct_hashes(p, id as u32).len() > 0 {
        seq![(id as u32, distinct_hashes(p, id as u32))] + groups_from(p, id + 1)
    } else {
        groups_from(p, id + 1)
    }
}

/// The batches that `batch_sysvar_reads` produces, as (ID, hashes) pairs.
pub open spec fn spec_batches(p: Seq<PendingSyscall>) -> Seq<(u32, Seq<u64>)> {
    groups_from(p, 1)
}

/// A fetch is well-shaped for `(id, hashes)` when it lists `hashes` against `id` each time.
pub open spec fn fetch_matches(f: BatchedFetch, g: (u32, Seq<u64>)) -> bool {
    &&& f.args_hashes@ == g.1
    &&& f.syscall_ids@ == Seq::new(g.1.len(), |i: int| g.0)
}

fn contains_hash(v: &Vec<ArgsHash>, h: ArgsHash) -> (b: bool)
    ensures
        b == v@.contains(h),
{
    let mut i: usize = 0;
    while i < v.len()
        invariant
            i <= v@.len(),
            forall|k: int| 0 <= k < i ==> v@[k] != h,
        decreases v@.len() - i,
    {
        if v[i] == h {
            assert(v@[i as int] == h);
            return true;
        }
        i = i + 1;
    }
    false
}

fn hashes_for(pending: &[PendingSyscall], id: SyscallId) -> (hs: Vec<ArgsHash>)
    ensures
        hs@ == distinct_hashes(pending@, id),
{
    let mut hs: Vec<ArgsHash> = Vec::new();
    let n = pending.len();
    let mut i: usize = 0;
    while i < n
        invariant
            n == pending@.len(),
            i <= n,
            hs@ == distinct_hashes(pending@.take(i as int), id),
        decreases n - i,
    {
        let p = &pending[i];
        assert(pending@.take(i + 1).drop_last() =~= pending@.take(i as int));
        if p.syscall_id == id && !contains_hash(&hs, p.args_hash) {
            hs.push(p.args_hash);
        }
        i = i + 1;
    }
    assert(pending@.take(n as int) =~= pending@);
    hs
}

fn repeat_id(id: SyscallId, n: usize) -> (v: Vec<SyscallId>)
    ensures
        v@ == Seq::new(n as nat, |i: int| id),
{
    let mut v: Vec<SyscallId> = Vec::new();
    let mut i: usize = 0;
    while i < n
        invariant
            i <= n,
            v@ == Seq::new(i as nat, |k: int| id),
        decreases n - i,
    {
        v.push(id);
        assert(v@ =~= Seq::new((i + 1) as nat, |k: int| id));
        i = i + 1;
    }
    v
}

/// Groups batchable syscalls by ID (in increasing ID order), keeping each distinct
/// argument hash once, in order of first occurrence.
pub fn batch_sysvar_reads(pending: &[PendingSyscall]) -> (result: Vec<BatchedFetch>)
    ensures
        result@.len() == spec_batches(pending@).len(),
        forall|k: int| 0 <= k < result@.len() ==> fetch_matches(#[trigger] result@[k], spec_batches(pending@)[k]),
{
    let mut result: Vec<BatchedFetch> = Vec::new();
    let mut id: SyscallId = 9;
    // Build from the highest ID down so that each group is prepended to the ones after it.
    let mut rev: Vec<BatchedFetch> = Vec::new();
    while id >= 1
        invariant
            0 <= id <= 9,
            rev@.len() == groups_from(pending@, id + 1).len(),
            forall|k: int| 0 <= k < rev@.len() ==> fetch_matches(#[trigger] rev@[k],
                groups_from(pending@, id + 1)[rev@.len() - 1 - k]),
        decreases id,
    {
        let hashes = hashes_for(pending, id);
        if hashes.len() > 0 {
            let ids = repeat_id(id, hashes.len());
            rev.push(BatchedFetch { syscall_ids: ids, args_hashes: hashes });
        }
        proof {
            let g = groups_from(pending@, id as int);
            let h = groups_from(pending@, id + 1);
            if distinct_hashes(pending@, id).len() > 0 {
                assert(g == seq![(id, distinct_hashes(pending@, id))] + h);
                assert forall|k: int| 0 <= k < rev@.len() implies fetch_matches(#[trigger] rev@[k],
                    g[rev@.len() - 1 - k]) by {
                    if k < rev@.len() - 1 {
                        assert(g[rev@.len() - 1 - k] == h[rev@.len() - 2 - k]);
                    }
                }
            } else {
                assert(g == h);
            }
        }
        id = id - 1;
    }
    let ghost all = groups_from(pending@, 1);
    let ghost total = rev@.len();
    let mut k: usize = rev.len();
    while k > 0
        invariant
            k == rev@.len(),
            total == all.len(),
            all == spec_batches(pending@),
            forall|m: int| 0 <= m < k ==> fetch_matches(#[trigger] rev@[m], all[total - 1 - m]),
            result@.len() == total - k,
            forall|m: int| 0 <= m < result@.len() ==> fetch_matches(#[trigger] result@[m], all[m]),
        decreases k,
    {
        let f = rev.pop().unwrap();
        result.push(f);
        k = k - 1;
    }
    result
}

proof fn lemma_distinct_hashes(p: Seq<PendingSyscall>, id: u32)
    ensures
        forall|h: u64| #[trigger] distinct_hashes(p, id).contains(h)
            <==> exists|q: int| 0 <= q < p.len() && p[q].syscall_id == id && p[q].args_hash == h,
        distinct_hashes(p, id).no_duplicates(),
    decreases p.len(),
{
    broadcast use vstd::seq_lib::group_seq_properties;
    if p.len() > 0 {
        let pre = p.drop_last();
        lemma_distinct_hashes(pre, id);
        assert forall|h: u64| #[trigger] distinct_hashes(p, id).contains(h)
            <==> exists|q: int| 0 <= q < p.len() && p[q].syscall_id == id && p[q].args_hash == h by {
            if exists|q: int| 0 <= q < pre.len() && pre[q].syscall_id == id && pre[q].args_hash == h {
                let q = choose|q: int| 0 <= q < pre.len() && pre[q].syscall_id == id && pre[q].args_hash == h;
                assert(p[q] == pre[q]);
            }
            if exists|q: int| 0 <= q < p.len() && p[q].syscall_id == id && p[q].args_hash == h {
                let q = choose|q: int| 0 <= q < p.len() && p[q].syscall_id == id && p[q].args_hash == h;
                if q < pre.len() {
                    assert(pre[q] == p[q]);
                }
            }
        }
    }
}

proof fn lemma_groups_from(p: Seq<PendingSyscall>, id: int)
    requires
        1 <= id <= 10,
    ensures
        forall|k: int| 0 <= k < groups_from(p, id).len() ==> {
            let g = #[trigger] groups_from(p, id)[k];
            &&& id <= g.0 <= 9
            &&& 1 <= g.0
            &&& g.1 == distinct_hashes(p, g.0)
            &&& g.1.len() > 0
        },
        forall|a: int, b: int| 0 <= a < b < groups_from(p, id).len() ==>
            (#[trigger] groups_from(p, id)[a]).0 < (#[trigger] groups_from(p, id)[b]).0,
        forall|x: u32| 1 <= x <= 9 && x >= id && distinct_hashes(p, x).len() > 0 ==>
            exists|k: int| 0 <= k < groups_from(p, id).len() && (#[trigger] groups_from(p, id)[k]).0 == x,
    decreases 10 - id,
{
    if 1 <= id <= 9 {
        lemma_groups_from(p, id + 1);
        let rest = groups_from(p, id + 1);
        let g = groups_from(p, id);
        if distinct_hashes(p, id as u32).len() > 0 {
            assert(g == seq![(id as u32, distinct_hashes(p, id as u32))] + rest);
            assert forall|a: int, b: int| 0 <= a < b < g.len() implies (#[trigger] g[a]).0 < (#[trigger] g[b]).0 by {
                if a > 0 {
                    assert(g[a] == rest[a - 1] && g[b] == rest[b - 1]);
                } else {
                    assert(g[b] == rest[b - 1]);
                }
            }
            assert forall|x: u32| 1 <= x <= 9 && x >= id && distinct_hashes(p, x).len() > 0 implies
                exists|k: int| 0 <= k < g.len() && (#[trigger] g[k]).0 == x by {
                if x == id {
                    assert(g[0].0 == x);
                } else {
                    let k = choose|k: int| 0 <= k < rest.len() && (#[trigger] rest[k]).0 == x;
                    assert(g[k + 1] == rest[k]);
                }
            }
        } else {
            assert forall|x: u32| 1 <= x <= 9 && x >= id && distinct_hashes(p, x).len() > 0 implies
                exists|k: int| 0 <= k < g.len() && (#[trigger] g[k]).0 == x by {
                assert(x != id);
            }
        }
    }
}

/// The batches are sorted by strictly increasing syscall ID; every batch is a batchable
/// sysvar read with at least one hash, lists its hashes without repetition, and lists
/// that ID against each hash; and every batchable pending call has its hash in the batch
/// of its ID.
pub proof fn lemma_batches_well_formed(p: Seq<PendingSyscall>)
    ensures
        forall|k: int| 0 <= k < spec_batches(p).len() ==> {
            let g = #[trigger] spec_batches(p)[k];
            &&& spec_can_batch(g.0)
            &&& g.1.len() > 0
            &&& g.1.no_duplicates()
        },
        forall|a: int, b: int| 0 <= a < b < spec_batches(p).len() ==>
            (#[trigger] spec_batches(p)[a]).0 < (#[trigger] spec_batches(p)[b]).0,
        forall|q: int| 0 <= q < p.len() && spec_can_batch(#[trigger] p[q].syscall_id) ==>
            exists|k: int| 0 <= k < spec_batches(p).len() && spec_batches(p)[k].0 == p[q].syscall_id
                && spec_batches(p)[k].1.contains(p[q].args_hash),
        forall|k: int, h: u64| 0 <= k < spec_batches(p).len() && #[trigger] spec_batches(p)[k].1.contains(h)
            ==> exists|q: int| 0 <= q < p.len() && p[q].syscall_id == spec_batches(p)[k].0 && p[q].args_hash == h,
{
    lemma_groups_from(p, 1);
    let g = spec_batches(p);
    assert forall|k: int| 0 <= k < g.len() implies {
        let b = #[trigger] g[k];
        &&& spec_can_batch(b.0)
        &&& b.1.len() > 0
        &&& b.1.no_duplicates()
    } by {
        lemma_distinct_hashes(p, g[k].0);
    }
    assert forall|q: int| 0 <= q < p.len() && spec_can_batch(#[trigger] p[q].syscall_id) implies
        exists|k: int| 0 <= k < g.len() && g[k].0 == p[q].syscall_id && g[k].1.contains(p[q].args_hash) by {
        let x = p[q].syscall_id;
        lemma_distinct_hashes(p, x);
        assert(distinct_hashes(p, x).contains(p[q].args_hash));
        let k = choose|k: int| 0 <= k < g.len() && (#[trigger] g[k]).0 == x;
        assert(g[k].1 == distinct_hashes(p, x));
    }
    assert forall|k: int, h: u64| 0 <= k < g.len() && #[trigger] g[k].1.contains(h)
        implies exists|q: int| 0 <= q < p.len() && p[q].syscall_id == g[k].0 && p[q].args_hash == h by {
        lemma_distinct_hashes(p, g[k].0);
    }
}

} // verus!
