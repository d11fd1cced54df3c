//! Integer side of behavioral anomaly detection: policy actions and per-window call
//! statistics (counts, crypto share, CPI depth) that the baselines are built from.

use vstd::prelude::*;
use crate::common::{SyscallId, SyscallTraceEvent};
use crate::syscall_ids::{SOL_ED25519_VERIFY, SOL_KECCAK256, SOL_SECP256K1_RECOVER, SOL_SHA256};

verus! {

/// What a policy does with an anomalous program.
#[derive(Debug, Clone, Copy, PartialEq, Eq, Structural)]
pub enum AnomalyAction {
    Log,
    Throttle,
    Halt,
}

pub open spec fn is_crypto(id: u32) -> bool {
    id == SOL_SHA256 || id == SOL_KECCAK256 || id == SOL_SECP256K1_RECOVER || id == SOL_ED25519_VERIFY
}

pub fn is_crypto_syscall(id: SyscallId) -> (b: bool)
    ensures
        b == is_crypto(id),
{
    id == SOL_SHA256 || id == SOL_KECCAK256 || id == SOL_SECP256K1_RECOVER || id == SOL_ED25519_VERIFY
}

/// How many events of `events` call `id`.
pub open spec fn occurrences(events: Seq<SyscallTraceEvent>, id: u32) -> nat
    decreases events.len(),
{
    if events.len() == 0 {
        0
    } else {
        occurrences(events.drop_last(), id) + if events.last().syscall_id == id { 1nat } else { 0nat }
    }
}

/// How many events of `events` are cryptographic.
pub open spec fn crypto_calls(events: Seq<SyscallTraceEvent>) -> nat
    decreases events.len(),
{
    if events.len() == 0 {
        0
    } else {
        crypto_calls(events.drop_last()) + if is_crypto(events.last().syscall_id) { 1nat } else { 0nat }
    }
}

/// The deepest CPI depth among `events` (0 when there are none).
pub open spec fn deepest(events: Seq<SyscallTraceEvent>) -> u8
    decreases events.len(),
{
    if events.len() == 0 {
        0
    } else if events.last().depth > deepest(events.drop_last()) {
        events.last().depth
    } else {
        deepest(events.drop_last())
    }
}

/// The distinct syscall IDs of `events`, in order of first occurrence.
pub open spec fn distinct_ids(events: Seq<SyscallTraceEvent>) -> Seq<u32>
    decreases events.len(),
{
    if events.len() == 0 {
        Seq::empty()
    } else {
        let r = distinct_ids(events.drop_last());
        if r.contains(events.last().syscall_id) { r } else { r.push(events.last().syscall_id) }
    }
}

/// Call statistics of one window of events.
#[derive(Debug, Clone)]
pub struct WindowStats {
    /// (syscall ID, number of calls), one pair per distinct ID, in order of first call.
    pub counts: Vec<(SyscallId, u64)>,
    pub total: u64,
    pub crypto_count: u64,
    pub max_depth: u8,
}

pub open spec fn stats_match(s: WindowStats, events: Seq<SyscallTraceEvent>) -> bool {
    &&& s.counts@.len() == distinct_ids(events).len()
    &&& forall|k: int| 0 <= k < s.counts@.len() ==> {
        &&& (#[trigger] s.counts@[k]).0 == distinct_ids(events)[k]
        &&& s.counts@[k].1 == occurrences(events, s.counts@[k].0)
    }
    &&& s.total == events.len()
    &&& s.crypto_count == crypto_calls(events)
    &&& s.max_depth == deepest(events)
}

proof fn lemma_occurrences_bounded(events: Seq<SyscallTraceEvent>, id: u32)
    ensures
        occurrences(events, id) <= events.len(),
        crypto_calls(events) <= events.len(),
    decreases events.len(),
{
    if events.len() > 0 {
        lemma_occurrences_bounded(events.drop_last(), id);
    }
}

proof fn lemma_distinct_ids_occur(events: Seq<SyscallTraceEvent>, id: u32)
    ensures
        distinct_ids(events).contains(id) <==> occurrences(events, id) > 0,
        distinct_ids(events).no_duplicates(),
    decreases events.len(),
{
    broadcast use vstd::seq_lib::group_seq_properties;
    if events.len() > 0 {
        lemma_distinct_ids_occur(events.drop_last(), id);
        lemma_distinct_ids_occur(events.drop_last(), events.last().syscall_id);
    }
}

/// Sum of the call counts of `counts`.
pub open spec fn total_count(counts: Seq<(SyscallId, u64)>) -> int
    decreases counts.len(),
{
    if counts.len() == 0 {
        0
    } else {
        total_count(counts.drop_last()) + counts.last().1
    }
}

/// Calls of `events` to any of `ids`, counted per entry of `ids`.
spec fn occurrences_of_all(ids: Seq<u32>, events: Seq<SyscallTraceEvent>) -> nat
    decreases ids.len(),
{
    if ids.len() == 0 {
        0
    } else {
        occurrences_of_all(ids.drop_last(), events) + occurrences(events, ids.last())
    }
}

/// How many entries of `ids` are `id`.
spec fn id_count(ids: Seq<u32>, id: u32) -> nat
    decreases ids.len(),
{
    if ids.len() == 0 {
        0
    } else {
        id_count(ids.drop_last(), id) + if ids.last() == id { 1nat } else { 0nat }
    }
}

proof fn lemma_id_count_unique(ids: Seq<u32>, id: u32)
    requires
        ids.no_duplicates(),
    ensures
        id_count(ids, id) == if ids.contains(id) { 1nat } else { 0nat },
    decreases ids.len(),
{
    broadcast use vstd::seq_lib::group_seq_properties;
    if ids.len() > 0 {
        let rest = ids.drop_last();
        assert(rest.no_duplicates()) by {
            assert forall|a: int, b: int| 0 <= a < rest.len() && 0 <= b < rest.len() && a != b implies rest[a] != rest[b] by {
                assert(rest[a] == ids[a] && rest[b] == ids[b]);
            }
        }
        lemma_id_count_unique(rest, id);
        if ids.last() == id {
            assert(!rest.contains(id)) by {
                if rest.contains(id) {
                    let a = choose|a: int| 0 <= a < rest.len() && rest[a] == id;
                    assert(ids[a] == ids[ids.len() - 1]);
                }
            }
        }
        assert(ids.contains(id) == (rest.contains(id) || ids.last() == id)) by {
            if ids.contains(id) {
                let a = choose|a: int| 0 <= a < ids.len() && ids[a] == id;
                if a < ids.len() - 1 {
                    assert(rest[a] == id);
                }
            }
            if rest.contains(id) {
                let a = choose|a: int| 0 <= a < rest.len() && rest[a] == id;
                assert(ids[a] == id);
            }
        }
    }
}

proof fn lemma_occurrences_of_all_push(ids: Seq<u32>, events: Seq<SyscallTraceEvent>, x: SyscallTraceEvent)
    ensures
        occurrences_of_all(ids, events.push(x)) == occurrences_of_all(ids, events) + id_count(ids, x.syscall_id),
    decreases ids.len(),
{
    assert(events.push(x).drop_last() =~= events);
    if ids.len() > 0 {
        lemma_occurrences_of_all_push(ids.drop_last(), events, x);
    }
}

proof fn lemma_distinct_ids_cover(events: Seq<SyscallTraceEvent>)
    ensures
        occurrences_of_all(distinct_ids(events), events) == events.len(),
    decreases events.len(),
{
    if events.len() > 0 {
        let prev = events.drop_last();
        let x = events.last();
        assert(prev.push(x) =~= events);
        lemma_distinct_ids_cover(prev);
        lemma_distinct_ids_occur(prev, x.syscall_id);
        let d = distinct_ids(prev);
        lemma_occurrences_of_all_push(d, prev, x);
        lemma_id_count_unique(d, x.syscall_id);
        if !d.contains(x.syscall_id) {
            assert(distinct_ids(events).drop_last() =~= d);
        }
    }
}

proof fn lemma_counts_cover(counts: Seq<(SyscallId, u64)>, ids: Seq<u32>, events: Seq<SyscallTraceEvent>)
    requires
        counts.len() == ids.len(),
        forall|k: int| 0 <= k < counts.len() ==> (#[trigger] counts[k]).0 == ids[k]
            && counts[k].1 == occurrences(events, counts[k].0),
    ensures
        total_count(counts) == occurrences_of_all(ids, events),
    decreases counts.len(),
{
    if counts.len() > 0 {
        let c = counts.drop_last();
        let d = ids.drop_last();
        assert forall|k: int| 0 <= k < c.len() implies (#[trigger] c[k]).0 == d[k]
            && c[k].1 == occurrences(events, c[k].0) by {
            assert(c[k] == counts[k] && d[k] == ids[k]);
        }
        lemma_counts_cover(c, d, events);
        assert(counts[counts.len() - 1].0 == ids[ids.len() - 1]);
    }
}

/// Counts the calls of a window per syscall, in total, and among cryptographic syscalls,
/// and finds the deepest CPI depth. Every call is counted once: the per-syscall counts
/// add up to the total.
pub fn window_stats(events: &[SyscallTraceEvent]) -> (s: WindowStats)
    requires
        events@.len() <= u64::MAX,
    ensures
        stats_match(s, events@),
        total_count(s.counts@) == s.total,
{
    let mut counts: Vec<(SyscallId, u64)> = Vec::new();
    let mut total: u64 = 0;
    let mut crypto_count: u64 = 0;
    let mut max_depth: u8 = 0;
    let n = events.len();
    let mut i: usize = 0;
    while i < n
        invariant
            n == events@.len(),
            n <= u64::MAX,
            i <= n,
            stats_match(WindowStats { counts, total, crypto_count, max_depth }, events@.take(i as int)),
        decreases n - i,
    {
        let ghost prev = events@.take(i as int);
        let ghost next = events@.take(i + 1);
        let e = events[i];
        assert(next.drop_last() =~= prev);
        assert(next.last() == e);
        proof {
            lemma_occurrences_bounded(prev, e.syscall_id);
            lemma_distinct_ids_occur(prev, e.syscall_id);
        }
        let ghost old_counts = counts@;
        let mut found = false;
        let mut k: usize = 0;
        while k < counts.len()
            invariant
                0 <= k <= counts@.len(),
                counts@.len() == old_counts.len(),
                i < n,
                n <= u64::MAX,
                prev.len() == i,
                old_counts.len() == distinct_ids(prev).len(),
                distinct_ids(prev).no_duplicates(),
                forall|m: int| 0 <= m < old_counts.len() ==> {
                    &&& (#[trigger] old_counts[m]).0 == distinct_ids(prev)[m]
                    &&& old_counts[m].1 == occurrences(prev, old_counts[m].0)
                },
                forall|m: int| 0 <= m < counts@.len() ==> (#[trigger] counts@[m]).0 == old_counts[m].0,
                forall|m: int| 0 <= m < k ==> (#[trigger] counts@[m]).1 == old_counts[m].1
                    + if old_counts[m].0 == e.syscall_id { 1nat } else { 0nat },
                forall|m: int| k <= m < counts@.len() ==> #[trigger] counts@[m] == old_counts[m],
                found == exists|m: int| 0 <= m < k && old_counts[m].0 == e.syscall_id,
                occurrences(prev, e.syscall_id) <= i,
            decreases counts@.len() - k,
        {
            proof { lemma_occurrences_bounded(prev, counts@[k as int].0); }
            if counts[k].0 == e.syscall_id {
                let c = counts[k].1;
                counts.set(k, (e.syscall_id, c + 1));
                found = true;
            }
            k = k + 1;
        }
        if !found {
            counts.push((e.syscall_id, 1));
        }
        total = total + 1;
        if is_crypto_syscall(e.syscall_id) {
            crypto_count = crypto_count + 1;
        }
        if e.depth > max_depth {
            max_depth = e.depth;
        }
        proof {
            assert(distinct_ids(prev).contains(e.syscall_id) == found) by {
                if found {
                    let m = choose|m: int| 0 <= m < old_counts.len() && old_counts[m].0 == e.syscall_id;
                    assert(distinct_ids(prev)[m] == e.syscall_id);
                }
                if distinct_ids(prev).contains(e.syscall_id) {
                    let m = choose|m: int| 0 <= m < distinct_ids(prev).len() && distinct_ids(prev)[m] == e.syscall_id;
                    assert(old_counts[m].0 == e.syscall_id);
                }
            }
            let s = WindowStats { counts, total, crypto_count, max_depth };
            assert forall|m: int| 0 <= m < s.counts@.len() implies {
                &&& (#[trigger] s.counts@[m]).0 == distinct_ids(next)[m]
                &&& s.counts@[m].1 == occurrences(next, s.counts@[m].0)
            } by {
                if m < old_counts.len() {
                    assert(distinct_ids(next)[m] == distinct_ids(prev)[m]);
                }
            }
        }
        i = i + 1;
    }
    assert(events@.take(n as int) =~= events@);
    proof {
        lemma_distinct_ids_cover(events@);
        lemma_counts_cover(counts@, distinct_ids(events@), events@);
    }
    WindowStats { counts, total, crypto_count, max_depth }
}

} // verus!
