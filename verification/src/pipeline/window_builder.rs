//! Grouping of trace events into per-transaction execution windows.

use vstd::prelude::*;
use crate::common::{bytes32_eq, SyscallTraceEvent, TransactionId};

verus! {

#[derive(Debug, Clone)]
pub struct ExecutionWindow {
    pub transaction_id: TransactionId,
    pub slot: u64,
    pub events: Vec<SyscallTraceEvent>,
    pub start_ts: u64,
    pub end_ts: u64,
}

/// The window that finalizing transaction `tx` with the (non-empty) `events` produces:
/// slot and start time of the first event, end time of the last.
pub open spec fn is_window_of(w: ExecutionWindow, tx: TransactionId, events: Seq<SyscallTraceEvent>) -> bool {
    &&& events.len() > 0
    &&& w.transaction_id == tx
    &&& w.events@ == events
    &&& w.slot == events[0].slot
    &&& w.start_ts == events[0].timestamp_ns
    &&& w.end_ts == events.last().timestamp_ns
}

impl ExecutionWindow {
    /// The syscall IDs of the window's events, in order.
    pub fn syscall_ids(&self) -> (ids: Vec<u32>)
        ensures
            ids@ == self.events@.map_values(|e: SyscallTraceEvent| e.syscall_id),
    {
        let mut ids: Vec<u32> = Vec::new();
        let mut i: usize = 0;
        while i < self.events.len()
            invariant
                i <= self.events@.len(),
                ids@ == self.events@.take(i as int).map_values(|e: SyscallTraceEvent| e.syscall_id),
            decreases self.events@.len() - i,
        {
            ids.push(self.events[i].syscall_id);
            assert(self.events@.take(i + 1) =~= self.events@.take(i as int).push(self.events@[i as int]));
            assert(ids@ =~= self.events@.take(i + 1).map_values(|e: SyscallTraceEvent| e.syscall_id));
            i = i + 1;
        }
        assert(self.events@.take(self.events@.len() as int) =~= self.events@);
        ids
    }

    pub fn len(&self) -> (n: usize)
        ensures
            n == self.events@.len(),
    {
        self.events.len()
    }

    pub fn is_empty(&self) -> (b: bool)
        ensures
            b == (self.events@.len() == 0),
    {
        self.events.len() == 0
    }
}

struct PendingWindow {
    tx: TransactionId,
    events: Vec<SyscallTraceEvent>,
}

spec fn pending_map(s: Seq<PendingWindow>) -> Map<TransactionId, Seq<SyscallTraceEvent>>
    decreases s.len(),
{
    if s.len() == 0 {
        Map::empty()
    } else {
        pending_map(s.drop_last()).insert(s.last().tx, s.last().events@)
    }
}

spec fn unique_txs(s: Seq<PendingWindow>) -> bool {
    forall|i: int, j: int| 0 <= i < j < s.len() ==> #[trigger] s[i].tx != #[trigger] s[j].tx
}

proof fn lemma_pending_map(s: Seq<PendingWindow>)
    requires
        unique_txs(s),
    ensures
        forall|k: TransactionId| #[trigger] pending_map(s).contains_key(k)
            <==> exists|i: int| 0 <= i < s.len() && s[i].tx == k,
        forall|i: int| 0 <= i < s.len() ==> pending_map(s).contains_key(#[trigger] s[i].tx)
            && pending_map(s)[s[i].tx] == s[i].events@,
        pending_map(s).dom().finite(),
        pending_map(s).dom().len() == s.len(),
    decreases s.len(),
{
    if s.len() > 0 {
        let p = s.drop_last();
        assert(unique_txs(p));
        lemma_pending_map(p);
        assert(!pending_map(p).contains_key(s.last().tx)) by {
            if pending_map(p).contains_key(s.last().tx) {
                let i = choose|i: int| 0 <= i < p.len() && p[i].tx == s.last().tx;
                assert(s[i].tx == s[s.len() - 1].tx);
            }
        }
        assert forall|k: TransactionId| #[trigger] pending_map(s).contains_key(k)
            <==> exists|i: int| 0 <= i < s.len() && s[i].tx == k by {
            if pending_map(p).contains_key(k) {
                let i = choose|i: int| 0 <= i < p.len() && p[i].tx == k;
                assert(s[i].tx == k);
            }
            if exists|i: int| 0 <= i < s.len() && s[i].tx == k {
                let i = choose|i: int| 0 <= i < s.len() && s[i].tx == k;
                if i < p.len() {
                    assert(p[i].tx == k);
                }
            }
        }
        assert forall|i: int| 0 <= i < s.len() implies pending_map(s).contains_key(#[trigger] s[i].tx)
            && pending_map(s)[s[i].tx] == s[i].events@ by {
            if i < p.len() {
                assert(p[i] == s[i]);
            }
        }
        assert(pending_map(s).dom() =~= pending_map(p).dom().insert(s.last().tx));
    }
}

/// The events held for a transaction after ingesting `e` into `prior` (absent when
/// `prior` is `None`), under the size limit `max`.
pub open spec fn ingested(prior: Option<Seq<SyscallTraceEvent>>, e: SyscallTraceEvent, max: nat) -> Seq<SyscallTraceEvent> {
    let events = match prior {
        Some(s) => s,
        None => Seq::empty(),
    };
    if events.len() < max {
        events.push(e)
    } else {
        events
    }
}

pub struct WindowBuilder {
    pending: Vec<PendingWindow>,
    max_window_size: usize,
}

impl WindowBuilder {
    /// Internal consistency: one pending entry per transaction.
    pub closed spec fn wf(&self) -> bool {
        unique_txs(self.pending@)
    }

    /// Events collected so far, per open transaction.
    pub closed spec fn view(&self) -> Map<TransactionId, Seq<SyscallTraceEvent>> {
        pending_map(self.pending@)
    }

    pub closed spec fn spec_max_window_size(&self) -> nat {
        self.max_window_size as nat
    }

    pub fn new(max_window_size: usize) -> (wb: Self)
        ensures
            wb.wf(),
            wb@ == Map::<TransactionId, Seq<SyscallTraceEvent>>::empty(),
            wb@.dom().finite(),
            wb.spec_max_window_size() == max_window_size,
    {
        WindowBuilder { pending: Vec::new(), max_window_size }
    }

    fn find(&self, tx: &TransactionId) -> (r: Option<usize>)
        requires
            self.wf(),
        ensures
            match r {
                Some(i) => i < self.pending@.len() && self.pending@[i as int].tx == *tx,
                None => !self@.contains_key(*tx),
            },
    {
        proof { lemma_pending_map(self.pending@); }
        let mut i: usize = 0;
        while i < self.pending.len()
            invariant
                i <= self.pending@.len(),
                forall|m: int| 0 <= m < i ==> #[trigger] self.pending@[m].tx != *tx,
            decreases self.pending@.len() - i,
        {
            if bytes32_eq(&self.pending[i].tx, tx) {
                return Some(i);
            }
            i = i + 1;
        }
        None
    }

    /// Adds an event to its transaction's window; events beyond the size limit are dropped.
    pub fn ingest(&mut self, event: SyscallTraceEvent)
        requires
            old(self).wf(),
        ensures
            final(self).wf(),
            final(self).spec_max_window_size() == old(self).spec_max_window_size(),
            final(self)@ == old(self)@.insert(event.transaction_id, ingested(
                if old(self)@.contains_key(event.transaction_id) { Some(old(self)@[event.transaction_id]) } else { None },
                event,
                old(self).spec_max_window_size(),
            )),
            final(self)@.dom().finite(),
            final(self)@.dom().len() == old(self)@.dom().len()
                + if old(self)@.contains_key(event.transaction_id) { 0int } else { 1int },
    {
        proof { lemma_pending_map(self.pending@); }
        let tx = event.transaction_id;
        let ghost before = self.pending@;
        match self.find(&tx) {
            Some(i) => {
                if self.pending[i].events.len() < self.max_window_size {
                    self.pending[i].events.push(event);
                }
                proof {
                    let s = self.pending@;
                    assert forall|a: int| 0 <= a < s.len() implies #[trigger] s[a].tx == before[a].tx
                        && (a != i ==> s[a] == before[a]) by {}
                    assert(unique_txs(s)) by {
                        assert forall|a: int, b: int| 0 <= a < b < s.len() implies #[trigger] s[a].tx != #[trigger] s[b].tx by {
                            assert(s[a].tx == before[a].tx && s[b].tx == before[b].tx);
                        }
                    }
                    lemma_pending_map(s);
                    let target = pending_map(before).insert(tx, s[i as int].events@);
                    assert forall|k: TransactionId| #[trigger] pending_map(s).contains_key(k) == target.contains_key(k) by {
                        if exists|m: int| 0 <= m < s.len() && s[m].tx == k {
                            let m = choose|m: int| 0 <= m < s.len() && s[m].tx == k;
                            assert(before[m].tx == k);
                        }
                        if exists|m: int| 0 <= m < before.len() && before[m].tx == k {
                            let m = choose|m: int| 0 <= m < before.len() && before[m].tx == k;
                            assert(s[m].tx == k);
                        }
                    }
                    assert forall|k: TransactionId| #[trigger] pending_map(s).contains_key(k) implies
                        pending_map(s)[k] == target[k] by {
                        let m = choose|m: int| 0 <= m < s.len() && s[m].tx == k;
                        if m != i {
                            assert(before[m] == s[m]);
                        }
                    }
                    assert(pending_map(s) =~= target);
                }
            },
            None => {
                let mut events: Vec<SyscallTraceEvent> = Vec::new();
                if 0 < self.max_window_size {
                    events.push(event);
                }
                self.pending.push(PendingWindow { tx, events });
                proof {
                    let s = self.pending@;
                    assert(s.drop_last() =~= before);
                    assert(unique_txs(s)) by {
                        assert forall|a: int, b: int| 0 <= a < b < s.len() implies #[trigger] s[a].tx != #[trigger] s[b].tx by {
                            if b == s.len() - 1 {
                                assert(before[a].tx == s[a].tx);
                            } else {
                                assert(before[a] == s[a] && before[b] == s[b]);
                            }
                        }
                    }
                }
            },
        }
    }

    /// Closes a transaction's window: removes its events and returns the window, or
    /// `None` when the transaction has no events.
    pub fn finalize(&mut self, tx_id: TransactionId) -> (r: Option<ExecutionWindow>)
        requires
            old(self).wf(),
        ensures
            final(self).wf(),
            final(self).spec_max_window_size() == old(self).spec_max_window_size(),
            final(self)@ == old(self)@.remove(tx_id),
            match r {
                Some(w) => old(self)@.contains_key(tx_id) && is_window_of(w, tx_id, old(self)@[tx_id]),
                None => !old(self)@.contains_key(tx_id) || old(self)@[tx_id].len() == 0,
            },
            final(self)@.dom().finite(),
            final(self)@.dom().len() == old(self)@.dom().len()
                - if old(self)@.contains_key(tx_id) { 1int } else { 0int },
    {
        proof { lemma_pending_map(self.pending@); }
        let ghost before = self.pending@;
        match self.find(&tx_id) {
            None => {
                assert(self@ =~= old(self)@.remove(tx_id));
                None
            },
            Some(i) => {
                let entry = self.pending.remove(i);
                proof {
                    let s = self.pending@;
                    assert forall|a: int| 0 <= a < s.len() implies #[trigger] s[a] == before[if a < i { a } else { a + 1 }] by {}
                    assert(unique_txs(s)) by {
                        assert forall|a: int, b: int| 0 <= a < b < s.len() implies #[trigger] s[a].tx != #[trigger] s[b].tx by {
                            assert(s[a] == before[if a < i { a } else { a + 1 }]);
                            assert(s[b] == before[if b < i { b } else { b + 1 }]);
                        }
                    }
                    lemma_pending_map(s);
                    let target = pending_map(before).remove(tx_id);
                    assert forall|k: TransactionId| #[trigger] pending_map(s).contains_key(k) == target.contains_key(k) by {
                        if exists|m: int| 0 <= m < s.len() && s[m].tx == k {
                            let m = choose|m: int| 0 <= m < s.len() && s[m].tx == k;
                            assert(s[m] == before[if m < i { m } else { m + 1 }]);
                        }
                        if target.contains_key(k) {
                            let m = choose|m: int| 0 <= m < before.len() && before[m].tx == k;
                            assert(m != i);
                            let a = if m < i { m } else { m - 1 };
                            assert(s[a] == before[m]);
                        }
                    }
                    assert forall|k: TransactionId| #[trigger] pending_map(s).contains_key(k) implies
                        pending_map(s)[k] == target[k] by {
                        let m = choose|m: int| 0 <= m < s.len() && s[m].tx == k;
                        assert(s[m] == before[if m < i { m } else { m + 1 }]);
                    }
                    assert(pending_map(s) =~= target);
                }
                let events = entry.events;
                if events.len() == 0 {
                    return None;
                }
                let start_ts = events[0].timestamp_ns;
                let end_ts = events[events.len() - 1].timestamp_ns;
                let slot = events[0].slot;
                Some(ExecutionWindow { transaction_id: tx_id, slot, events, start_ts, end_ts })
            },
        }
    }

    /// Finalizes every open transaction: one window per transaction that holds events
    /// (each transaction once, in no promised order); nothing stays pending.
    pub fn drain_all(&mut self) -> (windows: Vec<ExecutionWindow>)
        requires
            old(self).wf(),
        ensures
            final(self).wf(),
            final(self).spec_max_window_size() == old(self).spec_max_window_size(),
            final(self)@ == Map::<TransactionId, Seq<SyscallTraceEvent>>::empty(),
            final(self)@.dom().finite(),
            forall|a: int, b: int| 0 <= a < b < windows@.len() ==>
                #[trigger] windows@[a].transaction_id != #[trigger] windows@[b].transaction_id,
            forall|a: int| 0 <= a < windows@.len() ==> old(self)@.contains_key(#[trigger] windows@[a].transaction_id)
                && is_window_of(windows@[a], windows@[a].transaction_id, old(self)@[windows@[a].transaction_id]),
            forall|tx: TransactionId| #[trigger] old(self)@.contains_key(tx) && old(self)@[tx].len() > 0
                ==> exists|a: int| 0 <= a < windows@.len() && windows@[a].transaction_id == tx,
    {
        proof { lemma_pending_map(self.pending@); }
        let ghost o = self.pending@;
        let ghost om = self@;
        let mut windows: Vec<ExecutionWindow> = Vec::new();
        let mut i: usize = 0;
        let n = self.pending.len();
        while i < n
            invariant
                n == o.len(),
                o == self.pending@,
                om == pending_map(o),
                unique_txs(o),
                i <= n,
                forall|q: int| 0 <= q < o.len() ==> om.contains_key(#[trigger] o[q].tx) && om[o[q].tx] == o[q].events@,
                forall|a: int, b: int| 0 <= a < b < windows@.len() ==>
                    #[trigger] windows@[a].transaction_id != #[trigger] windows@[b].transaction_id,
                forall|a: int| 0 <= a < windows@.len() ==> exists|q: int| 0 <= q < i
                    && o[q].tx == (#[trigger] windows@[a]).transaction_id
                    && is_window_of(windows@[a], o[q].tx, o[q].events@),
                forall|q: int| 0 <= q < i && (#[trigger] o[q]).events@.len() > 0 ==> exists|a: int|
                    0 <= a < windows@.len() && windows@[a].transaction_id == o[q].tx,
            decreases n - i,
        {
            let entry = &self.pending[i];
            let len = entry.events.len();
            if len > 0 {
                let mut events: Vec<SyscallTraceEvent> = Vec::new();
                let mut k: usize = 0;
                while k < len
                    invariant
                        len == entry.events@.len(),
                        k <= len,
                        events@ == entry.events@.take(k as int),
                    decreases len - k,
                {
                    events.push(entry.events[k]);
                    assert(entry.events@.take(k + 1) =~= entry.events@.take(k as int).push(entry.events@[k as int]));
                    k = k + 1;
                }
                assert(entry.events@.take(len as int) =~= entry.events@);
                let w = ExecutionWindow {
                    transaction_id: entry.tx,
                    slot: entry.events[0].slot,
                    start_ts: entry.events[0].timestamp_ns,
                    end_ts: entry.events[len - 1].timestamp_ns,
                    events,
                };
                let ghost before = windows@;
                windows.push(w);
                proof {
                    let s = windows@;
                    assert forall|a: int, b: int| 0 <= a < b < s.len() implies
                        #[trigger] s[a].transaction_id != #[trigger] s[b].transaction_id by {
                        assert(s[a] == before[a]);
                        if b == s.len() - 1 {
                            let q = choose|q: int| 0 <= q < i && o[q].tx == before[a].transaction_id
                                && is_window_of(before[a], o[q].tx, o[q].events@);
                            assert(o[q].tx != o[i as int].tx);
                        } else {
                            assert(s[b] == before[b]);
                        }
                    }
                    assert forall|a: int| 0 <= a < s.len() implies exists|q: int| 0 <= q < i + 1
                        && o[q].tx == (#[trigger] s[a]).transaction_id
                        && is_window_of(s[a], o[q].tx, o[q].events@) by {
                        if a == s.len() - 1 {
                            assert(o[i as int].tx == s[a].transaction_id);
                        } else {
                            assert(s[a] == before[a]);
                        }
                    }
                    assert forall|q: int| 0 <= q < i + 1 && (#[trigger] o[q]).events@.len() > 0 implies exists|a: int|
                        0 <= a < s.len() && s[a].transaction_id == o[q].tx by {
                        if q == i {
                            assert(s[s.len() - 1].transaction_id == o[q].tx);
                        } else {
                            let a = choose|a: int| 0 <= a < before.len() && before[a].transaction_id == o[q].tx;
                            assert(s[a] == before[a]);
                        }
                    }
                }
            }
            i = i + 1;
        }
        self.pending = Vec::new();
        proof {
            assert(self@ =~= Map::<TransactionId, Seq<SyscallTraceEvent>>::empty());
            let s = windows@;
            assert forall|a: int| 0 <= a < s.len() implies om.contains_key(#[trigger] s[a].transaction_id)
                && is_window_of(s[a], s[a].transaction_id, om[s[a].transaction_id]) by {
                let q = choose|q: int| 0 <= q < n && o[q].tx == s[a].transaction_id
                    && is_window_of(s[a], o[q].tx, o[q].events@);
            }
            assert forall|tx: TransactionId| #[trigger] om.contains_key(tx) && om[tx].len() > 0
                implies exists|a: int| 0 <= a < s.len() && s[a].transaction_id == tx by {
                let q = choose|q: int| 0 <= q < o.len() && o[q].tx == tx;
                assert(o[q].events@.len() > 0);
            }
        }
        windows
    }

    /// Number of open transactions.
    pub fn pending_count(&self) -> (n: usize)
        requires
            self.wf(),
        ensures
            n == self@.dom().len(),
            self@.dom().finite(),
    {
        proof { lemma_pending_map(self.pending@); }
        self.pending.len()
    }
}

} // verus!
