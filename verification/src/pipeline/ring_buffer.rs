//! Bounded FIFO ring buffer of trace events (1024 slots, one kept free).

use vstd::prelude::*;
use crate::common::{zero_pubkey, zero_tx_id, SyscallTraceEvent};

verus! {

pub const RING_BUFFER_SIZE: usize = 1024;

pub struct RingBuffer {
    slots: Vec<SyscallTraceEvent>,
    head: usize,
    tail: usize,
}

impl RingBuffer {
    /// Internal consistency: a full slot array and in-range indices.
    pub closed spec fn wf(&self) -> bool {
        &&& self.slots@.len() == RING_BUFFER_SIZE
        &&& self.head < RING_BUFFER_SIZE
        &&& self.tail < RING_BUFFER_SIZE
    }

    spec fn spec_len(self) -> nat {
        ((self.tail + RING_BUFFER_SIZE - self.head) % (RING_BUFFER_SIZE as int)) as nat
    }

    /// The queued events, oldest first.
    pub closed spec fn view(&self) -> Seq<SyscallTraceEvent> {
        Seq::new(self.spec_len(), |k: int| self.slots@[(self.head + k) % (RING_BUFFER_SIZE as int)])
    }

    /// At most this many events can be queued at once.
    pub open spec fn spec_capacity() -> nat {
        (RING_BUFFER_SIZE - 1) as nat
    }

    pub fn new() -> (rb: Self)
        ensures
            rb.wf(),
            rb@ == Seq::<SyscallTraceEvent>::empty(),
    {
        let blank = SyscallTraceEvent {
            program_id: zero_pubkey(),
            syscall_id: 0,
            args_hash: 0,
            timestamp_ns: 0,
            slot: 0,
            transaction_id: zero_tx_id(),
            depth: 0,
        };
        let mut slots: Vec<SyscallTraceEvent> = Vec::new();
        let mut i: usize = 0;
        while i < RING_BUFFER_SIZE
            invariant
                i <= RING_BUFFER_SIZE,
                slots@.len() == i,
            decreases RING_BUFFER_SIZE - i,
        {
            slots.push(blank);
            i = i + 1;
        }
        let rb = RingBuffer { slots, head: 0, tail: 0 };
        assert(rb@ =~= Seq::<SyscallTraceEvent>::empty());
        rb
    }

    /// Push an event. Returns `false`, and changes nothing, if the buffer is full.
    pub fn push(&mut self, event: SyscallTraceEvent) -> (pushed: bool)
        requires
            old(self).wf(),
        ensures
            final(self).wf(),
            pushed == (old(self)@.len() < Self::spec_capacity()),
            pushed ==> final(self)@ == old(self)@.push(event),
            !pushed ==> final(self)@ == old(self)@,
            final(self)@.len() <= Self::spec_capacity(),
    {
        let tail = self.tail;
        let next_tail = (tail + 1) % RING_BUFFER_SIZE;
        if next_tail == self.head {
            return false;
        }
        let ghost old_view = self@;
        self.slots.set(tail, event);
        self.tail = next_tail;
        assert(self@ =~= old_view.push(event));
        true
    }

    /// Pop the oldest event. Returns `None` if the buffer is empty.
    pub fn pop(&mut self) -> (r: Option<SyscallTraceEvent>)
        requires
            old(self).wf(),
        ensures
            final(self).wf(),
            old(self)@.len() == 0 ==> r is None && final(self)@ == old(self)@,
            old(self)@.len() > 0 ==> r == Some(old(self)@[0]) && final(self)@ == old(self)@.drop_first(),
            final(self)@.len() <= Self::spec_capacity(),
    {
        let head = self.head;
        if head == self.tail {
            return None;
        }
        let ghost old_view = self@;
        let event = self.slots[head];
        self.head = (head + 1) % RING_BUFFER_SIZE;
        assert(self@ =~= old_view.drop_first());
        Some(event)
    }

    pub fn len(&self) -> (n: usize)
        requires
            self.wf(),
        ensures
            n == self@.len(),
            n <= Self::spec_capacity(),
    {
        (self.tail + RING_BUFFER_SIZE - self.head) % RING_BUFFER_SIZE
    }

    pub fn is_empty(&self) -> (b: bool)
        requires
            self.wf(),
        ensures
            b == (self@.len() == 0),
    {
        self.len() == 0
    }

    pub fn capacity(&self) -> (c: usize)
        ensures
            c == Self::spec_capacity(),
    {
        RING_BUFFER_SIZE - 1
    }

}

impl Default for RingBuffer {
    fn default() -> Self {
        Self::new()
    }
}

} // verus!
