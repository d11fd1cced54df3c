//! Interception of syscalls: hashing, trace emission, call accounting and the
//! optimization-eligibility answer.

use std::collections::HashMap;
use std::sync::atomic::AtomicU64;
use std::sync::atomic::Ordering;
use std::sync::Arc;
use std::time::{Duration, SystemTime, UNIX_EPOCH};
use vstd::prelude::*;
use crate::common::{fnv_hash, spec_fnv_hash, Pubkey, SyscallId, SyscallTraceEvent, TransactionId};
use crate::runtime::syscall_registry::{registry_safety, registry_table, SyscallRegistry};
use crate::runtime::trace_emitter::{accepted, SendOutcome, TraceEmitter};

verus! {

broadcast use vstd::std_specs::hash::group_hash_axioms;

#[verifier::external_type_specification]
#[verifier::external_body]
pub struct ExSystemTime(SystemTime);

/// Calls `SystemTime::now`. The time is not a function of anything here, so nothing is
/// stated of it.
#[verifier::external_body]
fn system_now() -> SystemTime {
    SystemTime::now()
}

/// Calls `SystemTime::duration_since(UNIX_EPOCH)`: `None` when `t` lies before the Unix
/// epoch. Nothing is stated of the result, which depends on the opaque time `t`.
#[verifier::external_body]
fn since_unix_epoch(t: SystemTime) -> Option<Duration> {
    t.duration_since(UNIX_EPOCH).ok()
}

/// Calls `Duration::as_nanos`. Nothing is stated of the result, which depends on the
/// opaque duration `d`.
#[verifier::external_body]
fn duration_nanos(d: Duration) -> u128 {
    d.as_nanos()
}

/// The system clock as nanoseconds since the Unix epoch (truncated to 64 bits), 0 when the
/// clock is before the epoch.
fn unix_time_ns() -> u64 {
    match since_unix_epoch(system_now()) {
        Some(d) => duration_nanos(d) as u64,
        None => 0,
    }
}

fn load_slot(slot: &Arc<AtomicU64>) -> u64 {
    slot.load(Ordering::Relaxed)
}

fn bump_slot(slot: &Arc<AtomicU64>) {
    slot.fetch_add(1, Ordering::Relaxed);
}

/// The trace event describing one intercepted call.
pub open spec fn spec_trace_event(
    program_id: Pubkey,
    syscall_id: SyscallId,
    args: Seq<u8>,
    tx_id: TransactionId,
    depth: u8,
    timestamp_ns: u64,
    slot: u64,
) -> SyscallTraceEvent {
    SyscallTraceEvent {
        program_id,
        syscall_id,
        args_hash: spec_fnv_hash(args),
        timestamp_ns,
        slot,
        transaction_id: tx_id,
        depth,
    }
}

/// Builds the trace event for a call: the arguments are hashed with FNV-1a.
pub fn trace_event(
    program_id: Pubkey,
    syscall_id: SyscallId,
    args: &[u8],
    tx_id: TransactionId,
    depth: u8,
    timestamp_ns: u64,
    slot: u64,
) -> (e: SyscallTraceEvent)
    ensures
        e == spec_trace_event(program_id, syscall_id, args@, tx_id, depth, timestamp_ns, slot),
{
    SyscallTraceEvent {
        program_id,
        syscall_id,
        args_hash: fnv_hash(args),
        timestamp_ns,
        slot,
        transaction_id: tx_id,
        depth,
    }
}

/// Per-syscall call count: absent IDs count zero.
pub open spec fn count_of(m: Map<SyscallId, u64>, id: SyscallId) -> int {
    if m.contains_key(id) { m[id] as int } else { 0 }
}

pub struct SyscallHandler {
    registry: SyscallRegistry,
    emitter: TraceEmitter,
    current_slot: Arc<AtomicU64>,
    call_counts: HashMap<SyscallId, u64>,
    total_calls: u64,
}

impl SyscallHandler {
    /// Calls handled so far, per syscall ID.
    pub closed spec fn spec_counts(&self) -> Map<SyscallId, u64> {
        self.call_counts@
    }

    /// All calls handled so far (a wrapping counter).
    pub closed spec fn spec_total_calls(&self) -> u64 {
        self.total_calls
    }

    pub closed spec fn spec_dropped(&self) -> u64 {
        self.emitter.spec_dropped()
    }

    /// Every trace event handed to the channel so far, with the outcome of its send.
    pub closed spec fn spec_sends(&self) -> Seq<(SyscallTraceEvent, SendOutcome)> {
        self.emitter.spec_sends()
    }

    /// The events the trace channel has accepted from this handler's emitter.
    pub closed spec fn spec_accepted(&self) -> Seq<SyscallTraceEvent> {
        accepted(self.emitter.spec_sender())
    }

    pub fn new(emitter: TraceEmitter, slot: Arc<AtomicU64>) -> (h: Self)
        ensures
            h.spec_counts() == Map::<SyscallId, u64>::empty(),
            h.spec_total_calls() == 0,
            h.spec_dropped() == emitter.spec_dropped(),
            h.spec_sends() == emitter.spec_sends(),
            h.spec_accepted() == accepted(emitter.spec_sender()),
    {
        SyscallHandler {
            registry: SyscallRegistry::new(),
            emitter,
            current_slot: slot,
            call_counts: HashMap::new(),
            total_calls: 0,
        }
    }

    /// Intercept a syscall invocation: emit its trace event (stamped with the current time
    /// and slot), count it, and return whether the syscall is eligible for optimization.
    pub fn handle(
        &mut self,
        program_id: Pubkey,
        syscall_id: SyscallId,
        args: &[u8],
        tx_id: TransactionId,
        depth: u8,
    ) -> (eligible: bool)
        requires
            count_of(old(self).spec_counts(), syscall_id) < u64::MAX,
        ensures
            eligible == registry_safety(syscall_id).spec_eligible(),
            final(self).spec_counts() == old(self).spec_counts().insert(
                syscall_id,
                (count_of(old(self).spec_counts(), syscall_id) + 1) as u64,
            ),
            final(self).spec_total_calls() == (old(self).spec_total_calls() + 1) % 0x1_0000_0000_0000_0000,
            final(self).spec_sends().len() == old(self).spec_sends().len() + 1,
            final(self).spec_sends().drop_last() == old(self).spec_sends(),
            exists|timestamp_ns: u64, slot: u64| final(self).spec_sends().last().0
                == #[trigger] spec_trace_event(program_id, syscall_id, args@, tx_id, depth, timestamp_ns, slot),
            final(self).spec_accepted() == if final(self).spec_sends().last().1 == SendOutcome::Sent {
                old(self).spec_accepted().push(final(self).spec_sends().last().0)
            } else {
                old(self).spec_accepted()
            },
            final(self).spec_dropped() == if final(self).spec_sends().last().1 == SendOutcome::Full {
                (old(self).spec_dropped() + 1) % 0x1_0000_0000_0000_0000
            } else {
                old(self).spec_dropped() as int
            },
    {
        let timestamp_ns = unix_time_ns();
        let slot = load_slot(&self.current_slot);
        let event = trace_event(program_id, syscall_id, args, tx_id, depth, timestamp_ns, slot);
        self.emitter.emit(event);
        self.total_calls = self.total_calls.wrapping_add(1);
        let count = match self.call_counts.get(&syscall_id) {
            Some(c) => *c,
            None => 0,
        };
        self.call_counts.insert(syscall_id, count + 1);
        self.registry.is_optimization_eligible(syscall_id)
    }

    /// A copy of the per-syscall call counts.
    pub fn stats(&self) -> (m: HashMap<SyscallId, u64>)
        ensures
            m@ == self.spec_counts(),
    {
        self.call_counts.clone()
    }

    pub fn total_calls(&self) -> (n: u64)
        ensures
            n == self.spec_total_calls(),
    {
        self.total_calls
    }

    /// The registry that answers eligibility: it holds exactly the registry table.
    pub fn registry(&self) -> (r: &SyscallRegistry)
        ensures
            r@ == registry_table(),
    {
        proof {
            use_type_invariant(&self.registry);
            SyscallRegistry::lemma_view_is_table(&self.registry);
        }
        &self.registry
    }

    /// Advances the shared slot counter by one.
    pub fn advance_slot(&self) {
        bump_slot(&self.current_slot);
    }
}

} // verus!
