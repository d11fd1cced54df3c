use std::sync::atomic::AtomicU64;
use std::sync::Arc;
use syscallmind::common::{fnv_hash, zero_pubkey, zero_tx_id, SafetyClass, SyscallClass, SyscallTraceEvent};
use syscallmind::runtime::syscall_handler::{trace_event, SyscallHandler};
use syscallmind::runtime::syscall_registry::SyscallRegistry;
use syscallmind::runtime::trace_emitter::{SendOutcome, TraceEmitter};
use syscallmind::syscall_ids::{
    SOL_GET_CLOCK_SYSVAR, SOL_GET_RENT_SYSVAR, SOL_INVOKE_SIGNED, SOL_KECCAK256, SOL_LOG, SOL_MEMCMP,
    SOL_PANIC, SOL_SHA256,
};

fn make_handler_at(slot: u64) -> (SyscallHandler, crossbeam_channel::Receiver<SyscallTraceEvent>) {
    let (emitter, rx) = TraceEmitter::new();
    let slot = Arc::new(AtomicU64::new(slot));
    (SyscallHandler::new(emitter, slot), rx)
}

#[test]
fn clock_sysvar_is_readonly() {
    let reg = SyscallRegistry::new();
    assert_eq!(reg.get_safety(SOL_GET_CLOCK_SYSVAR), SafetyClass::ReadOnly);
    assert_eq!(reg.get_class(SOL_GET_CLOCK_SYSVAR), SyscallClass::SysvarRead);
}

#[test]
fn crypto_syscalls_are_idempotent() {
    let reg = SyscallRegistry::new();
    assert_eq!(reg.get_safety(SOL_SHA256), SafetyClass::Idempotent);
    assert_eq!(reg.get_safety(SOL_KECCAK256), SafetyClass::Idempotent);
}

#[test]
fn panic_is_not_eligible() {
    let reg = SyscallRegistry::new();
    assert!(!reg.is_optimization_eligible(SOL_PANIC));
}

#[test]
fn sysvar_reads_are_eligible() {
    let reg = SyscallRegistry::new();
    assert!(reg.is_optimization_eligible(SOL_GET_CLOCK_SYSVAR));
    assert!(reg.is_optimization_eligible(SOL_GET_RENT_SYSVAR));
}

#[test]
fn unknown_id_defaults_to_state_changing() {
    let reg = SyscallRegistry::new();
    assert_eq!(reg.get_safety(9999), SafetyClass::StateChanging);
    assert!(!reg.is_optimization_eligible(9999));
}

#[test]
fn registry_names_and_ids() {
    let reg = SyscallRegistry::new();
    assert_eq!(reg.get_name(SOL_SHA256), "sol_sha256");
    assert_eq!(reg.get_name(77), "unknown");
    assert_eq!(reg.get_class(77), SyscallClass::Unknown);
    assert_eq!(reg.get_safety(SOL_MEMCMP), SafetyClass::ReadOnly);
    let info = reg.get(SOL_INVOKE_SIGNED).unwrap();
    assert_eq!(info.name, "sol_invoke_signed");
    assert_eq!(info.class, SyscallClass::CPI);
    assert!(reg.get(8).is_none());
    let mut ids = reg.all_ids();
    ids.sort();
    assert_eq!(ids, vec![1, 2, 3, 4, 5, 6, 10, 11, 12, 13, 20, 21, 22, 23, 30, 40, 41, 50, 51, 52, 53, 54, 60, 61]);
}

#[test]
fn emit_and_receive() {
    let (mut emitter, rx) = TraceEmitter::new();
    emitter.emit(trace_event(zero_pubkey(), 1, b"", zero_tx_id(), 0, 0, 1));
    let ev = rx.try_recv().unwrap();
    assert_eq!(ev.syscall_id, 1);
}

#[test]
fn full_outcome_counts_a_drop() {
    let (mut emitter, _rx) = TraceEmitter::new();
    emitter.note_outcome(SendOutcome::Sent);
    emitter.note_outcome(SendOutcome::Disconnected);
    assert_eq!(emitter.dropped_count(), 0);
    emitter.note_outcome(SendOutcome::Full);
    assert_eq!(emitter.dropped_count(), 1);
}

#[test]
fn emit_after_receiver_dropped_is_not_a_drop() {
    let (mut emitter, rx) = TraceEmitter::new();
    drop(rx);
    emitter.emit(trace_event(zero_pubkey(), 1, b"", zero_tx_id(), 0, 0, 1));
    assert_eq!(emitter.dropped_count(), 0);
}

#[test]
fn trace_event_fields() {
    let mut tx = zero_tx_id();
    tx[3] = 9;
    let ev = trace_event([5u8; 32], SOL_LOG, b"abc", tx, 2, 1234, 77);
    assert_eq!(ev.program_id, [5u8; 32]);
    assert_eq!(ev.syscall_id, SOL_LOG);
    assert_eq!(ev.args_hash, fnv_hash(b"abc"));
    assert_eq!(ev.timestamp_ns, 1234);
    assert_eq!(ev.slot, 77);
    assert_eq!(ev.transaction_id, tx);
    assert_eq!(ev.depth, 2);
}

#[test]
fn handle_emits_trace_event() {
    let (mut handler, rx) = make_handler_at(1);
    handler.handle(zero_pubkey(), SOL_GET_CLOCK_SYSVAR, b"", zero_tx_id(), 0);
    let ev = rx.try_recv().expect("should have event");
    assert_eq!(ev.syscall_id, SOL_GET_CLOCK_SYSVAR);
    assert_eq!(ev.slot, 1);
}

#[test]
fn stats_increments_per_syscall() {
    let (mut handler, _rx) = make_handler_at(1);
    handler.handle(zero_pubkey(), SOL_SHA256, b"data", zero_tx_id(), 0);
    handler.handle(zero_pubkey(), SOL_SHA256, b"data2", zero_tx_id(), 0);
    handler.handle(zero_pubkey(), SOL_KECCAK256, b"x", zero_tx_id(), 0);
    let stats = handler.stats();
    assert_eq!(stats[&SOL_SHA256], 2);
    assert_eq!(stats[&SOL_KECCAK256], 1);
}

#[test]
fn total_calls_accumulates() {
    let (mut handler, _rx) = make_handler_at(1);
    for _ in 0..5 {
        handler.handle(zero_pubkey(), SOL_LOG, b"msg", zero_tx_id(), 0);
    }
    assert_eq!(handler.total_calls(), 5);
}

#[test]
fn state_changing_syscall_not_eligible() {
    let (mut handler, _rx) = make_handler_at(1);
    let eligible = handler.handle(zero_pubkey(), SOL_PANIC, b"", zero_tx_id(), 0);
    assert!(!eligible);
}

#[test]
fn readonly_syscall_is_eligible() {
    let (mut handler, _rx) = make_handler_at(1);
    let eligible = handler.handle(zero_pubkey(), SOL_GET_CLOCK_SYSVAR, b"", zero_tx_id(), 0);
    assert!(eligible);
}

#[test]
fn handle_records_slot_in_event() {
    let (mut handler, rx) = make_handler_at(42);
    handler.handle(zero_pubkey(), SOL_GET_CLOCK_SYSVAR, b"", zero_tx_id(), 0);
    let ev = rx.try_recv().unwrap();
    assert_eq!(ev.slot, 42);
}

#[test]
fn handle_computes_args_hash() {
    let (mut handler, rx) = make_handler_at(42);
    handler.handle(zero_pubkey(), SOL_SHA256, b"hello", zero_tx_id(), 0);
    let ev = rx.try_recv().unwrap();
    // Hash must be non-zero for non-empty input
    assert_ne!(ev.args_hash, 0);
    assert_eq!(ev.args_hash, fnv_hash(b"hello"));
}

#[test]
fn multiple_calls_produce_multiple_events() {
    let (mut handler, rx) = make_handler_at(42);
    handler.handle(zero_pubkey(), SOL_LOG, b"a", zero_tx_id(), 0);
    handler.handle(zero_pubkey(), SOL_LOG, b"b", zero_tx_id(), 0);
    handler.handle(zero_pubkey(), SOL_LOG, b"c", zero_tx_id(), 0);
    assert_eq!(handler.total_calls(), 3);
    let mut count = 0;
    while rx.try_recv().is_ok() {
        count += 1;
    }
    assert_eq!(count, 3);
}

#[test]
fn depth_is_recorded() {
    let (mut handler, rx) = make_handler_at(42);
    handler.handle(zero_pubkey(), SOL_INVOKE_SIGNED, b"", zero_tx_id(), 3);
    let ev = rx.try_recv().unwrap();
    assert_eq!(ev.depth, 3);
}

#[test]
fn advance_slot_moves_the_shared_counter() {
    let (emitter, rx) = TraceEmitter::new();
    let slot = Arc::new(AtomicU64::new(7));
    let mut handler = SyscallHandler::new(emitter, slot.clone());
    handler.advance_slot();
    handler.handle(zero_pubkey(), SOL_LOG, b"", zero_tx_id(), 0);
    assert_eq!(rx.try_recv().unwrap().slot, 8);
    assert_eq!(slot.load(std::sync::atomic::Ordering::Relaxed), 8);
    assert!(handler.registry().is_optimization_eligible(SOL_LOG));
}

#[test]
fn registry_and_classifier_agree_on_eligibility() {
    let registry = SyscallRegistry::new();
    let classifier = syscallmind::safety::classifier::SyscallClassifier::new();
    for id in 0..100u32 {
        assert_eq!(registry.is_optimization_eligible(id), classifier.is_optimization_eligible(id));
    }
}

fn make_event(id: u32) -> SyscallTraceEvent {
    SyscallTraceEvent {
        program_id: zero_pubkey(),
        syscall_id: id,
        args_hash: 0,
        timestamp_ns: 0,
        slot: 1,
        transaction_id: zero_tx_id(),
        depth: 0,
    }
}

#[test]
fn dropped_count_increments_when_full() {
    let (tx, _rx) = crossbeam_channel::bounded::<SyscallTraceEvent>(2);
    // Fill it manually
    let _ = tx.try_send(make_event(1));
    let _ = tx.try_send(make_event(2));
    // Now construct an emitter over a saturated channel to test drop path
    let mut emitter = TraceEmitter::from_sender(tx);
    emitter.emit(make_event(3));
    assert_eq!(emitter.dropped_count(), 1);
}

#[test]
fn emitter_channel_is_bounded_at_its_capacity() {
    let (_emitter, rx) = TraceEmitter::new();
    assert_eq!(rx.capacity(), Some(syscallmind::runtime::trace_emitter::CHANNEL_CAPACITY));
}
