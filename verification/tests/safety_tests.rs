use syscallmind::common::{zero_pubkey, zero_tx_id, SafetyClass, SyscallTraceEvent};
use syscallmind::safety::classifier::SyscallClassifier;
use syscallmind::safety::dependency_checker::DependencyChecker;
use syscallmind::safety::validator::{OptimizationKind, SafetyValidator};
use syscallmind::syscall_ids::{
    SOL_GET_CLOCK_SYSVAR, SOL_GET_RENT_SYSVAR, SOL_GET_RETURN_DATA, SOL_INVOKE_SIGNED, SOL_LOG,
    SOL_MEMCMP, SOL_PANIC, SOL_SET_RETURN_DATA, SOL_SHA256,
};

fn ev(syscall_id: u32) -> SyscallTraceEvent {
    SyscallTraceEvent {
        program_id: zero_pubkey(),
        syscall_id,
        args_hash: 0,
        timestamp_ns: 0,
        slot: 1,
        transaction_id: zero_tx_id(),
        depth: 0,
    }
}

fn validator() -> SafetyValidator {
    SafetyValidator::new(true)
}

#[test]
fn sysvar_reads_are_readonly() {
    let c = SyscallClassifier::new();
    assert_eq!(c.classify(SOL_GET_CLOCK_SYSVAR), SafetyClass::ReadOnly);
    assert_eq!(c.classify(SOL_GET_RENT_SYSVAR), SafetyClass::ReadOnly);
}

#[test]
fn crypto_is_idempotent() {
    let c = SyscallClassifier::new();
    assert_eq!(c.classify(SOL_SHA256), SafetyClass::Idempotent);
    assert!(c.is_optimization_eligible(SOL_SHA256));
}

#[test]
fn panic_is_state_changing() {
    let c = SyscallClassifier::new();
    assert_eq!(c.classify(SOL_PANIC), SafetyClass::StateChanging);
    assert!(!c.is_optimization_eligible(SOL_PANIC));
}

#[test]
fn invoke_signed_is_order_sensitive() {
    let c = SyscallClassifier::new();
    assert_eq!(c.classify(SOL_INVOKE_SIGNED), SafetyClass::OrderSensitive);
    assert!(!c.is_optimization_eligible(SOL_INVOKE_SIGNED));
}

#[test]
fn unknown_id_is_state_changing() {
    let c = SyscallClassifier::new();
    assert_eq!(c.classify(9999), SafetyClass::StateChanging);
}

#[test]
fn can_reorder_both_readonly() {
    assert!(SyscallClassifier::can_reorder(SOL_GET_CLOCK_SYSVAR, SOL_GET_RENT_SYSVAR));
}

#[test]
fn cannot_reorder_if_one_is_idempotent() {
    assert!(!SyscallClassifier::can_reorder(SOL_GET_CLOCK_SYSVAR, SOL_SHA256));
}

#[test]
fn classifier_memcmp_is_idempotent() {
    let c = SyscallClassifier::new();
    assert_eq!(c.classify(SOL_MEMCMP), SafetyClass::Idempotent);
}

#[test]
fn no_deps_for_all_readonly() {
    let seq = vec![ev(SOL_GET_CLOCK_SYSVAR), ev(SOL_GET_RENT_SYSVAR)];
    assert!(!DependencyChecker::has_dependencies(&seq));
    assert!(DependencyChecker::is_safe_to_reorder(&seq));
}

#[test]
fn dep_detected_after_state_change() {
    let seq = vec![ev(SOL_SET_RETURN_DATA), ev(SOL_GET_RETURN_DATA)];
    let deps = DependencyChecker::check_sequence(&seq);
    assert!(!deps.is_empty());
    assert_eq!(deps[0].from_index, 0);
    assert_eq!(deps[0].to_index, 1);
}

#[test]
fn mixed_sequence_not_safe_to_reorder() {
    let seq = vec![ev(SOL_GET_CLOCK_SYSVAR), ev(SOL_SHA256)];
    // SHA256 is Idempotent, not ReadOnly → not safe to reorder
    assert!(!DependencyChecker::is_safe_to_reorder(&seq));
}

#[test]
fn dependency_reason_and_order() {
    // writes at 0 and 2; reads at 1 and 3; a write is not read.
    let seq = vec![ev(SOL_SET_RETURN_DATA), ev(SOL_GET_RETURN_DATA), ev(SOL_PANIC), ev(SOL_LOG)];
    let deps = DependencyChecker::check_sequence(&seq);
    let pairs: Vec<(usize, usize)> = deps.iter().map(|d| (d.from_index, d.to_index)).collect();
    assert_eq!(pairs, vec![(0, 1), (0, 3), (2, 3)]);
    assert_eq!(deps[0].reason, "syscall[0] (id=40) mutates state read by syscall[1] (id=41)");
    assert_eq!(deps[2].reason, "syscall[2] (id=60) mutates state read by syscall[3] (id=10)");
}

#[test]
fn dependencies_need_same_program() {
    let mut other = ev(SOL_GET_RETURN_DATA);
    other.program_id[0] = 7;
    let seq = vec![ev(SOL_SET_RETURN_DATA), other];
    assert!(!DependencyChecker::has_dependencies(&seq));
    assert!(!DependencyChecker::is_safe_to_reorder(&seq));
}

#[test]
fn cache_approved_for_readonly() {
    let v = validator();
    assert!(v.validate_cache(SOL_GET_CLOCK_SYSVAR).approved);
}

#[test]
fn cache_rejected_for_state_changing() {
    let v = validator();
    assert!(!v.validate_cache(SOL_PANIC).approved);
    assert!(!v.validate_cache(SOL_INVOKE_SIGNED).approved);
}

#[test]
fn batch_approved_for_sysvar_reads() {
    let v = validator();
    assert!(v.validate_batch(&[SOL_GET_CLOCK_SYSVAR, SOL_GET_RENT_SYSVAR]).approved);
}

#[test]
fn batch_rejected_if_any_ineligible() {
    let v = validator();
    assert!(!v.validate_batch(&[SOL_GET_CLOCK_SYSVAR, SOL_PANIC]).approved);
}

#[test]
fn reorder_approved_for_all_readonly() {
    let v = validator();
    let seq = vec![ev(SOL_GET_CLOCK_SYSVAR), ev(SOL_GET_RENT_SYSVAR)];
    assert!(v.validate_reorder(&seq).approved);
}

#[test]
fn reorder_rejected_with_state_change() {
    let v = validator();
    let seq = vec![ev(SOL_SET_RETURN_DATA), ev(SOL_GET_RETURN_DATA)];
    assert!(!v.validate_reorder(&seq).approved);
}

#[test]
fn dedup_approved_for_crypto() {
    let v = validator();
    assert!(v.validate_dedup(SOL_SHA256).approved);
}

#[test]
fn dedup_rejected_for_state_changing() {
    let v = validator();
    assert!(!v.validate_dedup(SOL_SET_RETURN_DATA).approved);
}

#[test]
fn validation_reasons() {
    let v = validator();
    let r = v.validate_cache(SOL_PANIC);
    assert_eq!(r.kind, OptimizationKind::Cache);
    assert_eq!(r.reason, "syscall 60 is StateChanging — not cacheable");
    assert_eq!(v.validate_cache(SOL_SHA256).reason, "syscall 20 is Idempotent — cacheable");
    let b = v.validate_batch(&[SOL_GET_CLOCK_SYSVAR, SOL_PANIC, SOL_INVOKE_SIGNED]);
    assert_eq!(b.kind, OptimizationKind::Batch);
    assert_eq!(b.reason, "syscall 60 is not eligible for batching");
    assert_eq!(v.validate_batch(&[]).reason, "all syscalls are batch-eligible");
    let d = v.validate_dedup(SOL_INVOKE_SIGNED);
    assert_eq!(d.reason, "syscall 30 is OrderSensitive — dedup would alter semantics");
    assert_eq!(v.validate_dedup(SOL_LOG).reason, "idempotent — dedup safe");
}

#[test]
fn reorder_reasons() {
    let v = validator();
    let dep = v.validate_reorder(&[ev(SOL_SET_RETURN_DATA), ev(SOL_GET_RETURN_DATA)]);
    assert_eq!(dep.kind, OptimizationKind::Reorder);
    assert_eq!(dep.reason, "sequence has data dependencies — reordering unsafe");
    let mixed = v.validate_reorder(&[ev(SOL_GET_CLOCK_SYSVAR), ev(SOL_SHA256)]);
    assert!(!mixed.approved);
    assert_eq!(mixed.reason, "sequence contains non-ReadOnly syscalls — reordering not permitted");
    let ok = v.validate_reorder(&[ev(SOL_GET_CLOCK_SYSVAR)]);
    assert_eq!(ok.reason, "all syscalls are ReadOnly and dependency-free");
}

#[test]
fn determinism_off_approves_any_cache() {
    let v = SafetyValidator::new(false);
    let r = v.validate_cache(SOL_PANIC);
    assert!(r.approved);
    assert_eq!(r.reason, "determinism not enforced");
}

#[test]
fn gate_refuses_every_optimization_of_mutating_syscalls() {
    let v = validator();
    for id in [SOL_SET_RETURN_DATA, SOL_PANIC, SOL_INVOKE_SIGNED, 999] {
        assert!(!v.validate_cache(id).approved);
        assert!(!v.validate_dedup(id).approved);
        assert!(!v.validate_batch(&[SOL_GET_CLOCK_SYSVAR, id]).approved);
        assert!(!v.validate_reorder(&[ev(SOL_GET_CLOCK_SYSVAR), ev(id)]).approved);
        assert!(!SyscallClassifier::can_reorder(id, SOL_GET_CLOCK_SYSVAR));
        assert!(!SyscallClassifier::can_reorder(SOL_GET_CLOCK_SYSVAR, id));
    }
}
