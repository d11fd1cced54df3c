use syscallmind::anomaly::{window_stats, AnomalyAction};
use syscallmind::common::{zero_pubkey, zero_tx_id, SyscallTraceEvent};
use syscallmind::inference::reorder_safe_ids;
use syscallmind::syscall_ids::{
    SOL_GET_CLOCK_SYSVAR, SOL_GET_RENT_SYSVAR, SOL_INVOKE_SIGNED, SOL_KECCAK256, SOL_LOG,
    SOL_SECP256K1_RECOVER, SOL_SET_RETURN_DATA, SOL_SHA256,
};
use syscallmind::workload::{
    defi_sequence, generate_mock_windows, generate_syscall_sequence, mock_window, next_clock, nft_sequence,
    replay_event, replay_tx_id, token_transfer_sequence, workload_start,
    workload_window, WorkloadClock,
    WorkloadProfile,
};

fn make_events(ids: &[u32]) -> Vec<SyscallTraceEvent> {
    ids.iter()
        .enumerate()
        .map(|(i, &id)| SyscallTraceEvent {
            program_id: zero_pubkey(),
            syscall_id: id,
            args_hash: 0,
            timestamp_ns: i as u64 * 1000,
            slot: 1,
            transaction_id: zero_tx_id(),
            depth: (i % 4) as u8,
        })
        .collect()
}

#[test]
fn reorder_safe_for_low_ids() {
    assert!(reorder_safe_ids(&[1, 2, 3, 20, 21]));
}

#[test]
fn reorder_not_safe_with_high_id() {
    assert!(!reorder_safe_ids(&[1, 2, SOL_INVOKE_SIGNED]));
}

#[test]
fn reorder_safe_boundary() {
    assert!(reorder_safe_ids(&[29]));
    assert!(!reorder_safe_ids(&[30]));
    assert!(reorder_safe_ids(&[]));
}

#[test]
fn window_stats_counts_calls() {
    let events = make_events(&[1, 1, SOL_SHA256, SOL_KECCAK256, SOL_LOG, 1]);
    let s = window_stats(&events);
    assert_eq!(s.counts, vec![(1, 3), (SOL_SHA256, 1), (SOL_KECCAK256, 1), (SOL_LOG, 1)]);
    assert_eq!(s.total, 6);
    assert_eq!(s.crypto_count, 2);
    assert_eq!(s.max_depth, 3);
    let sum: u64 = s.counts.iter().map(|c| c.1).sum();
    assert_eq!(sum, s.total);
    let empty = window_stats(&[]);
    assert!(empty.counts.is_empty());
    assert_eq!((empty.total, empty.crypto_count, empty.max_depth), (0, 0, 0));
}

#[test]
fn anomaly_actions_are_distinct() {
    assert_ne!(AnomalyAction::Log, AnomalyAction::Throttle);
    assert_ne!(AnomalyAction::Throttle, AnomalyAction::Halt);
}

#[test]
fn generated_sequences_fit_their_profiles() {
    let mut rng = rand::thread_rng();
    for _ in 0..50 {
        let d = generate_syscall_sequence(WorkloadProfile::DeFi, &mut rng);
        assert!(d.len() >= 6 && d.len() <= 11);
        assert_eq!(&d[..2], &[SOL_GET_CLOCK_SYSVAR, SOL_GET_RENT_SYSVAR]);
        assert_eq!(&d[d.len() - 2..], &[SOL_INVOKE_SIGNED, SOL_LOG]);
        assert!(d[2..d.len() - 2].iter().all(|&id| id == SOL_SHA256 || id == SOL_KECCAK256 || id == SOL_SECP256K1_RECOVER));
        let n = generate_syscall_sequence(WorkloadProfile::Nft, &mut rng);
        assert!(n.len() >= 7 && n.len() <= 13);
        assert_eq!(n[0], SOL_GET_CLOCK_SYSVAR);
        assert_eq!(&n[n.len() - 3..], &[SOL_SHA256, SOL_INVOKE_SIGNED, SOL_SET_RETURN_DATA]);
        assert!(n[1..n.len() - 3].iter().all(|&id| id == SOL_LOG));
    }
    let t = generate_syscall_sequence(WorkloadProfile::TokenTransfer, &mut rng);
    assert_eq!(t, vec![SOL_GET_CLOCK_SYSVAR, SOL_GET_RENT_SYSVAR, SOL_LOG, SOL_INVOKE_SIGNED, SOL_SET_RETURN_DATA]);
}

#[test]
fn mock_windows_follow_the_snapshot_layout() {
    let mut rng = rand::thread_rng();
    let windows = generate_mock_windows(&mut rng);
    assert_eq!(windows.len(), 1000);
    let pool = [SOL_GET_CLOCK_SYSVAR, SOL_GET_RENT_SYSVAR, SOL_SHA256, SOL_KECCAK256, SOL_LOG, SOL_INVOKE_SIGNED];
    for (idx, w) in windows.iter().enumerate() {
        let idx = idx as u64;
        assert_eq!(w.transaction_id.len(), 32);
        assert_eq!(w.slot, idx / 432 + 280_000_000);
        assert!(w.events.len() >= 3 && w.events.len() <= 9);
        for (i, e) in w.events.iter().enumerate() {
            assert!(pool.contains(&e.syscall_id));
            assert_eq!(e.timestamp_ns, idx * 1_000_000 + i as u64 * 400_000);
            assert_eq!(e.args_hash, (e.syscall_id as u64 * 7919) ^ idx);
        }
    }
    assert_eq!(windows[433].slot, 280_000_001);
    assert_eq!(windows[999].events[0].timestamp_ns, 999_000_000);
}

#[test]
fn workload_windows_are_stamped_from_the_clock() {
    let clock = workload_start();
    assert_eq!(clock, WorkloadClock { slot: 280_000_000, ts: 1_700_000_000_000_000_000 });
    let w = workload_window(clock, 2, &[SOL_GET_CLOCK_SYSVAR, SOL_SHA256]);
    assert_eq!((w.slot, w.start_ts, w.end_ts), (280_000_000, 1_700_000_000_000_000_000, 1_700_000_000_000_800_000));
    assert_eq!(w.events.len(), 2);
    assert_eq!(w.events[0].syscall_id, SOL_GET_CLOCK_SYSVAR);
    assert_eq!(w.events[0].args_hash, 7919 ^ 62);
    assert_eq!(w.events[1].args_hash, (20 * 7919) ^ 62);
    assert_eq!(w.events[1].timestamp_ns, 1_700_000_000_000_400_000);
    assert_eq!(w.events[1].slot, 280_000_000);
}

#[test]
fn workload_clock_advances_per_transaction_and_slot() {
    let clock = workload_start();
    let after_first = next_clock(clock, 0, 5);
    assert_eq!(after_first, WorkloadClock { slot: 280_000_001, ts: 1_700_000_000_002_050_000 });
    let after_second = next_clock(after_first, 1, 2);
    assert_eq!(after_second, WorkloadClock { slot: 280_000_001, ts: 1_700_000_000_002_900_000 });
    assert_eq!(next_clock(after_second, 432, 0).slot, 280_000_002);
}

#[test]
fn replay_records_read_with_defaults() {
    let e = replay_event(None, None, None, zero_tx_id());
    assert_eq!((e.syscall_id, e.args_hash, e.timestamp_ns, e.slot, e.depth), (1, 7919, 0, 0, 0));
    assert_eq!(e.program_id, zero_pubkey());
    let mut tx = zero_tx_id();
    tx[0] = 9;
    let e = replay_event(Some(20), Some(1_000), Some(280_000_000), tx);
    assert_eq!((e.syscall_id, e.args_hash, e.timestamp_ns, e.slot), (20, 20 * 7919, 1_000, 280_000_000));
    assert_eq!(e.transaction_id, tx);
    assert_eq!(replay_event(Some((1u64 << 32) + 5), None, None, tx).syscall_id, 5);
}

#[test]
fn replay_transaction_ids_are_truncated_and_padded() {
    assert_eq!(replay_tx_id(None), zero_tx_id());
    let vals = [Some(1u64), None, Some(256 + 7)];
    let t = replay_tx_id(Some(&vals));
    assert_eq!(&t[..4], &[1, 0, 7, 0]);
    assert!(t[3..].iter().all(|&b| b == 0));
    let long: Vec<Option<u64>> = (0..40).map(|i| Some(i as u64)).collect();
    let t = replay_tx_id(Some(&long));
    assert_eq!(t[31], 31);
}

#[test]
fn profile_sequences_follow_their_draws() {
    assert_eq!(
        defi_sequence(&[1, 2, 0]),
        vec![SOL_GET_CLOCK_SYSVAR, SOL_GET_RENT_SYSVAR, SOL_KECCAK256, SOL_SECP256K1_RECOVER, SOL_SHA256, SOL_INVOKE_SIGNED, SOL_LOG]
    );
    assert_eq!(
        nft_sequence(3),
        vec![SOL_GET_CLOCK_SYSVAR, SOL_LOG, SOL_LOG, SOL_LOG, SOL_SHA256, SOL_INVOKE_SIGNED, SOL_SET_RETURN_DATA]
    );
    assert_eq!(
        token_transfer_sequence(),
        vec![SOL_GET_CLOCK_SYSVAR, SOL_GET_RENT_SYSVAR, SOL_LOG, SOL_INVOKE_SIGNED, SOL_SET_RETURN_DATA]
    );
}

#[test]
fn mock_window_follows_its_draws() {
    let w = mock_window(433, vec![7u8; 32], &[5, 3, 0]);
    assert_eq!(w.transaction_id, vec![7u8; 32]);
    assert_eq!(w.slot, 280_000_001);
    let ids: Vec<u32> = w.events.iter().map(|e| e.syscall_id).collect();
    assert_eq!(ids, vec![SOL_INVOKE_SIGNED, SOL_KECCAK256, SOL_GET_CLOCK_SYSVAR]);
    assert_eq!(w.events[2].timestamp_ns, 433_000_000 + 800_000);
    assert_eq!(w.events[1].args_hash, (21 * 7919) ^ 433);
}
