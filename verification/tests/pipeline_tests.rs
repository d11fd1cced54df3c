use syscallmind::common::{zero_pubkey, zero_tx_id, SyscallTraceEvent, TransactionId};
use syscallmind::pipeline::arrow_serializer::{frame_records, split_records, ArrowSerializer};
use syscallmind::pipeline::ring_buffer::RingBuffer;
use syscallmind::pipeline::window_builder::WindowBuilder;

fn event(id: u32) -> SyscallTraceEvent {
    SyscallTraceEvent {
        program_id: zero_pubkey(),
        syscall_id: id,
        args_hash: id as u64,
        timestamp_ns: 0,
        slot: 1,
        transaction_id: zero_tx_id(),
        depth: 0,
    }
}

fn tx_event(syscall_id: u32, tx: TransactionId) -> SyscallTraceEvent {
    SyscallTraceEvent {
        program_id: zero_pubkey(),
        syscall_id,
        args_hash: 0,
        timestamp_ns: syscall_id as u64 * 1000,
        slot: 1,
        transaction_id: tx,
        depth: 0,
    }
}

#[test]
fn push_and_pop() {
    let mut rb = RingBuffer::new();
    assert!(rb.push(event(1)));
    assert!(rb.push(event(2)));
    assert_eq!(rb.len(), 2);
    assert_eq!(rb.pop().unwrap().syscall_id, 1);
    assert_eq!(rb.pop().unwrap().syscall_id, 2);
    assert!(rb.pop().is_none());
}

#[test]
fn full_returns_false() {
    let mut rb = RingBuffer::new();
    for i in 0..rb.capacity() {
        assert!(rb.push(event(i as u32)));
    }
    assert!(!rb.push(event(9999)));
}

#[test]
fn empty_is_none() {
    let mut rb = RingBuffer::new();
    assert!(rb.pop().is_none());
    assert!(rb.is_empty());
}

#[test]
fn ordering_preserved() {
    let mut rb = RingBuffer::new();
    for i in 0..10u32 {
        rb.push(event(i));
    }
    for i in 0..10u32 {
        assert_eq!(rb.pop().unwrap().syscall_id, i);
    }
}

#[test]
fn ring_buffer_wraps_around() {
    let mut rb = RingBuffer::new();
    assert_eq!(rb.capacity(), 1023);
    for round in 0..3u32 {
        for i in 0..1000u32 {
            assert!(rb.push(event(round * 1000 + i)));
        }
        for i in 0..1000u32 {
            assert_eq!(rb.pop().unwrap().syscall_id, round * 1000 + i);
        }
    }
    assert!(rb.is_empty());
    for i in 0..1023u32 {
        assert!(rb.push(event(i)));
    }
    assert_eq!(rb.len(), 1023);
    assert!(!rb.push(event(5)));
    assert_eq!(rb.pop().unwrap().syscall_id, 0);
    assert!(rb.push(event(5)));
}

#[test]
fn ingest_and_finalize() {
    let mut wb = WindowBuilder::new(64);
    let tx = zero_tx_id();
    wb.ingest(tx_event(1, tx));
    wb.ingest(tx_event(2, tx));
    let w = wb.finalize(tx).unwrap();
    assert_eq!(w.events.len(), 2);
    assert_eq!(w.syscall_ids(), vec![1, 2]);
}

#[test]
fn finalize_unknown_tx_returns_none() {
    let mut wb = WindowBuilder::new(64);
    let mut tx = zero_tx_id();
    tx[0] = 99;
    assert!(wb.finalize(tx).is_none());
}

#[test]
fn max_window_size_respected() {
    let mut wb = WindowBuilder::new(3);
    let tx = zero_tx_id();
    for i in 0..10u32 {
        wb.ingest(tx_event(i, tx));
    }
    let w = wb.finalize(tx).unwrap();
    assert_eq!(w.events.len(), 3);
}

#[test]
fn drain_all_clears_pending() {
    let mut wb = WindowBuilder::new(64);
    let tx1 = zero_tx_id();
    let mut tx2 = zero_tx_id();
    tx2[0] = 1;
    wb.ingest(tx_event(1, tx1));
    wb.ingest(tx_event(2, tx2));
    let windows = wb.drain_all();
    assert_eq!(windows.len(), 2);
    assert_eq!(wb.pending_count(), 0);
}

#[test]
fn window_bounds_and_metadata() {
    let mut wb = WindowBuilder::new(64);
    let tx = zero_tx_id();
    let mut a = tx_event(3, tx);
    a.slot = 9;
    wb.ingest(a);
    wb.ingest(tx_event(7, tx));
    assert_eq!(wb.pending_count(), 1);
    let w = wb.finalize(tx).unwrap();
    assert_eq!(w.transaction_id, tx);
    assert_eq!(w.slot, 9);
    assert_eq!(w.start_ts, 3000);
    assert_eq!(w.end_ts, 7000);
    assert_eq!(w.len(), 2);
    assert!(!w.is_empty());
    assert_eq!(wb.pending_count(), 0);
    assert!(wb.finalize(tx).is_none());
}

#[test]
fn zero_size_windows_are_never_produced() {
    let mut wb = WindowBuilder::new(0);
    let tx = zero_tx_id();
    wb.ingest(tx_event(1, tx));
    assert_eq!(wb.pending_count(), 1);
    assert!(wb.drain_all().is_empty());
    wb.ingest(tx_event(1, tx));
    assert!(wb.finalize(tx).is_none());
    assert_eq!(wb.pending_count(), 0);
}

#[test]
fn framing_round_trip() {
    let recs: Vec<Vec<char>> = vec!["{\"a\":1}".chars().collect(), "{\"b\":2}".chars().collect()];
    let framed = frame_records(&recs);
    let text: String = framed.iter().collect();
    assert_eq!(text, "{\"a\":1}\n{\"b\":2}\n");
    assert_eq!(split_records(&framed), recs);
}

#[test]
fn split_skips_blank_lines_and_crlf() {
    let content: Vec<char> = "one\r\n\n   \ntwo\n \u{a0}\t\nthree".chars().collect();
    let recs: Vec<String> = split_records(&content).iter().map(|r| r.iter().collect()).collect();
    assert_eq!(recs, vec!["one".to_string(), "two".to_string(), "three".to_string()]);
}

#[test]
fn serializer_keeps_its_path() {
    let ser = ArrowSerializer::new("/tmp/test_windows.jsonl");
    assert_eq!(ser.output_path(), "/tmp/test_windows.jsonl");
}
