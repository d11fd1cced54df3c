//! Synthetic syscall sequences that mimic DeFi, NFT and token-transfer transactions, and
//! the mock snapshot that the replay harness falls back on.

use rand::rngs::ThreadRng;
use rand::Rng;
use vstd::prelude::*;
use crate::common::{zero32, zero_pubkey, SyscallId, SyscallTraceEvent, TransactionId};
use crate::syscall_ids::{
    SOL_GET_CLOCK_SYSVAR, SOL_GET_RENT_SYSVAR, SOL_INVOKE_SIGNED, SOL_KECCAK256, SOL_LOG,
    SOL_SECP256K1_RECOVER, SOL_SET_RETURN_DATA, SOL_SHA256,
};

verus! {

#[verifier::external_type_specification]
#[verifier::external_body]
pub struct ExThreadRng(ThreadRng);

/// Calls `Rng::gen_range(low..high)` on the thread-local generator: a value drawn from
/// `low..high` (the range must not be empty).
#[verifier::external_body]
fn draw_index(rng: &mut ThreadRng, low: usize, high: usize) -> (r: usize)
    requires
        low < high,
    ensures
        low <= r < high,
{
    rng.gen_range(low..high)
}

/// Workload profiles that mimic DeFi, NFT, and token transfer patterns.
#[derive(Debug, Clone, Copy, PartialEq, Eq, Structural)]
pub enum WorkloadProfile {
    DeFi,
    Nft,
    TokenTransfer,
}

pub open spec fn is_hash_op(id: u32) -> bool {
    id == SOL_SHA256 || id == SOL_KECCAK256 || id == SOL_SECP256K1_RECOVER
}

/// The shapes a profile's sequences take:
/// DeFi: clock, rent, 2 to 7 crypto calls, invoke, log;
/// NFT: clock, 3 to 9 logs, sha256, invoke, set-return-data;
/// token transfer: clock, rent, log, invoke, set-return-data.
pub open spec fn fits_profile(profile: WorkloadProfile, s: Seq<u32>) -> bool {
    match profile {
        WorkloadProfile::DeFi => {
            &&& 6 <= s.len() <= 11
            &&& s[0] == SOL_GET_CLOCK_SYSVAR
            &&& s[1] == SOL_GET_RENT_SYSVAR
            &&& forall|k: int| 2 <= k < s.len() - 2 ==> is_hash_op(#[trigger] s[k])
            &&& s[s.len() - 2] == SOL_INVOKE_SIGNED
            &&& s[s.len() - 1] == SOL_LOG
        },
        WorkloadProfile::Nft => {
            &&& 7 <= s.len() <= 13
            &&& s[0] == SOL_GET_CLOCK_SYSVAR
            &&& forall|k: int| 1 <= k < s.len() - 3 ==> #[trigger] s[k] == SOL_LOG
            &&& s[s.len() - 3] == SOL_SHA256
            &&& s[s.len() - 2] == SOL_INVOKE_SIGNED
            &&& s[s.len() - 1] == SOL_SET_RETURN_DATA
        },
        WorkloadProfile::TokenTransfer => {
            s == seq![SOL_GET_CLOCK_SYSVAR, SOL_GET_RENT_SYSVAR, SOL_LOG, SOL_INVOKE_SIGNED, SOL_SET_RETURN_DATA]
        },
    }
}

/// The crypto call a DeFi pick selects: SHA-256, Keccak-256 or secp256k1 recovery.
pub open spec fn crypto_pick(p: usize) -> u32 {
    if p == 0 { SOL_SHA256 } else if p == 1 { SOL_KECCAK256 } else { SOL_SECP256K1_RECOVER }
}

/// A DeFi transaction: clock, rent, the picked crypto calls in order, invoke, log.
pub fn defi_sequence(picks: &[usize]) -> (ids: Vec<u32>)
    requires
        forall|k: int| 0 <= k < picks@.len() ==> #[trigger] picks@[k] < 3,
    ensures
        ids@ == seq![SOL_GET_CLOCK_SYSVAR, SOL_GET_RENT_SYSVAR]
            + picks@.map_values(|p: usize| crypto_pick(p))
            + seq![SOL_INVOKE_SIGNED, SOL_LOG],
{
    let crypto: [u32; 3] = [SOL_SHA256, SOL_KECCAK256, SOL_SECP256K1_RECOVER];
    let mut ids: Vec<u32> = Vec::new();
    ids.push(SOL_GET_CLOCK_SYSVAR);
    ids.push(SOL_GET_RENT_SYSVAR);
    let mut i: usize = 0;
    while i < picks.len()
        invariant
            i <= picks@.len(),
            forall|k: int| 0 <= k < picks@.len() ==> #[trigger] picks@[k] < 3,
            crypto@ == seq![SOL_SHA256, SOL_KECCAK256, SOL_SECP256K1_RECOVER],
            ids@ == seq![SOL_GET_CLOCK_SYSVAR, SOL_GET_RENT_SYSVAR]
                + picks@.take(i as int).map_values(|p: usize| crypto_pick(p)),
        decreases picks@.len() - i,
    {
        ids.push(crypto[picks[i]]);
        assert(picks@.take(i + 1).map_values(|p: usize| crypto_pick(p))
            =~= picks@.take(i as int).map_values(|p: usize| crypto_pick(p)).push(crypto_pick(picks@[i as int])));
        i = i + 1;
    }
    assert(picks@.take(picks@.len() as int) =~= picks@);
    ids.push(SOL_INVOKE_SIGNED);
    ids.push(SOL_LOG);
    assert(ids@ =~= seq![SOL_GET_CLOCK_SYSVAR, SOL_GET_RENT_SYSVAR]
        + picks@.map_values(|p: usize| crypto_pick(p))
        + seq![SOL_INVOKE_SIGNED, SOL_LOG]);
    ids
}

/// An NFT transaction: clock, `n_reads` logs, SHA-256, invoke, set-return-data.
pub fn nft_sequence(n_reads: usize) -> (ids: Vec<u32>)
    requires
        n_reads < 10,
    ensures
        ids@ == seq![SOL_GET_CLOCK_SYSVAR] + Seq::new(n_reads as nat, |k: int| SOL_LOG)
            + seq![SOL_SHA256, SOL_INVOKE_SIGNED, SOL_SET_RETURN_DATA],
{
    let mut ids: Vec<u32> = Vec::new();
    ids.push(SOL_GET_CLOCK_SYSVAR);
    let mut i: usize = 0;
    while i < n_reads
        invariant
            i <= n_reads,
            ids@ == seq![SOL_GET_CLOCK_SYSVAR] + Seq::new(i as nat, |k: int| SOL_LOG),
        decreases n_reads - i,
    {
        ids.push(SOL_LOG);
        assert(seq![SOL_GET_CLOCK_SYSVAR] + Seq::new((i + 1) as nat, |k: int| SOL_LOG)
            =~= (seq![SOL_GET_CLOCK_SYSVAR] + Seq::new(i as nat, |k: int| SOL_LOG)).push(SOL_LOG));
        i = i + 1;
    }
    ids.push(SOL_SHA256);
    ids.push(SOL_INVOKE_SIGNED);
    ids.push(SOL_SET_RETURN_DATA);
    assert(ids@ =~= seq![SOL_GET_CLOCK_SYSVAR] + Seq::new(n_reads as nat, |k: int| SOL_LOG)
        + seq![SOL_SHA256, SOL_INVOKE_SIGNED, SOL_SET_RETURN_DATA]);
    ids
}

/// A token transfer: clock, rent, log, invoke, set-return-data.
pub fn token_transfer_sequence() -> (ids: Vec<u32>)
    ensures
        ids@ == seq![SOL_GET_CLOCK_SYSVAR, SOL_GET_RENT_SYSVAR, SOL_LOG, SOL_INVOKE_SIGNED, SOL_SET_RETURN_DATA],
{
    let mut ids: Vec<u32> = Vec::new();
    ids.push(SOL_GET_CLOCK_SYSVAR);
    ids.push(SOL_GET_RENT_SYSVAR);
    ids.push(SOL_LOG);
    ids.push(SOL_INVOKE_SIGNED);
    ids.push(SOL_SET_RETURN_DATA);
    assert(ids@ =~= seq![SOL_GET_CLOCK_SYSVAR, SOL_GET_RENT_SYSVAR, SOL_LOG, SOL_INVOKE_SIGNED, SOL_SET_RETURN_DATA]);
    ids
}

/// Draws one transaction's syscall sequence for a profile: for DeFi, 2 to 7 crypto
/// calls, each drawn from the three kinds; for NFT, 3 to 9 logs.
pub fn generate_syscall_sequence(profile: WorkloadProfile, rng: &mut ThreadRng) -> (ids: Vec<u32>)
    ensures
        fits_profile(profile, ids@),
{
    match profile {
        WorkloadProfile::DeFi => {
            let n_crypto = draw_index(rng, 2, 8);
            let mut picks: Vec<usize> = Vec::new();
            let mut i: usize = 0;
            while i < n_crypto
                invariant
                    i <= n_crypto < 8,
                    picks@.len() == i,
                    forall|k: int| 0 <= k < picks@.len() ==> #[trigger] picks@[k] < 3,
                decreases n_crypto - i,
            {
                picks.push(draw_index(rng, 0, 3));
                i = i + 1;
            }
            let ids = defi_sequence(&picks);
            proof {
                let mid = picks@.map_values(|p: usize| crypto_pick(p));
                assert forall|k: int| 2 <= k < ids@.len() - 2 implies is_hash_op(#[trigger] ids@[k]) by {
                    assert(ids@[k] == mid[k - 2]);
                }
            }
            ids
        },
        WorkloadProfile::Nft => {
            let n_reads = draw_index(rng, 3, 10);
            nft_sequence(n_reads)
        },
        WorkloadProfile::TokenTransfer => token_transfer_sequence(),
    }
}

/// One call of a mock snapshot window.
#[derive(Debug, Clone, Copy)]
pub struct MockEvent {
    pub syscall_id: SyscallId,
    pub timestamp_ns: u64,
    pub args_hash: u64,
}

/// One transaction of a mock snapshot.
#[derive(Debug, Clone)]
pub struct MockWindow {
    pub transaction_id: Vec<u8>,
    pub slot: u64,
    pub events: Vec<MockEvent>,
}

/// Number of transactions in a mock snapshot.
pub const MOCK_TRANSACTIONS: u64 = 1000;

/// The syscalls a mock snapshot draws from.
pub open spec fn is_mock_pool_id(id: u32) -> bool {
    id == SOL_GET_CLOCK_SYSVAR || id == SOL_GET_RENT_SYSVAR || id == SOL_SHA256
        || id == SOL_KECCAK256 || id == SOL_LOG || id == SOL_INVOKE_SIGNED
}

/// The shape of the mock window of transaction number `idx`: 32 random ID bytes, 432
/// transactions per slot from slot 280,000,000, and 3 to 9 calls from the pool, 400 µs
/// apart from the transaction's start at `idx` ms, whose argument hash is
/// `id * 7919 xor idx`.
pub open spec fn is_mock_window(w: MockWindow, idx: u64) -> bool {
    &&& w.transaction_id@.len() == 32
    &&& w.slot == idx / 432 + 280_000_000
    &&& 3 <= w.events@.len() < 10
    &&& forall|i: int| 0 <= i < w.events@.len() ==> {
        let e = #[trigger] w.events@[i];
        &&& is_mock_pool_id(e.syscall_id)
        &&& e.timestamp_ns == idx * 1_000_000 + i * 400_000
        &&& e.args_hash == ((e.syscall_id * 7919) as u64 ^ idx)
    }
}

/// The syscall a mock pick selects from the pool.
pub open spec fn pool_pick(p: usize) -> u32 {
    if p == 0 { SOL_GET_CLOCK_SYSVAR }
    else if p == 1 { SOL_GET_RENT_SYSVAR }
    else if p == 2 { SOL_SHA256 }
    else if p == 3 { SOL_KECCAK256 }
    else if p == 4 { SOL_LOG }
    else { SOL_INVOKE_SIGNED }
}

/// The mock window of transaction number `idx` with the given ID bytes and pool picks:
/// 432 transactions per slot from slot 280,000,000; call `i` is the picked syscall,
/// `idx` ms plus `i` times 400 µs into the snapshot, with argument hash `id * 7919 xor idx`.
pub fn mock_window(idx: u64, tx_bytes: Vec<u8>, picks: &[usize]) -> (w: MockWindow)
    requires
        forall|k: int| 0 <= k < picks@.len() ==> #[trigger] picks@[k] < 6,
        idx * 1_000_000 + picks@.len() * 400_000 <= u64::MAX,
    ensures
        w.transaction_id@ == tx_bytes@,
        w.slot == idx / 432 + 280_000_000,
        w.events@.len() == picks@.len(),
        forall|i: int| 0 <= i < picks@.len() ==> #[trigger] w.events@[i] == (MockEvent {
            syscall_id: pool_pick(picks@[i]),
            timestamp_ns: (idx * 1_000_000 + i * 400_000) as u64,
            args_hash: ((pool_pick(picks@[i]) * 7919) as u64 ^ idx),
        }),
{
    let pool: [u32; 6] = [SOL_GET_CLOCK_SYSVAR, SOL_GET_RENT_SYSVAR, SOL_SHA256, SOL_KECCAK256, SOL_LOG, SOL_INVOKE_SIGNED];
    let mut events: Vec<MockEvent> = Vec::new();
    let n = picks.len();
    let mut i: usize = 0;
    while i < n
        invariant
            n == picks@.len(),
            i <= n,
            forall|k: int| 0 <= k < picks@.len() ==> #[trigger] picks@[k] < 6,
            idx * 1_000_000 + n * 400_000 <= u64::MAX,
            pool@ == seq![SOL_GET_CLOCK_SYSVAR, SOL_GET_RENT_SYSVAR, SOL_SHA256, SOL_KECCAK256, SOL_LOG, SOL_INVOKE_SIGNED],
            events@.len() == i,
            forall|k: int| 0 <= k < i ==> #[trigger] events@[k] == (MockEvent {
                syscall_id: pool_pick(picks@[k]),
                timestamp_ns: (idx * 1_000_000 + k * 400_000) as u64,
                args_hash: ((pool_pick(picks@[k]) * 7919) as u64 ^ idx),
            }),
        decreases n - i,
    {
        let id = pool[picks[i]];
        proof {
            assert(i * 400_000 <= n * 400_000) by (nonlinear_arith)
                requires i <= n;
        }
        let timestamp_ns = idx * 1_000_000 + (i as u64) * 400_000;
        let args_hash = (id as u64 * 7919) ^ idx;
        events.push(MockEvent { syscall_id: id, timestamp_ns, args_hash });
        i = i + 1;
    }
    MockWindow { transaction_id: tx_bytes, slot: idx / 432 + 280_000_000, events }
}

/// Draws the transactions of a mock snapshot: for each, 32 ID bytes, then 3 to 9 calls
/// picked from the pool.
pub fn generate_mock_windows(rng: &mut ThreadRng) -> (windows: Vec<MockWindow>)
    ensures
        windows@.len() == MOCK_TRANSACTIONS,
        forall|idx: int| 0 <= idx < windows@.len() ==> is_mock_window(#[trigger] windows@[idx], idx as u64),
{
    let mut windows: Vec<MockWindow> = Vec::new();
    let mut tx_idx: u64 = 0;
    while tx_idx < MOCK_TRANSACTIONS
        invariant
            tx_idx <= MOCK_TRANSACTIONS,
            windows@.len() == tx_idx,
            forall|idx: int| 0 <= idx < windows@.len() ==> is_mock_window(#[trigger] windows@[idx], idx as u64),
        decreases MOCK_TRANSACTIONS - tx_idx,
    {
        let mut tx_bytes: Vec<u8> = Vec::new();
        let mut b: usize = 0;
        while b < 32
            invariant
                b <= 32,
                tx_bytes@.len() == b,
            decreases 32 - b,
        {
            let byte = draw_index(rng, 0, 256);
            tx_bytes.push(byte as u8);
            b = b + 1;
        }
        let n_events = draw_index(rng, 3, 10);
        let mut picks: Vec<usize> = Vec::new();
        let mut i: usize = 0;
        while i < n_events
            invariant
                i <= n_events < 10,
                picks@.len() == i,
                forall|k: int| 0 <= k < picks@.len() ==> #[trigger] picks@[k] < 6,
            decreases n_events - i,
        {
            picks.push(draw_index(rng, 0, 6));
            i = i + 1;
        }
        let w = mock_window(tx_idx, tx_bytes, &picks);
        proof {
            assert forall|k: int| 0 <= k < w.events@.len() implies is_mock_pool_id(#[trigger] w.events@[k].syscall_id) by {
                assert(w.events@[k].syscall_id == pool_pick(picks@[k]));
            }
        }
        windows.push(w);
        tx_idx = tx_idx + 1;
    }
    windows
}

/// Time between two calls of a generated transaction.
pub const CALL_INTERVAL_NS: u64 = 400_000;

/// Gap between two generated transactions.
pub const TX_GAP_NS: u64 = 50_000;

/// Generated transactions per slot.
pub const TXS_PER_SLOT: u64 = 432;

/// Slot and start time of the next generated transaction.
#[derive(Debug, Clone, Copy, PartialEq, Eq, Structural)]
pub struct WorkloadClock {
    pub slot: u64,
    pub ts: u64,
}

/// One call of a generated transaction.
#[derive(Debug, Clone, Copy)]
pub struct WorkloadEvent {
    pub syscall_id: SyscallId,
    pub args_hash: u64,
    pub timestamp_ns: u64,
    pub slot: u64,
}

/// One generated transaction, as written to the workload file.
#[derive(Debug, Clone)]
pub struct WorkloadWindow {
    pub slot: u64,
    pub events: Vec<WorkloadEvent>,
    pub start_ts: u64,
    pub end_ts: u64,
}

/// The clock where the generator starts.
pub fn workload_start() -> (c: WorkloadClock)
    ensures
        c == (WorkloadClock { slot: 280_000_000, ts: 1_700_000_000_000_000_000 }),
{
    WorkloadClock { slot: 280_000_000, ts: 1_700_000_000_000_000_000 }
}

/// Transaction number `tx_idx` with the calls `ids`, stamped from `clock`: calls are
/// `CALL_INTERVAL_NS` apart, all in the clock's slot, and call `id` hashes its arguments
/// as `id * 7919 xor tx_idx * 31`.
pub fn workload_window(clock: WorkloadClock, tx_idx: u64, ids: &[SyscallId]) -> (w: WorkloadWindow)
    requires
        clock.ts + ids@.len() * CALL_INTERVAL_NS <= u64::MAX,
        tx_idx * 31 <= u64::MAX,
    ensures
        w.slot == clock.slot,
        w.start_ts == clock.ts,
        w.end_ts == clock.ts + ids@.len() * CALL_INTERVAL_NS,
        w.events@.len() == ids@.len(),
        forall|i: int| 0 <= i < ids@.len() ==> #[trigger] w.events@[i] == (WorkloadEvent {
            syscall_id: ids@[i],
            args_hash: ((ids@[i] * 7919) as u64 ^ (tx_idx * 31) as u64),
            timestamp_ns: (clock.ts + i * CALL_INTERVAL_NS) as u64,
            slot: clock.slot,
        }),
{
    let mut events: Vec<WorkloadEvent> = Vec::new();
    let n = ids.len();
    let mut i: usize = 0;
    while i < n
        invariant
            n == ids@.len(),
            i <= n,
            clock.ts + n * CALL_INTERVAL_NS <= u64::MAX,
            tx_idx * 31 <= u64::MAX,
            events@.len() == i,
            forall|k: int| 0 <= k < i ==> #[trigger] events@[k] == (WorkloadEvent {
                syscall_id: ids@[k],
                args_hash: ((ids@[k] * 7919) as u64 ^ (tx_idx * 31) as u64),
                timestamp_ns: (clock.ts + k * CALL_INTERVAL_NS) as u64,
                slot: clock.slot,
            }),
        decreases n - i,
    {
        let id = ids[i];
        proof {
            assert(i * CALL_INTERVAL_NS <= n * CALL_INTERVAL_NS) by (nonlinear_arith)
                requires i <= n;
        }
        let timestamp_ns = clock.ts + (i as u64) * CALL_INTERVAL_NS;
        events.push(WorkloadEvent {
            syscall_id: id,
            args_hash: (id as u64 * 7919) ^ (tx_idx * 31),
            timestamp_ns,
            slot: clock.slot,
        });
        i = i + 1;
    }
    WorkloadWindow { slot: clock.slot, events, start_ts: clock.ts, end_ts: clock.ts + (n as u64) * CALL_INTERVAL_NS }
}

/// The clock after transaction number `tx_idx` with `n_calls` calls: time moves past
/// the calls and the inter-transaction gap, and the slot advances after every
/// `TXS_PER_SLOT`-th transaction (counting from the first).
pub fn next_clock(clock: WorkloadClock, tx_idx: u64, n_calls: u64) -> (c: WorkloadClock)
    requires
        clock.ts + n_calls * CALL_INTERVAL_NS + TX_GAP_NS <= u64::MAX,
        tx_idx % TXS_PER_SLOT == 0 ==> clock.slot < u64::MAX,
    ensures
        c.ts == clock.ts + n_calls * CALL_INTERVAL_NS + TX_GAP_NS,
        c.slot == if tx_idx % TXS_PER_SLOT == 0 { clock.slot + 1 } else { clock.slot as int },
{
    let ts = clock.ts + n_calls * CALL_INTERVAL_NS + TX_GAP_NS;
    let slot = if tx_idx % TXS_PER_SLOT == 0 { clock.slot + 1 } else { clock.slot };
    WorkloadClock { slot, ts }
}

/// The transaction ID a snapshot record gives: the first 32 listed values, each
/// truncated to a byte (a missing value reads as 0), padded with zeros; all zeros when
/// the record lists none.
pub open spec fn snapshot_tx_id(values: Option<Seq<Option<u64>>>) -> Seq<u8> {
    match values {
        Some(vs) => Seq::new(32, |i: int| if i < vs.len() {
            match vs[i] {
                Some(v) => v as u8,
                None => 0u8,
            }
        } else {
            0u8
        }),
        None => zero32(),
    }
}

/// Reads a snapshot record's transaction ID.
pub fn replay_tx_id(values: Option<&[Option<u64>]>) -> (t: TransactionId)
    ensures
        t@ == snapshot_tx_id(match values { Some(vs) => Some(vs@), None => None }),
{
    let mut t: [u8; 32] = [0u8; 32];
    match values {
        Some(vs) => {
            let mut i: usize = 0;
            while i < 32
                invariant
                    i <= 32,
                    forall|k: int| 0 <= k < i ==> t@[k] == snapshot_tx_id(Some(vs@))[k],
                    forall|k: int| i <= k < 32 ==> t@[k] == 0u8,
                decreases 32 - i,
            {
                if i < vs.len() {
                    t[i] = match vs[i] {
                        Some(v) => v as u8,
                        None => 0u8,
                    };
                }
                i = i + 1;
            }
            assert(t@ =~= snapshot_tx_id(Some(vs@)));
        },
        None => {
            assert(t@ =~= zero32());
        },
    }
    t
}

/// The syscall ID a snapshot call record gives: 1 when missing, else truncated to 32 bits.
pub open spec fn snapshot_syscall_id(syscall_id: Option<u64>) -> u32 {
    match syscall_id {
        Some(v) => v as u32,
        None => 1u32,
    }
}

/// The trace event a snapshot call record gives, in transaction `tx_id`: a missing
/// syscall ID reads as 1, a missing time or slot as 0; the argument hash is `id * 7919`,
/// and the program ID and depth are zero.
pub fn replay_event(
    syscall_id: Option<u64>,
    timestamp_ns: Option<u64>,
    slot: Option<u64>,
    tx_id: TransactionId,
) -> (e: SyscallTraceEvent)
    ensures
        e.program_id@ == zero32(),
        e.syscall_id == snapshot_syscall_id(syscall_id),
        e.args_hash == e.syscall_id * 7919,
        e.timestamp_ns == match timestamp_ns { Some(t) => t, None => 0u64 },
        e.slot == match slot { Some(v) => v, None => 0u64 },
        e.transaction_id == tx_id,
        e.depth == 0,
{
    let id: u32 = match syscall_id {
        Some(v) => v as u32,
        None => 1,
    };
    SyscallTraceEvent {
        program_id: zero_pubkey(),
        syscall_id: id,
        args_hash: id as u64 * 7919,
        timestamp_ns: match timestamp_ns { Some(t) => t, None => 0 },
        slot: match slot { Some(v) => v, None => 0 },
        transaction_id: tx_id,
        depth: 0,
    }
}

} // verus!
