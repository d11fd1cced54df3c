//! Shared types: trace events, syscall and safety classes, cache keys, and the
//! FNV-1a argument hash.

use vstd::prelude::*;
use vstd::string::StringExecFns;

verus! {

pub type Pubkey = [u8; 32];

pub type SyscallId = u32;

pub type TransactionId = [u8; 32];

pub type ArgsHash = u64;

/// One intercepted syscall, as emitted on the trace channel.
#[derive(Debug, Clone, Copy, PartialEq, Eq, Hash)]
pub struct SyscallTraceEvent {
    pub program_id: Pubkey,
    pub syscall_id: SyscallId,
    pub args_hash: ArgsHash,
    pub timestamp_ns: u64,
    pub slot: u64,
    pub transaction_id: TransactionId,
    pub depth: u8,
}

#[derive(Debug, Clone, Copy, PartialEq, Eq, Hash, Structural)]
pub enum SyscallClass {
    SysvarRead,
    AccountRead,
    Crypto,
    StateChange,
    CPI,
    Abort,
    Unknown,
}

#[derive(Debug, Clone, Copy, PartialEq, Eq, Hash, Structural)]
pub enum SafetyClass {
    ReadOnly,
    Idempotent,
    StateChanging,
    OrderSensitive,
}

#[derive(Debug, Clone, Copy, PartialEq, Eq, Hash, Structural)]
pub struct CacheKey {
    pub syscall_id: SyscallId,
    pub args_hash: ArgsHash,
}

impl SyscallClass {
    pub open spec fn spec_name(self) -> Seq<char> {
        match self {
            SyscallClass::SysvarRead => "SysvarRead"@,
            SyscallClass::AccountRead => "AccountRead"@,
            SyscallClass::Crypto => "Crypto"@,
            SyscallClass::StateChange => "StateChange"@,
            SyscallClass::CPI => "CPI"@,
            SyscallClass::Abort => "Abort"@,
            SyscallClass::Unknown => "Unknown"@,
        }
    }

    /// The variant's name.
    pub fn name(&self) -> (s: &'static str)
        ensures
            s@ == self.spec_name(),
    {
        match self {
            SyscallClass::SysvarRead => "SysvarRead",
            SyscallClass::AccountRead => "AccountRead",
            SyscallClass::Crypto => "Crypto",
            SyscallClass::StateChange => "StateChange",
            SyscallClass::CPI => "CPI",
            SyscallClass::Abort => "Abort",
            SyscallClass::Unknown => "Unknown",
        }
    }

    /// Textual form of the class (its variant name).
    pub fn to_string(&self) -> (s: String)
        ensures
            s@ == self.spec_name(),
    {
        String::from_str(self.name())
    }
}

impl SafetyClass {
    pub open spec fn spec_name(self) -> Seq<char> {
        match self {
            SafetyClass::ReadOnly => "ReadOnly"@,
            SafetyClass::Idempotent => "Idempotent"@,
            SafetyClass::StateChanging => "StateChanging"@,
            SafetyClass::OrderSensitive => "OrderSensitive"@,
        }
    }

    /// A class is eligible for optimization exactly when it is `ReadOnly` or `Idempotent`.
    pub open spec fn spec_eligible(self) -> bool {
        self == SafetyClass::ReadOnly || self == SafetyClass::Idempotent
    }

    /// The variant's name.
    pub fn name(&self) -> (s: &'static str)
        ensures
            s@ == self.spec_name(),
    {
        match self {
            SafetyClass::ReadOnly => "ReadOnly",
            SafetyClass::Idempotent => "Idempotent",
            SafetyClass::StateChanging => "StateChanging",
            SafetyClass::OrderSensitive => "OrderSensitive",
        }
    }

    /// Textual form of the class (its variant name).
    pub fn to_string(&self) -> (s: String)
        ensures
            s@ == self.spec_name(),
    {
        String::from_str(self.name())
    }

    pub fn is_eligible(&self) -> (b: bool)
        ensures
            b == self.spec_eligible(),
    {
        match self {
            SafetyClass::ReadOnly | SafetyClass::Idempotent => true,
            _ => false,
        }
    }
}

pub const FNV_OFFSET_BASIS: u64 = 14695981039346656037;

pub const FNV_PRIME: u64 = 1099511628211;

/// One FNV-1a round: xor in the byte, then multiply by the prime modulo 2^64.
pub open spec fn fnv_step(hash: u64, byte: u8) -> u64 {
    (((hash ^ (byte as u64)) as nat * FNV_PRIME as nat) % 0x1_0000_0000_0000_0000nat) as u64
}

/// FNV-1a 64-bit hash of a byte sequence.
pub open spec fn spec_fnv_hash(data: Seq<u8>) -> u64
    decreases data.len(),
{
    if data.len() == 0 {
        FNV_OFFSET_BASIS
    } else {
        fnv_step(spec_fnv_hash(data.drop_last()), data.last())
    }
}

/// FNV-1a 64-bit hash.
pub fn fnv_hash(data: &[u8]) -> (h: ArgsHash)
    ensures
        h == spec_fnv_hash(data@),
{
    let mut hash: u64 = FNV_OFFSET_BASIS;
    let n = data.len();
    let mut i: usize = 0;
    while i < n
        invariant
            n == data@.len(),
            i <= n,
            hash == spec_fnv_hash(data@.take(i as int)),
        decreases n - i,
    {
        let byte = data[i];
        assert(data@.take(i + 1).drop_last() =~= data@.take(i as int));
        hash = (hash ^ (byte as u64)).wrapping_mul(FNV_PRIME);
        i = i + 1;
    }
    assert(data@.take(n as int) =~= data@);
    hash
}

/// The all-zero byte array of length 32.
pub open spec fn zero32() -> Seq<u8> {
    Seq::new(32, |i: int| 0u8)
}

/// Zero-initialized pubkey.
pub fn zero_pubkey() -> (k: Pubkey)
    ensures
        k@ == zero32(),
{
    let k = [0u8; 32];
    assert(k@ =~= zero32());
    k
}

/// Zero-initialized transaction ID.
pub fn zero_tx_id() -> (t: TransactionId)
    ensures
        t@ == zero32(),
{
    let t = [0u8; 32];
    assert(t@ =~= zero32());
    t
}

/// Byte-wise equality of two 32-byte identifiers.
pub fn bytes32_eq(a: &[u8; 32], b: &[u8; 32]) -> (r: bool)
    ensures
        r == (*a == *b),
{
    broadcast use vstd::array::group_array_axioms;
    let mut i: usize = 0;
    while i < 32
        invariant
            i <= 32,
            forall|k: int| 0 <= k < i ==> a@[k] == b@[k],
        decreases 32 - i,
    {
        if a[i] != b[i] {
            assert(a@[i as int] != b@[i as int]);
            return false;
        }
        i = i + 1;
    }
    assert(*a =~= *b);
    true
}

} // verus!
