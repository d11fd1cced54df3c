//! Numeric identifiers of the syscalls the runtime knows about.

use vstd::prelude::*;

verus! {

pub const SOL_GET_CLOCK_SYSVAR: u32 = 1;
pub const SOL_GET_RENT_SYSVAR: u32 = 2;
pub const SOL_GET_EPOCH_SCHEDULE_SYSVAR: u32 = 3;
pub const SOL_GET_FEES_SYSVAR: u32 = 4;
pub const SOL_GET_SLOT_HASHES_SYSVAR: u32 = 5;
pub const SOL_GET_STAKE_HISTORY_SYSVAR: u32 = 6;
pub const SOL_LOG: u32 = 10;
pub const SOL_LOG_64: u32 = 11;
pub const SOL_LOG_PUBKEY: u32 = 12;
pub const SOL_LOG_COMPUTE_UNITS: u32 = 13;
pub const SOL_SHA256: u32 = 20;
pub const SOL_KECCAK256: u32 = 21;
pub const SOL_SECP256K1_RECOVER: u32 = 22;
pub const SOL_ED25519_VERIFY: u32 = 23;
pub const SOL_INVOKE_SIGNED: u32 = 30;
pub const SOL_SET_RETURN_DATA: u32 = 40;
pub const SOL_GET_RETURN_DATA: u32 = 41;
pub const SOL_ALLOC_FREE: u32 = 50;
pub const SOL_MEMCPY: u32 = 51;
pub const SOL_MEMMOVE: u32 = 52;
pub const SOL_MEMSET: u32 = 53;
pub const SOL_MEMCMP: u32 = 54;
pub const SOL_PANIC: u32 = 60;
pub const SOL_ABORT: u32 = 61;

} // verus!
