//! Integer side of the next-syscall predictor: its reordering heuristic.

use vstd::prelude::*;
use crate::common::SyscallId;

verus! {

/// The predictor treats a sequence as safe to reorder when every ID lies in the
/// sysvar/crypto range (at most 29).
pub open spec fn spec_reorder_safe(sequence: Seq<u32>) -> bool {
    forall|k: int| 0 <= k < sequence.len() ==> #[trigger] sequence[k] <= 29
}

pub fn reorder_safe_ids(sequence: &[SyscallId]) -> (b: bool)
    ensures
        b == spec_reorder_safe(sequence@),
{
    let mut i: usize = 0;
    while i < sequence.len()
        invariant
            i <= sequence@.len(),
            forall|k: int| 0 <= k < i ==> #[trigger] sequence@[k] <= 29,
        decreases sequence@.len() - i,
    {
        if sequence[i] > 29 {
            return false;
        }
        i = i + 1;
    }
    true
}

} // verus!
