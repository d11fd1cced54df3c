//! Static safety classification of syscalls (phase one of the safety gate).

use std::collections::HashMap;
use vstd::prelude::*;
use crate::common::{SafetyClass, SyscallId};
use crate::syscall_ids::{
    SOL_ABORT, SOL_ALLOC_FREE, SOL_ED25519_VERIFY, SOL_GET_CLOCK_SYSVAR,
    SOL_GET_EPOCH_SCHEDULE_SYSVAR, SOL_GET_FEES_SYSVAR, SOL_GET_RENT_SYSVAR,
    SOL_GET_RETURN_DATA, SOL_GET_SLOT_HASHES_SYSVAR, SOL_GET_STAKE_HISTORY_SYSVAR,
    SOL_INVOKE_SIGNED, SOL_KECCAK256, SOL_LOG, SOL_LOG_64, SOL_LOG_COMPUTE_UNITS, SOL_LOG_PUBKEY,
    SOL_MEMCMP, SOL_MEMCPY, SOL_MEMMOVE, SOL_MEMSET, SOL_PANIC, SOL_SECP256K1_RECOVER,
    SOL_SET_RETURN_DATA, SOL_SHA256,
};

verus! {

broadcast use vstd::std_specs::hash::group_hash_axioms;

/// The classifier's table: the class assigned to each known ID (`None` for unknown IDs).
pub open spec fn classified(id: u32) -> Option<SafetyClass> {
    if id == SOL_GET_CLOCK_SYSVAR || id == SOL_GET_RENT_SYSVAR || id == SOL_GET_EPOCH_SCHEDULE_SYSVAR
        || id == SOL_GET_FEES_SYSVAR || id == SOL_GET_SLOT_HASHES_SYSVAR
        || id == SOL_GET_STAKE_HISTORY_SYSVAR || id == SOL_GET_RETURN_DATA {
        Some(SafetyClass::ReadOnly)
    } else if id == SOL_LOG || id == SOL_LOG_64 || id == SOL_LOG_PUBKEY || id == SOL_LOG_COMPUTE_UNITS
        || id == SOL_SHA256 || id == SOL_KECCAK256 || id == SOL_SECP256K1_RECOVER
        || id == SOL_ED25519_VERIFY || id == SOL_ALLOC_FREE || id == SOL_MEMCPY || id == SOL_MEMMOVE
        || id == SOL_MEMSET || id == SOL_MEMCMP {
        Some(SafetyClass::Idempotent)
    } else if id == SOL_SET_RETURN_DATA || id == SOL_PANIC || id == SOL_ABORT {
        Some(SafetyClass::StateChanging)
    } else if id == SOL_INVOKE_SIGNED {
        Some(SafetyClass::OrderSensitive)
    } else {
        None
    }
}

/// The class the classifier reports for `id`: its table entry, or `StateChanging` when unknown.
pub open spec fn spec_classify(id: u32) -> SafetyClass {
    match classified(id) {
        Some(c) => c,
        None => SafetyClass::StateChanging,
    }
}

/// Whether a syscall may be optimized at all.
pub open spec fn spec_eligible(id: u32) -> bool {
    spec_classify(id).spec_eligible()
}

/// Two syscalls commute only when both are `ReadOnly`.
pub open spec fn spec_can_reorder(a: u32, b: u32) -> bool {
    spec_classify(a) == SafetyClass::ReadOnly && spec_classify(b) == SafetyClass::ReadOnly
}

/// The classifier's table as a map from known IDs to their classes.
pub open spec fn classifier_table() -> Map<SyscallId, SafetyClass> {
    Map::new(|id: u32| classified(id) is Some, |id: u32| classified(id).unwrap())
}

pub struct SyscallClassifier {
    classifications: HashMap<SyscallId, SafetyClass>,
}

fn classify_all(m: &mut HashMap<SyscallId, SafetyClass>, ids: &[SyscallId], class: SafetyClass)
    ensures
        forall|k: u32| #[trigger] final(m)@.contains_key(k)
            == (old(m)@.contains_key(k) || ids@.contains(k)),
        forall|k: u32| #[trigger] final(m)@.contains_key(k) ==> final(m)@[k] == (if ids@.contains(k) {
            class
        } else {
            old(m)@[k]
        }),
{
    let mut i: usize = 0;
    while i < ids.len()
        invariant
            i <= ids@.len(),
            forall|k: u32| #[trigger] m@.contains_key(k)
                == (old(m)@.contains_key(k) || ids@.take(i as int).contains(k)),
            forall|k: u32| #[trigger] m@.contains_key(k) ==> m@[k] == (if ids@.take(i as int).contains(k) {
                class
            } else {
                old(m)@[k]
            }),
        decreases ids@.len() - i,
    {
        let id = ids[i];
        m.insert(id, class);
        proof {
            broadcast use vstd::seq_lib::group_seq_properties;
            assert(ids@.take(i + 1) =~= ids@.take(i as int).push(id));
        }
        i = i + 1;
    }
    assert(ids@.take(ids@.len() as int) =~= ids@);
}

impl SyscallClassifier {
    #[verifier::type_invariant]
    spec fn matches_table(self) -> bool {
        forall|id: u32|
            #[trigger] self.classifications@.contains_key(id) == (classified(id) is Some) && (
            self.classifications@.contains_key(id) ==> Some(self.classifications@[id]) == classified(id))
    }

    /// The recorded classes, by syscall ID.
    pub closed spec fn view(&self) -> Map<SyscallId, SafetyClass> {
        self.classifications@
    }

    #[verifier::rlimit(60)]
    pub fn new() -> (c: Self)
        ensures
            c@ == classifier_table(),
    {
        let mut m: HashMap<SyscallId, SafetyClass> = HashMap::new();
        // Sysvar reads: pure reads, no side effects.
        let read_only = [
            SOL_GET_CLOCK_SYSVAR,
            SOL_GET_RENT_SYSVAR,
            SOL_GET_EPOCH_SCHEDULE_SYSVAR,
            SOL_GET_FEES_SYSVAR,
            SOL_GET_SLOT_HASHES_SYSVAR,
            SOL_GET_STAKE_HISTORY_SYSVAR,
            SOL_GET_RETURN_DATA,
        ];
        classify_all(&mut m, &read_only, SafetyClass::ReadOnly);
        // Logging: observable, but no state mutation.
        let logging = [SOL_LOG, SOL_LOG_64, SOL_LOG_PUBKEY, SOL_LOG_COMPUTE_UNITS];
        classify_all(&mut m, &logging, SafetyClass::Idempotent);
        // Cryptographic operations: same input, same output.
        let crypto = [SOL_SHA256, SOL_KECCAK256, SOL_SECP256K1_RECOVER, SOL_ED25519_VERIFY];
        classify_all(&mut m, &crypto, SafetyClass::Idempotent);
        // Memory operations.
        let memory = [SOL_ALLOC_FREE, SOL_MEMCPY, SOL_MEMMOVE, SOL_MEMSET, SOL_MEMCMP];
        classify_all(&mut m, &memory, SafetyClass::Idempotent);
        // State-mutating and control flow.
        m.insert(SOL_SET_RETURN_DATA, SafetyClass::StateChanging);
        m.insert(SOL_PANIC, SafetyClass::StateChanging);
        m.insert(SOL_ABORT, SafetyClass::StateChanging);
        // Cross-program invocations depend on ordering.
        m.insert(SOL_INVOKE_SIGNED, SafetyClass::OrderSensitive);
        proof {
            assert forall|id: u32| #[trigger] m@.contains_key(id) == (classified(id) is Some) && (
                m@.contains_key(id) ==> Some(m@[id]) == classified(id)) by {
                assert(read_only@.contains(id) <==> (id == SOL_GET_CLOCK_SYSVAR || id == SOL_GET_RENT_SYSVAR
                    || id == SOL_GET_EPOCH_SCHEDULE_SYSVAR || id == SOL_GET_FEES_SYSVAR
                    || id == SOL_GET_SLOT_HASHES_SYSVAR || id == SOL_GET_STAKE_HISTORY_SYSVAR
                    || id == SOL_GET_RETURN_DATA)) by {
                    if read_only@.contains(id) {
                        let j = choose|j: int| 0 <= j < read_only@.len() && #[trigger] read_only@[j] == id;
                    }
                    if id == SOL_GET_CLOCK_SYSVAR { assert(read_only@[0] == id); }
                    if id == SOL_GET_RENT_SYSVAR { assert(read_only@[1] == id); }
                    if id == SOL_GET_EPOCH_SCHEDULE_SYSVAR { assert(read_only@[2] == id); }
                    if id == SOL_GET_FEES_SYSVAR { assert(read_only@[3] == id); }
                    if id == SOL_GET_SLOT_HASHES_SYSVAR { assert(read_only@[4] == id); }
                    if id == SOL_GET_STAKE_HISTORY_SYSVAR { assert(read_only@[5] == id); }
                    if id == SOL_GET_RETURN_DATA { assert(read_only@[6] == id); }
                }
                assert(logging@.contains(id) <==> (id == SOL_LOG || id == SOL_LOG_64
                    || id == SOL_LOG_PUBKEY || id == SOL_LOG_COMPUTE_UNITS)) by {
                    if logging@.contains(id) {
                        let j = choose|j: int| 0 <= j < logging@.len() && #[trigger] logging@[j] == id;
                    }
                    if id == SOL_LOG { assert(logging@[0] == id); }
                    if id == SOL_LOG_64 { assert(logging@[1] == id); }
                    if id == SOL_LOG_PUBKEY { assert(logging@[2] == id); }
                    if id == SOL_LOG_COMPUTE_UNITS { assert(logging@[3] == id); }
                }
                assert(crypto@.contains(id) <==> (id == SOL_SHA256 || id == SOL_KECCAK256
                    || id == SOL_SECP256K1_RECOVER || id == SOL_ED25519_VERIFY)) by {
                    if crypto@.contains(id) {
                        let j = choose|j: int| 0 <= j < crypto@.len() && #[trigger] crypto@[j] == id;
                    }
                    if id == SOL_SHA256 { assert(crypto@[0] == id); }
                    if id == SOL_KECCAK256 { assert(crypto@[1] == id); }
                    if id == SOL_SECP256K1_RECOVER { assert(crypto@[2] == id); }
                    if id == SOL_ED25519_VERIFY { assert(crypto@[3] == id); }
                }
                assert(memory@.contains(id) <==> (id == SOL_ALLOC_FREE || id == SOL_MEMCPY
                    || id == SOL_MEMMOVE || id == SOL_MEMSET || id == SOL_MEMCMP)) by {
                    if memory@.contains(id) {
                        let j = choose|j: int| 0 <= j < memory@.len() && #[trigger] memory@[j] == id;
                    }
                    if id == SOL_ALLOC_FREE { assert(memory@[0] == id); }
                    if id == SOL_MEMCPY { assert(memory@[1] == id); }
                    if id == SOL_MEMMOVE { assert(memory@[2] == id); }
                    if id == SOL_MEMSET { assert(memory@[3] == id); }
                    if id == SOL_MEMCMP { assert(memory@[4] == id); }
                }
            }
        }
        assert(m@ =~= classifier_table()) by {
            assert forall|id: u32| #[trigger] m@.contains_key(id) == classifier_table().contains_key(id) by {}
            assert forall|id: u32| m@.contains_key(id) implies #[trigger] m@[id] == classifier_table()[id] by {}
        }
        SyscallClassifier { classifications: m }
    }

    pub fn classify(&self, id: SyscallId) -> (c: SafetyClass)
        ensures
            c == spec_classify(id),
    {
        proof { use_type_invariant(self); }
        match self.classifications.get(&id) {
            Some(c) => *c,
            None => SafetyClass::StateChanging,
        }
    }

    pub fn is_optimization_eligible(&self, id: SyscallId) -> (b: bool)
        ensures
            b == spec_eligible(id),
    {
        self.classify(id).is_eligible()
    }

    /// Two syscalls can be reordered only if both are ReadOnly (truly commutative).
    pub fn can_reorder(a: SyscallId, b: SyscallId) -> (r: bool)
        ensures
            r == spec_can_reorder(a, b),
    {
        let c = Self::new();
        c.classify(a) == SafetyClass::ReadOnly && c.classify(b) == SafetyClass::ReadOnly
    }
}

impl Default for SyscallClassifier {
    fn default() -> Self {
        Self::new()
    }
}

} // verus!
