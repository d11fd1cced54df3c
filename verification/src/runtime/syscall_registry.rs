//! Registry of known syscalls: name, functional class and safety class per ID.

use std::collections::HashMap;
use vstd::prelude::*;
use vstd::std_specs::iter::IteratorSpec;
use crate::common::{SafetyClass, SyscallClass, SyscallId};
use crate::syscall_ids::{
    SOL_GET_CLOCK_SYSVAR,
    SOL_GET_RENT_SYSVAR,
    SOL_GET_EPOCH_SCHEDULE_SYSVAR,
    SOL_GET_FEES_SYSVAR,
    SOL_GET_SLOT_HASHES_SYSVAR,
    SOL_GET_STAKE_HISTORY_SYSVAR,
    SOL_LOG,
    SOL_LOG_64,
    SOL_LOG_PUBKEY,
    SOL_LOG_COMPUTE_UNITS,
    SOL_SHA256,
    SOL_KECCAK256,
    SOL_SECP256K1_RECOVER,
    SOL_ED25519_VERIFY,
    SOL_INVOKE_SIGNED,
    SOL_SET_RETURN_DATA,
    SOL_GET_RETURN_DATA,
    SOL_ALLOC_FREE,
    SOL_MEMCPY,
    SOL_MEMMOVE,
    SOL_MEMSET,
    SOL_MEMCMP,
    SOL_PANIC,
    SOL_ABORT,
};

verus! {

broadcast use vstd::std_specs::hash::group_hash_axioms;

/// What the registry records of one syscall.
#[derive(Debug, Clone)]
pub struct SyscallInfo {
    pub name: &'static str,
    pub class: SyscallClass,
    pub safety: SafetyClass,
}

/// The abstract content of a registry entry.
pub struct RegistryEntry {
    pub name: Seq<char>,
    pub class: SyscallClass,
    pub safety: SafetyClass,
}

impl SyscallInfo {
    pub open spec fn spec_entry(&self) -> RegistryEntry {
        RegistryEntry { name: self.name@, class: self.class, safety: self.safety }
    }
}

/// The registry's table, stated directly: the entry recorded for each known syscall ID.
pub open spec fn registry_entry(id: u32) -> Option<RegistryEntry> {
    if id == SOL_GET_CLOCK_SYSVAR {
        Some(RegistryEntry { name: "sol_get_clock_sysvar"@, class: SyscallClass::SysvarRead, safety: SafetyClass::ReadOnly })
    } else if id == SOL_GET_RENT_SYSVAR {
        Some(RegistryEntry { name: "sol_get_rent_sysvar"@, class: SyscallClass::SysvarRead, safety: SafetyClass::ReadOnly })
    } else if id == SOL_GET_EPOCH_SCHEDULE_SYSVAR {
        Some(RegistryEntry { name: "sol_get_epoch_schedule_sysvar"@, class: SyscallClass::SysvarRead, safety: SafetyClass::ReadOnly })
    } else if id == SOL_GET_FEES_SYSVAR {
        Some(RegistryEntry { name: "sol_get_fees_sysvar"@, class: SyscallClass::SysvarRead, safety: SafetyClass::ReadOnly })
    } else if id == SOL_GET_SLOT_HASHES_SYSVAR {
        Some(RegistryEntry { name: "sol_get_slot_hashes_sysvar"@, class: SyscallClass::SysvarRead, safety: SafetyClass::ReadOnly })
    } else if id == SOL_GET_STAKE_HISTORY_SYSVAR {
        Some(RegistryEntry { name: "sol_get_stake_history_sysvar"@, class: SyscallClass::SysvarRead, safety: SafetyClass::ReadOnly })
    } else if id == SOL_LOG {
        Some(RegistryEntry { name: "sol_log"@, class: SyscallClass::AccountRead, safety: SafetyClass::Idempotent })
    } else if id == SOL_LOG_64 {
        Some(RegistryEntry { name: "sol_log_64"@, class: SyscallClass::AccountRead, safety: SafetyClass::Idempotent })
    } else if id == SOL_LOG_PUBKEY {
        Some(RegistryEntry { name: "sol_log_pubkey"@, class: SyscallClass::AccountRead, safety: SafetyClass::Idempotent })
    } else if id == SOL_LOG_COMPUTE_UNITS {
        Some(RegistryEntry { name: "sol_log_compute_units"@, class: SyscallClass::AccountRead, safety: SafetyClass::Idempotent })
    } else if id == SOL_SHA256 {
        Some(RegistryEntry { name: "sol_sha256"@, class: SyscallClass::Crypto, safety: SafetyClass::Idempotent })
    } else if id == SOL_KECCAK256 {
        Some(RegistryEntry { name: "sol_keccak256"@, class: SyscallClass::Crypto, safety: SafetyClass::Idempotent })
    } else if id == SOL_SECP256K1_RECOVER {
        Some(RegistryEntry { name: "sol_secp256k1_recover"@, class: SyscallClass::Crypto, safety: SafetyClass::Idempotent })
    } else if id == SOL_ED25519_VERIFY {
        Some(RegistryEntry { name: "sol_ed25519_verify"@, class: SyscallClass::Crypto, safety: SafetyClass::Idempotent })
    } else if id == SOL_INVOKE_SIGNED {
        Some(RegistryEntry { name: "sol_invoke_signed"@, class: SyscallClass::CPI, safety: SafetyClass::OrderSensitive })
    } else if id == SOL_SET_RETURN_DATA {
        Some(RegistryEntry { name: "sol_set_return_data"@, class: SyscallClass::StateChange, safety: SafetyClass::StateChanging })
    } else if id == SOL_GET_RETURN_DATA {
        Some(RegistryEntry { name: "sol_get_return_data"@, class: SyscallClass::AccountRead, safety: SafetyClass::ReadOnly })
    } else if id == SOL_ALLOC_FREE {
        Some(RegistryEntry { name: "sol_alloc_free"@, class: SyscallClass::AccountRead, safety: SafetyClass::Idempotent })
    } else if id == SOL_MEMCPY {
        Some(RegistryEntry { name: "sol_memcpy"@, class: SyscallClass::AccountRead, safety: SafetyClass::Idempotent })
    } else if id == SOL_MEMMOVE {
        Some(RegistryEntry { name: "sol_memmove"@, class: SyscallClass::AccountRead, safety: SafetyClass::Idempotent })
    } else if id == SOL_MEMSET {
        Some(RegistryEntry { name: "sol_memset"@, class: SyscallClass::AccountRead, safety: SafetyClass::Idempotent })
    } else if id == SOL_MEMCMP {
        Some(RegistryEntry { name: "sol_memcmp"@, class: SyscallClass::AccountRead, safety: SafetyClass::ReadOnly })
    } else if id == SOL_PANIC {
        Some(RegistryEntry { name: "sol_panic"@, class: SyscallClass::Abort, safety: SafetyClass::StateChanging })
    } else if id == SOL_ABORT {
        Some(RegistryEntry { name: "sol_abort"@, class: SyscallClass::Abort, safety: SafetyClass::StateChanging })
    } else {
        None
    }
}

/// Safety class that the registry reports for `id`; unknown IDs are `StateChanging`.
pub open spec fn registry_safety(id: u32) -> SafetyClass {
    match registry_entry(id) {
        Some(e) => e.safety,
        None => SafetyClass::StateChanging,
    }
}

/// Functional class that the registry reports for `id`; unknown IDs are `Unknown`.
pub open spec fn registry_class(id: u32) -> SyscallClass {
    match registry_entry(id) {
        Some(e) => e.class,
        None => SyscallClass::Unknown,
    }
}

/// Name that the registry reports for `id`; unknown IDs are named "unknown".
pub open spec fn registry_name(id: u32) -> Seq<char> {
    match registry_entry(id) {
        Some(e) => e.name,
        None => "unknown"@,
    }
}

/// The set of IDs the registry knows.
pub open spec fn registry_ids() -> Set<u32> {
    Set::new(|id: u32| registry_entry(id) is Some)
}

/// The registry's table as a map from known IDs to their entries.
pub open spec fn registry_table() -> Map<SyscallId, RegistryEntry> {
    Map::new(|id: u32| registry_entry(id) is Some, |id: u32| registry_entry(id).unwrap())
}

pub struct SyscallRegistry {
    entries: HashMap<SyscallId, SyscallInfo>,
}

fn register(
    entries: &mut HashMap<SyscallId, SyscallInfo>,
    id: SyscallId,
    name: &'static str,
    class: SyscallClass,
    safety: SafetyClass,
)
    ensures
        final(entries)@ == old(entries)@.insert(id, SyscallInfo { name, class, safety }),
{
    entries.insert(id, SyscallInfo { name, class, safety });
}

impl SyscallRegistry {
    /// Internal consistency: the entries are exactly the table's.
    #[verifier::type_invariant]
    pub closed spec fn wf(self) -> bool {
        forall|id: u32|
            #[trigger] self.entries@.contains_key(id) == (registry_entry(id) is Some) && (
            self.entries@.contains_key(id) ==> Some(self.entries@[id].spec_entry())
                == registry_entry(id))
    }

    /// The registered entries, by syscall ID.
    pub closed spec fn view(&self) -> Map<SyscallId, RegistryEntry> {
        self.entries@.map_values(|i: SyscallInfo| i.spec_entry())
    }

    /// A well-formed registry holds exactly the table.
    pub proof fn lemma_view_is_table(r: &SyscallRegistry)
        requires
            r.wf(),
        ensures
            r@ == registry_table(),
    {
        assert(r@ =~= registry_table()) by {
            assert forall|id: u32| #[trigger] r@.contains_key(id) == registry_table().contains_key(id) by {}
            assert forall|id: u32| r@.contains_key(id) implies #[trigger] r@[id] == registry_table()[id] by {}
        }
    }

    #[verifier::rlimit(60)]
    pub fn new() -> (r: Self)
        ensures
            r@ == registry_table(),
    {
        let mut entries: HashMap<SyscallId, SyscallInfo> = HashMap::new();
        proof {
            reveal_strlit("sol_get_clock_sysvar");
            reveal_strlit("sol_get_rent_sysvar");
            reveal_strlit("sol_get_epoch_schedule_sysvar");
            reveal_strlit("sol_get_fees_sysvar");
            reveal_strlit("sol_get_slot_hashes_sysvar");
            reveal_strlit("sol_get_stake_history_sysvar");
            reveal_strlit("sol_log");
            reveal_strlit("sol_log_64");
            reveal_strlit("sol_log_pubkey");
            reveal_strlit("sol_log_compute_units");
            reveal_strlit("sol_sha256");
            reveal_strlit("sol_keccak256");
            reveal_strlit("sol_secp256k1_recover");
            reveal_strlit("sol_ed25519_verify");
            reveal_strlit("sol_invoke_signed");
            reveal_strlit("sol_set_return_data");
            reveal_strlit("sol_get_return_data");
            reveal_strlit("sol_alloc_free");
            reveal_strlit("sol_memcpy");
            reveal_strlit("sol_memmove");
            reveal_strlit("sol_memset");
            reveal_strlit("sol_memcmp");
            reveal_strlit("sol_panic");
            reveal_strlit("sol_abort");
        }
        register(&mut entries, SOL_GET_CLOCK_SYSVAR, "sol_get_clock_sysvar", SyscallClass::SysvarRead, SafetyClass::ReadOnly);
        register(&mut entries, SOL_GET_RENT_SYSVAR, "sol_get_rent_sysvar", SyscallClass::SysvarRead, SafetyClass::ReadOnly);
        register(&mut entries, SOL_GET_EPOCH_SCHEDULE_SYSVAR, "sol_get_epoch_schedule_sysvar", SyscallClass::SysvarRead, SafetyClass::ReadOnly);
        register(&mut entries, SOL_GET_FEES_SYSVAR, "sol_get_fees_sysvar", SyscallClass::SysvarRead, SafetyClass::ReadOnly);
        register(&mut entries, SOL_GET_SLOT_HASHES_SYSVAR, "sol_get_slot_hashes_sysvar", SyscallClass::SysvarRead, SafetyClass::ReadOnly);
        register(&mut entries, SOL_GET_STAKE_HISTORY_SYSVAR, "sol_get_stake_history_sysvar", SyscallClass::SysvarRead, SafetyClass::ReadOnly);
        register(&mut entries, SOL_LOG, "sol_log", SyscallClass::AccountRead, SafetyClass::Idempotent);
        register(&mut entries, SOL_LOG_64, "sol_log_64", SyscallClass::AccountRead, SafetyClass::Idempotent);
        register(&mut entries, SOL_LOG_PUBKEY, "sol_log_pubkey", SyscallClass::AccountRead, SafetyClass::Idempotent);
        register(&mut entries, SOL_LOG_COMPUTE_UNITS, "sol_log_compute_units", SyscallClass::AccountRead, SafetyClass::Idempotent);
        register(&mut entries, SOL_SHA256, "sol_sha256", SyscallClass::Crypto, SafetyClass::Idempotent);
        register(&mut entries, SOL_KECCAK256, "sol_keccak256", SyscallClass::Crypto, SafetyClass::Idempotent);
        register(&mut entries, SOL_SECP256K1_RECOVER, "sol_secp256k1_recover", SyscallClass::Crypto, SafetyClass::Idempotent);
        register(&mut entries, SOL_ED25519_VERIFY, "sol_ed25519_verify", SyscallClass::Crypto, SafetyClass::Idempotent);
        register(&mut entries, SOL_INVOKE_SIGNED, "sol_invoke_signed", SyscallClass::CPI, SafetyClass::OrderSensitive);
        register(&mut entries, SOL_SET_RETURN_DATA, "sol_set_return_data", SyscallClass::StateChange, SafetyClass::StateChanging);
        register(&mut entries, SOL_GET_RETURN_DATA, "sol_get_return_data", SyscallClass::AccountRead, SafetyClass::ReadOnly);
        register(&mut entries, SOL_ALLOC_FREE, "sol_alloc_free", SyscallClass::AccountRead, SafetyClass::Idempotent);
        register(&mut entries, SOL_MEMCPY, "sol_memcpy", SyscallClass::AccountRead, SafetyClass::Idempotent);
        register(&mut entries, SOL_MEMMOVE, "sol_memmove", SyscallClass::AccountRead, SafetyClass::Idempotent);
        register(&mut entries, SOL_MEMSET, "sol_memset", SyscallClass::AccountRead, SafetyClass::Idempotent);
        register(&mut entries, SOL_MEMCMP, "sol_memcmp", SyscallClass::AccountRead, SafetyClass::ReadOnly);
        register(&mut entries, SOL_PANIC, "sol_panic", SyscallClass::Abort, SafetyClass::StateChanging);
        register(&mut entries, SOL_ABORT, "sol_abort", SyscallClass::Abort, SafetyClass::StateChanging);
        proof {
            assert forall|id: u32| #[trigger] entries@.contains_key(id) == (registry_entry(id) is Some) && (
                entries@.contains_key(id) ==> Some(entries@[id].spec_entry()) == registry_entry(id)) by {
            }
        }
        let r = SyscallRegistry { entries };
        proof { Self::lemma_view_is_table(&r); }
        r
    }

    pub fn get(&self, id: SyscallId) -> (r: Option<&SyscallInfo>)
        ensures
            match r {
                Some(info) => registry_entry(id) == Some(info.spec_entry()),
                None => registry_entry(id) is None,
            },
    {
        proof { use_type_invariant(self); }
        self.entries.get(&id)
    }

    pub fn get_class(&self, id: SyscallId) -> (c: SyscallClass)
        ensures
            c == registry_class(id),
    {
        match self.get(id) {
            Some(info) => info.class,
            None => SyscallClass::Unknown,
        }
    }

    pub fn get_safety(&self, id: SyscallId) -> (s: SafetyClass)
        ensures
            s == registry_safety(id),
    {
        match self.get(id) {
            Some(info) => info.safety,
            None => SafetyClass::StateChanging,
        }
    }

    pub fn get_name(&self, id: SyscallId) -> (n: &str)
        ensures
            n@ == registry_name(id),
    {
        match self.get(id) {
            Some(info) => info.name,
            None => "unknown",
        }
    }

    /// Only `ReadOnly` and `Idempotent` syscalls may be optimized.
    pub fn is_optimization_eligible(&self, id: SyscallId) -> (b: bool)
        ensures
            b == registry_safety(id).spec_eligible(),
    {
        self.get_safety(id).is_eligible()
    }

    /// Every known syscall ID, each exactly once, in no particular order.
    pub fn all_ids(&self) -> (ids: Vec<SyscallId>)
        ensures
            ids@.to_set() == registry_ids(),
            ids@.no_duplicates(),
    {
        proof { use_type_invariant(self); }
        let mut ids: Vec<SyscallId> = Vec::new();
        let ghost all = self.entries.keys().remaining();
        for k in it: self.entries.keys()
            invariant
                it.seq() == all,
                all.unref().to_set() == self.entries@.dom(),
                all.no_duplicates(),
                ids@ == it.seq().take(it.index()).unref(),
        {
            ids.push(*k);
        }
        proof {
            assert(ids@ =~= all.unref());
            assert(registry_ids() =~= self.entries@.dom());
            assert forall|i: int, j: int| 0 <= i < j < ids@.len() implies ids@[i] != ids@[j] by {
                assert(all[i] != all[j]);
            }
        }
        ids
    }
}

impl Default for SyscallRegistry {
    fn default() -> Self {
        Self::new()
    }
}

} // verus!
