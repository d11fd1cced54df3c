//! The two-phase safety gate that every optimization must pass.

use vstd::prelude::*;
use vstd::string::StringExecFns;
use crate::common::{SafetyClass, SyscallId, SyscallTraceEvent};
use crate::safety::classifier::{spec_classify, spec_eligible, SyscallClassifier};
use crate::safety::dependency_checker::{all_read_only, has_dep_edge, DependencyChecker};
use crate::text::{decimal, push_decimal};

verus! {

#[derive(Debug, Clone, Copy, PartialEq, Eq, Structural)]
pub enum OptimizationKind {
    Cache,
    Batch,
    Prefetch,
    Reorder,
    Dedup,
}

#[derive(Debug, Clone)]
pub struct ValidationResult {
    pub approved: bool,
    pub reason: String,
    pub kind: OptimizationKind,
}

impl ValidationResult {
    fn approve(kind: OptimizationKind, reason: String) -> (r: Self)
        ensures
            r.approved,
            r.kind == kind,
            r.reason@ == reason@,
    {
        ValidationResult { approved: true, reason, kind }
    }

    fn reject(kind: OptimizationKind, reason: String) -> (r: Self)
        ensures
            !r.approved,
            r.kind == kind,
            r.reason@ == reason@,
    {
        ValidationResult { approved: false, reason, kind }
    }
}

/// "syscall <id> is <class> — <verdict>"
pub open spec fn class_verdict_text(id: u32, verdict: Seq<char>) -> Seq<char> {
    "syscall "@ + decimal(id as nat) + " is "@ + spec_classify(id).spec_name() + " — "@ + verdict
}

/// The first ID of `ids` that may not be optimized, if any.
pub open spec fn first_ineligible(ids: Seq<u32>) -> Option<u32>
    decreases ids.len(),
{
    if ids.len() == 0 {
        None
    } else if !spec_eligible(ids[0]) {
        Some(ids[0])
    } else {
        first_ineligible(ids.drop_first())
    }
}

pub proof fn lemma_first_ineligible(ids: Seq<u32>)
    ensures
        first_ineligible(ids) is None <==> (forall|k: int| 0 <= k < ids.len() ==> spec_eligible(#[trigger] ids[k])),
        first_ineligible(ids) matches Some(id) ==> ids.contains(id) && !spec_eligible(id),
    decreases ids.len(),
{
    if ids.len() > 0 {
        lemma_first_ineligible(ids.drop_first());
        if spec_eligible(ids[0]) {
            assert forall|k: int| 0 <= k < ids.len() && (forall|m: int| 0 <= m < ids.drop_first().len()
                ==> spec_eligible(#[trigger] ids.drop_first()[m])) implies spec_eligible(#[trigger] ids[k]) by {
                if k > 0 {
                    assert(ids[k] == ids.drop_first()[k - 1]);
                }
            }
            if first_ineligible(ids) is None {
                assert forall|k: int| 0 <= k < ids.len() implies spec_eligible(#[trigger] ids[k]) by {
                    if k > 0 {
                        assert(ids[k] == ids.drop_first()[k - 1]);
                    }
                }
            } else {
                let k = choose|k: int| 0 <= k < ids.drop_first().len() && !spec_eligible(#[trigger] ids.drop_first()[k]);
                assert(ids[k + 1] == ids.drop_first()[k]);
                let id = first_ineligible(ids).unwrap();
                let m = choose|m: int| 0 <= m < ids.drop_first().len() && #[trigger] ids.drop_first()[m] == id;
                assert(ids[m + 1] == id);
            }
        } else {
            assert(ids[0] == ids[0]);
        }
    }
}

pub struct SafetyValidator {
    classifier: SyscallClassifier,
    checker: DependencyChecker,
    enforce_determinism: bool,
}

fn class_verdict(id: SyscallId, class: SafetyClass, verdict: &str) -> (s: String)
    requires
        class == spec_classify(id),
    ensures
        s@ == class_verdict_text(id, verdict@),
{
    let mut s = String::from_str("syscall ");
    push_decimal(&mut s, id as u64);
    s.append(" is ");
    s.append(class.name());
    s.append(" — ");
    s.append(verdict);
    s
}

impl SafetyValidator {
    pub closed spec fn enforces_determinism(&self) -> bool {
        self.enforce_determinism
    }

    pub fn new(enforce_determinism: bool) -> (v: Self)
        ensures
            v.enforces_determinism() == enforce_determinism,
    {
        SafetyValidator {
            classifier: SyscallClassifier::new(),
            checker: DependencyChecker,
            enforce_determinism,
        }
    }

    /// Caching is approved for eligible syscalls, or for any syscall when determinism
    /// is not enforced.
    pub fn validate_cache(&self, syscall_id: SyscallId) -> (r: ValidationResult)
        ensures
            r.kind == OptimizationKind::Cache,
            r.approved == (!self.enforces_determinism() || spec_eligible(syscall_id)),
            r.reason@ == if !self.enforces_determinism() {
                "determinism not enforced"@
            } else if spec_eligible(syscall_id) {
                class_verdict_text(syscall_id, "cacheable"@)
            } else {
                class_verdict_text(syscall_id, "not cacheable"@)
            },
    {
        if !self.enforce_determinism {
            return ValidationResult::approve(
                OptimizationKind::Cache,
                String::from_str("determinism not enforced"),
            );
        }
        let class = self.classifier.classify(syscall_id);
        if self.classifier.is_optimization_eligible(syscall_id) {
            ValidationResult::approve(OptimizationKind::Cache, class_verdict(syscall_id, class, "cacheable"))
        } else {
            ValidationResult::reject(OptimizationKind::Cache, class_verdict(syscall_id, class, "not cacheable"))
        }
    }

    /// Batching is approved exactly when every syscall in the batch is eligible.
    pub fn validate_batch(&self, syscall_ids: &[SyscallId]) -> (r: ValidationResult)
        ensures
            r.kind == OptimizationKind::Batch,
            r.approved == (forall|k: int| 0 <= k < syscall_ids@.len() ==> spec_eligible(#[trigger] syscall_ids@[k])),
            r.reason@ == match first_ineligible(syscall_ids@) {
                Some(id) => "syscall "@ + decimal(id as nat) + " is not eligible for batching"@,
                None => "all syscalls are batch-eligible"@,
            },
    {
        proof { lemma_first_ineligible(syscall_ids@); }
        let n = syscall_ids.len();
        let mut i: usize = 0;
        assert(syscall_ids@.skip(0) =~= syscall_ids@);
        while i < n
            invariant
                n == syscall_ids@.len(),
                i <= n,
                first_ineligible(syscall_ids@) == first_ineligible(syscall_ids@.skip(i as int)),
                forall|k: int| 0 <= k < i ==> spec_eligible(#[trigger] syscall_ids@[k]),
            decreases n - i,
        {
            let id = syscall_ids[i];
            assert(syscall_ids@.skip(i as int).drop_first() =~= syscall_ids@.skip(i + 1));
            if !self.classifier.is_optimization_eligible(id) {
                let mut s = String::from_str("syscall ");
                push_decimal(&mut s, id as u64);
                s.append(" is not eligible for batching");
                return ValidationResult::reject(OptimizationKind::Batch, s);
            }
            i = i + 1;
        }
        assert(syscall_ids@.skip(n as int).len() == 0);
        ValidationResult::approve(OptimizationKind::Batch, String::from_str("all syscalls are batch-eligible"))
    }

    /// Reordering is approved exactly when the sequence is dependency-free and all of
    /// its syscalls are `ReadOnly`.
    pub fn validate_reorder(&self, sequence: &[SyscallTraceEvent]) -> (r: ValidationResult)
        ensures
            r.kind == OptimizationKind::Reorder,
            r.approved == (!has_dep_edge(sequence@) && all_read_only(sequence@)),
            r.reason@ == if has_dep_edge(sequence@) {
                "sequence has data dependencies — reordering unsafe"@
            } else if !all_read_only(sequence@) {
                "sequence contains non-ReadOnly syscalls — reordering not permitted"@
            } else {
                "all syscalls are ReadOnly and dependency-free"@
            },
    {
        if DependencyChecker::has_dependencies(sequence) {
            return ValidationResult::reject(
                OptimizationKind::Reorder,
                String::from_str("sequence has data dependencies — reordering unsafe"),
            );
        }
        if !DependencyChecker::is_safe_to_reorder(sequence) {
            return ValidationResult::reject(
                OptimizationKind::Reorder,
                String::from_str("sequence contains non-ReadOnly syscalls — reordering not permitted"),
            );
        }
        ValidationResult::approve(
            OptimizationKind::Reorder,
            String::from_str("all syscalls are ReadOnly and dependency-free"),
        )
    }

    /// Deduplication is approved exactly for `ReadOnly` and `Idempotent` syscalls.
    pub fn validate_dedup(&self, syscall_id: SyscallId) -> (r: ValidationResult)
        ensures
            r.kind == OptimizationKind::Dedup,
            r.approved == spec_eligible(syscall_id),
            r.reason@ == if spec_eligible(syscall_id) {
                "idempotent — dedup safe"@
            } else {
                class_verdict_text(syscall_id, "dedup would alter semantics"@)
            },
    {
        let class = self.classifier.classify(syscall_id);
        match class {
            SafetyClass::ReadOnly | SafetyClass::Idempotent => {
                ValidationResult::approve(OptimizationKind::Dedup, String::from_str("idempotent — dedup safe"))
            },
            _ => ValidationResult::reject(
                OptimizationKind::Dedup,
                class_verdict(syscall_id, class, "dedup would alter semantics"),
            ),
        }
    }
}

} // verus!
