//! Dynamic dependency detection over syscall sequences (phase two of the safety gate).

use vstd::prelude::*;
use vstd::string::StringExecFns;
use crate::common::{bytes32_eq, SafetyClass, SyscallTraceEvent};
use crate::safety::classifier::{spec_classify, SyscallClassifier};
use crate::text::{decimal, push_decimal};

verus! {

#[derive(Debug, Clone)]
pub struct DataDependency {
    pub from_index: usize,
    pub to_index: usize,
    pub reason: String,
}

pub struct DependencyChecker;

/// A syscall that writes: `StateChanging` or `OrderSensitive`.
pub open spec fn is_writer(id: u32) -> bool {
    spec_classify(id) == SafetyClass::StateChanging || spec_classify(id) == SafetyClass::OrderSensitive
}

/// A syscall that reads: `ReadOnly` or `Idempotent`.
pub open spec fn is_reader(id: u32) -> bool {
    spec_classify(id) == SafetyClass::ReadOnly || spec_classify(id) == SafetyClass::Idempotent
}

/// Event `i` writes state of a program that the later event `j` reads.
pub open spec fn dep_edge(seq: Seq<SyscallTraceEvent>, i: int, j: int) -> bool {
    &&& 0 <= i < j < seq.len()
    &&& is_writer(seq[i].syscall_id)
    &&& seq[j].program_id == seq[i].program_id
    &&& is_reader(seq[j].syscall_id)
}

/// Dependencies `(i, k)` with `i < k < j`, in increasing `k`.
pub open spec fn deps_row(seq: Seq<SyscallTraceEvent>, i: int, j: int) -> Seq<(int, int)>
    decreases j - i,
{
    if j <= i + 1 {
        Seq::empty()
    } else if dep_edge(seq, i, j - 1) {
        deps_row(seq, i, j - 1).push((i, j - 1))
    } else {
        deps_row(seq, i, j - 1)
    }
}

/// Dependencies whose source index is below `i`, ordered by source then target.
pub open spec fn deps_upto(seq: Seq<SyscallTraceEvent>, i: int) -> Seq<(int, int)>
    decreases i,
{
    if i <= 0 {
        Seq::empty()
    } else {
        deps_upto(seq, i - 1) + deps_row(seq, i - 1, seq.len() as int)
    }
}

/// All dependencies of a sequence, ordered by source index, then target index.
pub open spec fn spec_dependencies(seq: Seq<SyscallTraceEvent>) -> Seq<(int, int)> {
    deps_upto(seq, seq.len() as int)
}

/// The explanation attached to dependency `(i, j)`.
pub open spec fn reason_text(i: int, from_id: u32, j: int, to_id: u32) -> Seq<char> {
    "syscall["@ + decimal(i as nat) + "] (id="@ + decimal(from_id as nat)
        + ") mutates state read by syscall["@ + decimal(j as nat) + "] (id="@ + decimal(to_id as nat)
        + ")"@
}

pub open spec fn has_dep_edge(seq: Seq<SyscallTraceEvent>) -> bool {
    exists|i: int, j: int| dep_edge(seq, i, j)
}

pub open spec fn all_read_only(seq: Seq<SyscallTraceEvent>) -> bool {
    forall|k: int| 0 <= k < seq.len() ==> spec_classify(#[trigger] seq[k].syscall_id) == SafetyClass::ReadOnly
}

proof fn lemma_row_members(seq: Seq<SyscallTraceEvent>, i: int, j: int)
    ensures
        forall|p: (int, int)| #[trigger] deps_row(seq, i, j).contains(p)
            <==> (p.0 == i && p.1 < j && dep_edge(seq, p.0, p.1)),
    decreases j - i,
{
    if j > i + 1 {
        lemma_row_members(seq, i, j - 1);
        let r = deps_row(seq, i, j - 1);
        let t = deps_row(seq, i, j);
        assert forall|p: (int, int)| #[trigger] t.contains(p)
            <==> (p.0 == i && p.1 < j && dep_edge(seq, p.0, p.1)) by {
            if dep_edge(seq, i, j - 1) {
                assert(t == r.push((i, j - 1)));
                if t.contains(p) {
                    let k = choose|k: int| 0 <= k < t.len() && #[trigger] t[k] == p;
                    if k < r.len() {
                        assert(r[k] == p);
                        assert(r.contains(p));
                    }
                }
                if p.0 == i && p.1 < j && dep_edge(seq, p.0, p.1) {
                    if p.1 < j - 1 {
                        assert(r.contains(p));
                        let k = choose|k: int| 0 <= k < r.len() && #[trigger] r[k] == p;
                        assert(t[k] == p);
                    } else {
                        assert(t[r.len() as int] == p);
                    }
                }
            } else {
                assert(t == r);
                if p.0 == i && p.1 == j - 1 {
                    assert(!dep_edge(seq, p.0, p.1));
                }
            }
        }
    } else {
        assert forall|p: (int, int)| #[trigger] deps_row(seq, i, j).contains(p)
            <==> (p.0 == i && p.1 < j && dep_edge(seq, p.0, p.1)) by {
            assert(deps_row(seq, i, j).len() == 0);
        }
    }
}

proof fn lemma_upto_members(seq: Seq<SyscallTraceEvent>, i: int)
    ensures
        forall|p: (int, int)| #[trigger] deps_upto(seq, i).contains(p)
            <==> (p.0 < i && dep_edge(seq, p.0, p.1)),
    decreases i,
{
    if i > 0 {
        lemma_upto_members(seq, i - 1);
        lemma_row_members(seq, i - 1, seq.len() as int);
        let a = deps_upto(seq, i - 1);
        let r = deps_row(seq, i - 1, seq.len() as int);
        let t = deps_upto(seq, i);
        assert(t == a + r);
        assert forall|p: (int, int)| #[trigger] t.contains(p)
            <==> (p.0 < i && dep_edge(seq, p.0, p.1)) by {
            if t.contains(p) {
                let k = choose|k: int| 0 <= k < t.len() && #[trigger] t[k] == p;
                if k < a.len() {
                    assert(a[k] == p);
                    assert(a.contains(p));
                } else {
                    assert(r[k - a.len()] == p);
                    assert(r.contains(p));
                }
            }
            if p.0 < i && dep_edge(seq, p.0, p.1) {
                if p.0 < i - 1 {
                    assert(a.contains(p));
                    let k = choose|k: int| 0 <= k < a.len() && #[trigger] a[k] == p;
                    assert(t[k] == p);
                } else {
                    assert(r.contains(p));
                    let k = choose|k: int| 0 <= k < r.len() && #[trigger] r[k] == p;
                    assert(t[k + a.len()] == p);
                }
            }
        }
    } else {
        assert forall|p: (int, int)| #[trigger] deps_upto(seq, i).contains(p)
            <==> (p.0 < i && dep_edge(seq, p.0, p.1)) by {
            assert(deps_upto(seq, i).len() == 0);
            if p.0 < i && dep_edge(seq, p.0, p.1) {
                assert(false);
            }
        }
    }
}

/// A pair of indices is reported as a dependency exactly when it is a write-then-read
/// edge on the same program.
pub proof fn lemma_dependencies_are_edges(seq: Seq<SyscallTraceEvent>)
    ensures
        forall|i: int, j: int| spec_dependencies(seq).contains((i, j)) <==> dep_edge(seq, i, j),
        spec_dependencies(seq).len() == 0 <==> !has_dep_edge(seq),
{
    lemma_upto_members(seq, seq.len() as int);
    if spec_dependencies(seq).len() != 0 {
        let p = spec_dependencies(seq)[0];
        assert(spec_dependencies(seq).contains(p));
        assert(dep_edge(seq, p.0, p.1));
    }
    if has_dep_edge(seq) {
        let (i, j) = choose|i: int, j: int| dep_edge(seq, i, j);
        assert(spec_dependencies(seq).contains((i, j)));
    }
}

/// A sequence of only read-only syscalls has no dependencies.
pub proof fn lemma_read_only_has_no_edges(seq: Seq<SyscallTraceEvent>)
    requires
        all_read_only(seq),
    ensures
        !has_dep_edge(seq),
{
    assert forall|i: int, j: int| !dep_edge(seq, i, j) by {
        if 0 <= i < seq.len() {
            assert(spec_classify(seq[i].syscall_id) == SafetyClass::ReadOnly);
        }
    }
}

fn dependency_reason(i: usize, from_id: u32, j: usize, to_id: u32) -> (s: String)
    ensures
        s@ == reason_text(i as int, from_id, j as int, to_id),
{
    let mut s = String::from_str("syscall[");
    push_decimal(&mut s, i as u64);
    s.append("] (id=");
    push_decimal(&mut s, from_id as u64);
    s.append(") mutates state read by syscall[");
    push_decimal(&mut s, j as u64);
    s.append("] (id=");
    push_decimal(&mut s, to_id as u64);
    s.append(")");
    s
}

impl DependencyChecker {
    /// Find WAR/RAW dependencies in a syscall sequence: every state-changing or
    /// order-sensitive syscall at index i depends forward on each later read
    /// (`ReadOnly` or `Idempotent`) by the same program.
    pub fn check_sequence(sequence: &[SyscallTraceEvent]) -> (deps: Vec<DataDependency>)
        ensures
            deps@.len() == spec_dependencies(sequence@).len(),
            forall|k: int| 0 <= k < deps@.len() ==> {
                let d = #[trigger] deps@[k];
                let p = spec_dependencies(sequence@)[k];
                &&& d.from_index == p.0
                &&& d.to_index == p.1
                &&& d.reason@ == reason_text(p.0, sequence@[p.0].syscall_id, p.1, sequence@[p.1].syscall_id)
            },
    {
        let classifier = SyscallClassifier::new();
        let mut deps: Vec<DataDependency> = Vec::new();
        let n = sequence.len();
        let ghost seq = sequence@;
        let mut i: usize = 0;
        while i < n
            invariant
                n == seq.len(),
                seq == sequence@,
                i <= n,
                deps@.len() == deps_upto(seq, i as int).len(),
                forall|k: int| 0 <= k < deps@.len() ==> {
                    let d = #[trigger] deps@[k];
                    let p = deps_upto(seq, i as int)[k];
                    &&& d.from_index == p.0
                    &&& d.to_index == p.1
                    &&& d.reason@ == reason_text(p.0, seq[p.0].syscall_id, p.1, seq[p.1].syscall_id)
                },
            decreases n - i,
        {
            let from = &sequence[i];
            let from_class = classifier.classify(from.syscall_id);
            let writes = from_class == SafetyClass::StateChanging || from_class == SafetyClass::OrderSensitive;
            let ghost base = deps@;
            let ghost prefix = deps_upto(seq, i as int);
            let mut j: usize = i + 1;
            while j < n
                invariant
                    n == seq.len(),
                    seq == sequence@,
                    i < n,
                    i + 1 <= j <= n,
                    *from == seq[i as int],
                    writes == is_writer(from.syscall_id),
                    prefix == deps_upto(seq, i as int),
                    base.len() == prefix.len(),
                    deps@.len() == prefix.len() + deps_row(seq, i as int, j as int).len(),
                    forall|k: int| 0 <= k < deps@.len() ==> {
                        let d = #[trigger] deps@[k];
                        let p = (prefix + deps_row(seq, i as int, j as int))[k];
                        &&& d.from_index == p.0
                        &&& d.to_index == p.1
                        &&& d.reason@ == reason_text(p.0, seq[p.0].syscall_id, p.1, seq[p.1].syscall_id)
                    },
                decreases n - j,
            {
                let to = &sequence[j];
                if writes && bytes32_eq(&to.program_id, &from.program_id) {
                    let to_class = classifier.classify(to.syscall_id);
                    if to_class == SafetyClass::ReadOnly || to_class == SafetyClass::Idempotent {
                        let reason = dependency_reason(i, from.syscall_id, j, to.syscall_id);
                        deps.push(DataDependency { from_index: i, to_index: j, reason });
                    }
                }
                proof {
                    assert(prefix + deps_row(seq, i as int, j + 1) =~= if dep_edge(seq, i as int, j as int) {
                        (prefix + deps_row(seq, i as int, j as int)).push((i as int, j as int))
                    } else {
                        prefix + deps_row(seq, i as int, j as int)
                    });
                }
                j = j + 1;
            }
            assert(deps_upto(seq, i + 1) == prefix + deps_row(seq, i as int, n as int));
            i = i + 1;
        }
        deps
    }

    /// Whether the sequence has any dependency.
    pub fn has_dependencies(sequence: &[SyscallTraceEvent]) -> (b: bool)
        ensures
            b == has_dep_edge(sequence@),
    {
        proof { lemma_dependencies_are_edges(sequence@); }
        Self::check_sequence(sequence).len() != 0
    }

    /// A sequence may be reordered only when it has no dependencies and every syscall
    /// in it is `ReadOnly`.
    pub fn is_safe_to_reorder(sequence: &[SyscallTraceEvent]) -> (b: bool)
        ensures
            b == (!has_dep_edge(sequence@) && all_read_only(sequence@)),
    {
        if Self::has_dependencies(sequence) {
            return false;
        }
        let classifier = SyscallClassifier::new();
        let n = sequence.len();
        let mut k: usize = 0;
        while k < n
            invariant
                n == sequence@.len(),
                k <= n,
                forall|m: int| 0 <= m < k ==> spec_classify(#[trigger] sequence@[m].syscall_id) == SafetyClass::ReadOnly,
            decreases n - k,
        {
            if classifier.classify(sequence[k].syscall_id) != SafetyClass::ReadOnly {
                return false;
            }
            k = k + 1;
        }
        true
    }
}

} // verus!
