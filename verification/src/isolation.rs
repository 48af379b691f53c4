//! Post-merge isolation verification: checks that every function in the
//! merged module only accesses memory indices it is allowed to.

use vstd::prelude::*;
use vstd::string::StringExecFns;
use std::collections::HashSet;
use crate::bindings::{body_operators, parse_payloads, section_of, Section};
use crate::ops::{extract_memory_indices, index_views, memory_indices, summarize, summary_wf, OpSummary};
use crate::text::{decimal, decimal_string};
use crate::analyze::accesses_state;
use crate::ops::{kind_name, MemOpKind};
use crate::rewrite::{consumer_op_spec, instance_memory, lemma_specialized_copy_isolated, specialize_op_spec, Emit};

verus! {

broadcast use vstd::std_specs::hash::group_hash_axioms;

/// Describes the isolation properties of a merged module.
pub struct MergeManifest {
    /// Number of imported functions (no code bodies to verify).
    pub num_imported_functions: u32,
    /// For each defined function (indexed from 0), the set of memory indices
    /// it may access. None means no memory access allowed (pure, wrapper, etc.).
    pub func_allowed_memories: Vec<Option<HashSet<u32>>>,
}

/// A memory access that the manifest does not allow.
pub struct Violation {
    pub func_index: u32,
    pub memory_index_used: u32,
    pub op_name: String,
}

impl Violation {
    /// The report line: `func <index>: <instruction> accesses memory <memory>`.
    pub fn message(&self) -> (s: String)
        ensures
            s@ == "func "@ + decimal(self.func_index as nat) + ": "@ + self.op_name@ + " accesses memory "@ + decimal(
                self.memory_index_used as nat,
            ),
    {
        let mut s = String::from_str("func ");
        s.append(decimal_string(self.func_index as u64).as_str());
        s.append(": ");
        s.append(self.op_name.as_str());
        s.append(" accesses memory ");
        s.append(decimal_string(self.memory_index_used as u64).as_str());
        s
    }
}

pub open spec fn violation_views(v: Seq<Violation>) -> Seq<(u32, u32, Seq<char>)> {
    v.map_values(|x: Violation| (x.func_index, x.memory_index_used, x.op_name@))
}

/// What the manifest allows defined function `k`: `None` when it does not
/// list the function, `Some(None)` when the function may access no memory.
pub open spec fn allowed_for(m: MergeManifest, k: int) -> Option<Option<Set<u32>>> {
    if 0 <= k < m.func_allowed_memories.len() {
        match m.func_allowed_memories@[k] {
            Some(s) => Some(Some(s@)),
            None => Some(None),
        }
    } else {
        None
    }
}

/// An access of memory `mem` breaks isolation unless the function is listed
/// with a set of memories that holds `mem`.
pub open spec fn is_violation(allowed: Option<Option<Set<u32>>>, mem: u32) -> bool {
    match allowed {
        Some(Some(s)) => !s.contains(mem),
        _ => true,
    }
}

/// The violations of the accesses `acc` of function `func`, in order.
pub open spec fn access_violations(func: u32, allowed: Option<Option<Set<u32>>>, acc: Seq<(u32, Seq<char>)>)
    -> Seq<(u32, u32, Seq<char>)>
    decreases acc.len(),
{
    if acc.len() == 0 {
        seq![]
    } else {
        let rest = access_violations(func, allowed, acc.drop_last());
        let (mem, name) = acc.last();
        if is_violation(allowed, mem) {
            rest.push((func, mem, name))
        } else {
            rest
        }
    }
}

/// The violations of a body, instruction by instruction.
pub open spec fn body_violations_spec(func: u32, allowed: Option<Option<Set<u32>>>, ops: Seq<OpSummary>)
    -> Seq<(u32, u32, Seq<char>)>
    decreases ops.len(),
{
    if ops.len() == 0 {
        seq![]
    } else {
        body_violations_spec(func, allowed, ops.drop_last()) + access_violations(func, allowed, memory_indices(ops.last()))
    }
}

/// The violations of the bodies before position `k`; body `j` is defined
/// function `j`, at function index `num_imported_functions + j` (32-bit
/// wrapping).
pub open spec fn module_violations(m: MergeManifest, bodies: Seq<Seq<OpSummary>>, k: int) -> Seq<(u32, u32, Seq<char>)>
    decreases k,
{
    if k <= 0 {
        seq![]
    } else {
        module_violations(m, bodies, k - 1) + body_violations_spec(
            vstd::wrapping::u32_specs::wrapping_add(m.num_imported_functions, (k - 1) as u32),
            allowed_for(m, k - 1),
            bodies[k - 1],
        )
    }
}

proof fn lemma_access_reported(func: u32, allowed: Option<Option<Set<u32>>>, acc: Seq<(u32, Seq<char>)>, i: int)
    requires
        0 <= i < acc.len(),
        is_violation(allowed, acc[i].0),
    ensures
        access_violations(func, allowed, acc).contains((func, acc[i].0, acc[i].1)),
    decreases acc.len(),
{
    let rest = access_violations(func, allowed, acc.drop_last());
    if i < acc.len() - 1 {
        lemma_access_reported(func, allowed, acc.drop_last(), i);
        assert(acc.drop_last()[i] == acc[i]);
        let k = choose|k: int| 0 <= k < rest.len() && rest[k] == (func, acc[i].0, acc[i].1);
        assert(access_violations(func, allowed, acc)[k] == rest[k]);
    } else {
        assert(access_violations(func, allowed, acc) == rest.push((func, acc[i].0, acc[i].1)));
        assert(access_violations(func, allowed, acc)[rest.len() as int] == (func, acc[i].0, acc[i].1));
    }
}

proof fn lemma_body_reported(func: u32, allowed: Option<Option<Set<u32>>>, ops: Seq<OpSummary>, i: int, v: (u32, u32, Seq<char>))
    requires
        0 <= i < ops.len(),
        access_violations(func, allowed, memory_indices(ops[i])).contains(v),
    ensures
        body_violations_spec(func, allowed, ops).contains(v),
    decreases ops.len(),
{
    let rest = body_violations_spec(func, allowed, ops.drop_last());
    let here = access_violations(func, allowed, memory_indices(ops.last()));
    let all = body_violations_spec(func, allowed, ops);
    assert(all == rest + here);
    if i < ops.len() - 1 {
        assert(ops.drop_last()[i] == ops[i]);
        lemma_body_reported(func, allowed, ops.drop_last(), i, v);
        let k = choose|k: int| 0 <= k < rest.len() && rest[k] == v;
        assert(all[k] == v);
    } else {
        let k = choose|k: int| 0 <= k < here.len() && here[k] == v;
        assert(all[rest.len() + k] == v);
    }
}

proof fn lemma_module_reported(m: MergeManifest, bodies: Seq<Seq<OpSummary>>, n: int, k: int, v: (u32, u32, Seq<char>))
    requires
        0 <= k < n,
        body_violations_spec(
            vstd::wrapping::u32_specs::wrapping_add(m.num_imported_functions, k as u32),
            allowed_for(m, k),
            bodies[k],
        ).contains(v),
    ensures
        module_violations(m, bodies, n).contains(v),
    decreases n,
{
    let rest = module_violations(m, bodies, n - 1);
    let all = module_violations(m, bodies, n);
    if k < n - 1 {
        lemma_module_reported(m, bodies, n - 1, k, v);
        let j = choose|j: int| 0 <= j < rest.len() && rest[j] == v;
        assert(all[j] == v);
    } else {
        let here = body_violations_spec(
            vstd::wrapping::u32_specs::wrapping_add(m.num_imported_functions, k as u32),
            allowed_for(m, k),
            bodies[k],
        );
        let j = choose|j: int| 0 <= j < here.len() && here[j] == v;
        assert(all[rest.len() + j] == v);
    }
}

/// A load, store or other single-memory access of a defined function to a
/// memory outside the set the manifest gives that function is reported: the
/// module's violations hold that function's index, the memory and the
/// instruction's name.
pub proof fn lemma_forbidden_access_reported(
    m: MergeManifest,
    bodies: Seq<Seq<OpSummary>>,
    k: int,
    i: int,
    kind: MemOpKind,
    memory: u32,
    offset: u64,
)
    requires
        0 <= k < bodies.len(),
        0 <= i < bodies[k].len(),
        bodies[k][i] == (OpSummary::Access { kind, memory, offset }),
        k < m.func_allowed_memories.len(),
        m.func_allowed_memories@[k] matches Some(set) && !set@.contains(memory),
    ensures
        module_violations(m, bodies, bodies.len() as int).contains(
            (vstd::wrapping::u32_specs::wrapping_add(m.num_imported_functions, k as u32), memory, kind_name(kind)),
        ),
{
    let func = vstd::wrapping::u32_specs::wrapping_add(m.num_imported_functions, k as u32);
    let acc = memory_indices(bodies[k][i]);
    assert(acc == seq![(memory, kind_name(kind))]);
    assert(acc[0] == (memory, kind_name(kind)));
    lemma_access_reported(func, allowed_for(m, k), acc, 0);
    lemma_body_reported(func, allowed_for(m, k), bodies[k], i, (func, memory, kind_name(kind)));
    lemma_module_reported(m, bodies, bodies.len() as int, k, (func, memory, kind_name(kind)));
}

/// The memory accesses of one written instruction, as the isolation check
/// names them; a kept instruction has those of the instruction it keeps.
pub open spec fn emitted_accesses(e: Emit, op: OpSummary) -> Seq<(u32, Seq<char>)> {
    match e {
        Emit::Keep => memory_indices(op),
        Emit::Plain(_) => seq![],
        Emit::Memory { kind, memory } => if kind == MemOpKind::MemoryCopy {
            seq![(memory, "memory.copy (dst)"@), (memory, "memory.copy (src)"@)]
        } else {
            seq![(memory, kind_name(kind))]
        },
        Emit::MemoryAt { kind, memory, .. } => if kind == MemOpKind::MemoryCopy {
            seq![(memory, "memory.copy (dst)"@), (memory, "memory.copy (src)"@)]
        } else {
            seq![(memory, kind_name(kind))]
        },
        Emit::CopyBetween { dst, src } => seq![(dst, "memory.copy (dst)"@), (src, "memory.copy (src)"@)],
    }
}

/// Memory accesses with each memory moved to instance `inst`'s copy of it.
pub open spec fn instance_accesses(acc: Seq<(u32, Seq<char>)>, n: u32, inst: u32) -> Seq<(u32, Seq<char>)> {
    acc.map_values(|a: (u32, Seq<char>)| (instance_memory(a.0, n, inst), a.1))
}

/// A consumer body touches only its own copies of the memories: what the
/// specializing merge writes for one instruction of consumer `inst`'s body
/// accesses exactly the memories the instruction accesses, each moved to the
/// consumer's copy of it.
pub proof fn lemma_consumer_body_uses_own_memories(
    op: OpSummary,
    remap: Seq<Option<u32>>,
    imported: u32,
    base: u32,
    n: u32,
    inst: u32,
    i: int,
)
    requires
        summary_wf(op),
        0 <= i < consumer_op_spec(op, remap, imported, base, n, inst).len(),
    ensures
        emitted_accesses(consumer_op_spec(op, remap, imported, base, n, inst)[i], op) == instance_accesses(
            memory_indices(op),
            n,
            inst,
        ),
{
    let s = consumer_op_spec(op, remap, imported, base, n, inst);
    match op {
        OpSummary::Access { kind, memory, offset } => {
            assert(s[i] == Emit::MemoryAt { kind, memory: instance_memory(memory, n, inst), offset });
            assert(emitted_accesses(s[i], op) =~= instance_accesses(memory_indices(op), n, inst));
        },
        OpSummary::Copy { dst_mem, src_mem } => {
            assert(emitted_accesses(s[i], op) =~= instance_accesses(memory_indices(op), n, inst));
        },
        _ => {
            assert(emitted_accesses(s[i], op) =~= instance_accesses(memory_indices(op), n, inst));
        },
    }
}

/// The isolation check finds nothing in what the specializing merge writes for
/// one instruction of consumer `inst`'s copy, when the manifest allows that
/// function the consumer's memory.
pub proof fn lemma_specialized_copy_passes_check(
    op: OpSummary,
    inst: u32,
    fshift: u32,
    temp_base: u32,
    mutable: Seq<u32>,
    global_base: Seq<u32>,
    targets: Seq<Option<u32>>,
    func: u32,
    allowed: Set<u32>,
    i: int,
)
    requires
        allowed.contains(inst),
        specialize_op_spec(op, inst, fshift, temp_base, mutable, global_base, targets) matches Some(s) && 0 <= i < s.len(),
    ensures
        access_violations(
            func,
            Some(Some(allowed)),
            emitted_accesses(specialize_op_spec(op, inst, fshift, temp_base, mutable, global_base, targets)->0[i], op),
        ) == Seq::<(u32, u32, Seq<char>)>::empty(),
{
    lemma_specialized_copy_isolated(op, inst, fshift, temp_base, mutable, global_base, targets);
    reveal_with_fuel(access_violations, 3);
    let s = specialize_op_spec(op, inst, fshift, temp_base, mutable, global_base, targets)->0;
    let acc = emitted_accesses(s[i], op);
    match s[i] {
        Emit::Keep => {
            assert(!accesses_state(op, mutable));
            assert(acc =~= seq![]);
        },
        Emit::Plain(_) => {},
        Emit::MemoryAt { .. } => {},
        Emit::CopyBetween { .. } => {},
        Emit::Memory { kind, memory } => {
            assert(memory == inst);
            if kind == MemOpKind::MemoryCopy {
                assert(acc.drop_last() =~= seq![(memory, "memory.copy (dst)"@)]);
                assert(acc.drop_last().drop_last() =~= Seq::<(u32, Seq<char>)>::empty());
            } else {
                assert(acc.drop_last() =~= Seq::<(u32, Seq<char>)>::empty());
            }
        },
    }
}

fn allowed_contains(allowed: Option<&Option<HashSet<u32>>>, mem: u32) -> (r: bool)
    ensures
        r == !is_violation(
            match allowed {
                Some(Some(s)) => Some(Some(s@)),
                Some(None) => Some(None),
                None => None,
            },
            mem,
        ),
{
    match allowed {
        Some(Some(set)) => set.contains(&mem),
        _ => false,
    }
}

/// The violations of one body: every memory access of its instructions that
/// `allowed` does not permit, reported for function `func`.
pub fn body_violations(func: u32, allowed: Option<&Option<HashSet<u32>>>, ops: &Vec<OpSummary>) -> (r: Vec<Violation>)
    ensures
        violation_views(r@) == body_violations_spec(
            func,
            match allowed {
                Some(Some(s)) => Some(Some(s@)),
                Some(None) => Some(None),
                None => None,
            },
            ops@,
        ),
{
    let ghost av = match allowed {
        Some(Some(s)) => Some(Some(s@)),
        Some(None) => Some(None),
        None => None,
    };
    let mut out: Vec<Violation> = Vec::new();
    let mut i: usize = 0;
    while i < ops.len()
        invariant
            av == (match allowed {
                Some(Some(s)) => Some(Some(s@)),
                Some(None) => Some(None),
                None => None,
            }),
            i <= ops.len(),
            violation_views(out@) == body_violations_spec(func, av, ops@.take(i as int)),
        decreases ops.len() - i,
    {
        proof {
            assert(ops@.take(i + 1).drop_last() =~= ops@.take(i as int));
        }
        let acc = extract_memory_indices(&ops[i]);
        let ghost start = violation_views(out@);
        let mut j: usize = 0;
        while j < acc.len()
            invariant
                av == (match allowed {
                    Some(Some(s)) => Some(Some(s@)),
                    Some(None) => Some(None),
                    None => None,
                }),
                j <= acc.len(),
                violation_views(out@) == start + access_violations(func, av, index_views(acc@).take(j as int)),
            decreases acc.len() - j,
        {
            proof {
                assert(index_views(acc@).take(j + 1).drop_last() =~= index_views(acc@).take(j as int));
            }
            let mem = acc[j].0;
            if !allowed_contains(allowed, mem) {
                let ghost before = out@;
                out.push(Violation { func_index: func, memory_index_used: mem, op_name: acc[j].1.clone() });
                proof {
                    assert(violation_views(out@) =~= violation_views(before).push((func, mem, acc@[j as int].1@)));
                }
            }
            j += 1;
        }
        proof {
            assert(index_views(acc@).take(acc.len() as int) =~= index_views(acc@));
        }
        i += 1;
    }
    proof {
        assert(ops@.take(ops.len() as int) =~= ops@);
    }
    out
}

/// The instructions of each code body of a module, in order: those that parse
/// (none when the body's operator reader cannot be made). Sections that do not
/// parse are passed over.
pub fn code_summaries(wasm: &[u8]) -> Vec<Vec<OpSummary>> {
    let mut bodies: Vec<Vec<OpSummary>> = Vec::new();
    let (payloads, tags) = parse_payloads(wasm);
    let mut i: usize = 0;
    while i < payloads.len()
        decreases payloads.len() - i,
    {
        match &payloads[i] {
            Ok(p) => match section_of(p) {
                Section::CodeEntry(body) => {
                    let mut ops: Vec<OpSummary> = Vec::new();
                    match body_operators(&body) {
                        Ok(items) => {
                            let mut k: usize = 0;
                            while k < items.len()
                                decreases items.len() - k,
                            {
                                match &items[k] {
                                    Ok(op) => ops.push(summarize(op)),
                                    Err(_) => {},
                                }
                                k += 1;
                            }
                        },
                        Err(_) => {},
                    }
                    bodies.push(ops);
                },
                _ => {},
            },
            Err(_) => {},
        }
        i += 1;
    }
    bodies
}

pub open spec fn bodies_view(bodies: Seq<Vec<OpSummary>>) -> Seq<Seq<OpSummary>> {
    bodies.map_values(|v: Vec<OpSummary>| v@)
}

/// The violations of a module whose code bodies hold the instructions
/// `bodies`: body `j` is defined function `j`.
pub fn manifest_violations(bodies: &Vec<Vec<OpSummary>>, manifest: &MergeManifest) -> (r: Vec<Violation>)
    ensures
        violation_views(r@) == module_violations(*manifest, bodies_view(bodies@), bodies.len() as int),
{
    let ghost bv = bodies_view(bodies@);
    let mut out: Vec<Violation> = Vec::new();
    let mut k: usize = 0;
    while k < bodies.len()
        invariant
            bv == bodies_view(bodies@),
            k <= bodies.len(),
            violation_views(out@) == module_violations(*manifest, bv, k as int),
        decreases bodies.len() - k,
    {
        let func = manifest.num_imported_functions.wrapping_add(k as u32);
        let allowed = if k < manifest.func_allowed_memories.len() {
            Some(&manifest.func_allowed_memories[k])
        } else {
            None
        };
        let mut found = body_violations(func, allowed, &bodies[k]);
        let ghost before = out@;
        let ghost found_v = found@;
        out.append(&mut found);
        proof {
            assert(bv[k as int] == bodies@[k as int]@);
            assert(allowed_for(*manifest, k as int) == (match allowed {
                Some(Some(s)) => Some(Some(s@)),
                Some(None) => Some(None),
                None => None::<Option<Set<u32>>>,
            }));
            assert(violation_views(out@) =~= violation_views(before) + violation_views(found_v));
        }
        k += 1;
    }
    out
}

/// Verify that every function in the merged module only accesses its allowed
/// memories: the violations of `manifest_violations` for the instructions
/// `code_summaries` reads from the module.
pub fn verify_isolation(wasm: &[u8], manifest: &MergeManifest) -> (r: Vec<Violation>)
    ensures
        exists|bodies: Seq<Seq<OpSummary>>|
            #![trigger module_violations(*manifest, bodies, bodies.len() as int)]
            violation_views(r@) == module_violations(*manifest, bodies, bodies.len() as int),
{
    let bodies = code_summaries(wasm);
    let r = manifest_violations(&bodies, manifest);
    proof {
        assert(bodies_view(bodies@).len() == bodies.len());
    }
    r
}

} // verus!
