//! Analysis of a library module: which of its functions touch instance state
//! (a linear memory or a mutable global), directly or through their callees.

use vstd::prelude::*;
use crate::bindings::{
    parse_fails, payload_tags, PayloadTag,
    body_operators, error_text, export_entry, export_items, func_types_strict, global_items, global_type,
    read_import, import_items, memory_items, parse_payloads, section_of, u32_items, Section,
};
use crate::callgraph::{close_state_touching, touches};
use crate::model::{ExternKind, ImportType};
use crate::ops::{summarize, OpSummary};
use vstd::string::StringExecFns;

verus! {

/// Whether one instruction accesses instance state by itself: any memory
/// instruction, or a `global.get` / `global.set` of a mutable global.
pub open spec fn accesses_state(op: OpSummary, mutable: Seq<u32>) -> bool {
    match op {
        OpSummary::GlobalGet(g) => mutable.contains(g),
        OpSummary::GlobalSet(g) => mutable.contains(g),
        OpSummary::Access { .. } => true,
        OpSummary::Copy { .. } => true,
        _ => false,
    }
}

/// Whether a body accesses instance state by itself.
pub open spec fn body_accesses_state(ops: Seq<OpSummary>, mutable: Seq<u32>) -> bool {
    exists|i: int| 0 <= i < ops.len() && accesses_state(#[trigger] ops[i], mutable)
}

/// The targets of the `call` instructions of a body, in order.
pub open spec fn call_targets(ops: Seq<OpSummary>) -> Seq<u32>
    decreases ops.len(),
{
    if ops.len() == 0 {
        seq![]
    } else {
        let rest = call_targets(ops.drop_last());
        match ops.last() {
            OpSummary::Call(f) => rest.push(f),
            _ => rest,
        }
    }
}

/// What the analysis keeps of one function body: whether it accesses state
/// itself, and the functions it calls.
pub fn body_facts(ops: &Vec<OpSummary>, mutable: &Vec<u32>) -> (r: (bool, Vec<u32>))
    ensures
        r.0 == body_accesses_state(ops@, mutable@),
        r.1@ == call_targets(ops@),
        r.0 <==> exists|i: int|
            0 <= i < ops.len() && ({
                ||| (#[trigger] ops@[i] matches OpSummary::GlobalGet(g) && mutable@.contains(g))
                ||| (ops@[i] matches OpSummary::GlobalSet(g) && mutable@.contains(g))
                ||| ops@[i] is Access
                ||| ops@[i] is Copy
            }),
        forall|i: int| 0 <= i < ops.len() ==> (#[trigger] ops@[i] matches OpSummary::Call(f) ==> r.1@.contains(f)),
{
    let mut direct = false;
    let mut callees: Vec<u32> = Vec::new();
    let mut i: usize = 0;
    while i < ops.len()
        invariant
            i <= ops.len(),
            direct == exists|j: int| 0 <= j < i && accesses_state(#[trigger] ops@[j], mutable@),
            callees@ == call_targets(ops@.take(i as int)),
        decreases ops.len() - i,
    {
        let op = ops[i];
        let hit = match op {
            OpSummary::GlobalGet(g) => crate::counting::vec_contains(mutable, g),
            OpSummary::GlobalSet(g) => crate::counting::vec_contains(mutable, g),
            OpSummary::Access { .. } => true,
            OpSummary::Copy { .. } => true,
            _ => false,
        };
        match op {
            OpSummary::Call(f) => callees.push(f),
            _ => {},
        }
        proof {
            assert(ops@.take(i + 1).drop_last() =~= ops@.take(i as int));
            if hit {
                assert(accesses_state(ops@[i as int], mutable@));
            }
        }
        direct = direct || hit;
        i += 1;
    }
    proof {
        assert(ops@.take(ops.len() as int) =~= ops@);
        lemma_calls_listed(ops@);
    }
    (direct, callees)
}

/// Every call of a body is among its call targets.
pub proof fn lemma_calls_listed(ops: Seq<OpSummary>)
    ensures
        forall|i: int| 0 <= i < ops.len() ==> (#[trigger] ops[i] matches OpSummary::Call(f) ==> call_targets(ops).contains(f)),
    decreases ops.len(),
{
    if ops.len() > 0 {
        lemma_calls_listed(ops.drop_last());
        let rest = call_targets(ops.drop_last());
        assert forall|i: int| 0 <= i < ops.len() implies (#[trigger] ops[i] matches OpSummary::Call(f) ==> call_targets(ops).contains(f)) by {
            match ops[i] {
                OpSummary::Call(f) => {
                    if i < ops.len() - 1 {
                        assert(ops.drop_last()[i] == ops[i]);
                        assert(rest.contains(f));
                        let k = choose|k: int| 0 <= k < rest.len() && rest[k] == f;
                        match ops.last() {
                            OpSummary::Call(g) => assert(call_targets(ops)[k] == f),
                            _ => {},
                        }
                    } else {
                        assert(call_targets(ops) == rest.push(f));
                        assert(call_targets(ops)[rest.len() as int] == f);
                    }
                },
                _ => {},
            }
        }
    }
}

/// The analysis of a library module.
pub struct LibAnalysis {
    /// Indices of the mutable globals, imported ones first.
    pub mutable_globals: Vec<u32>,
    /// Per defined function: whether its body accesses state itself.
    pub direct: Vec<bool>,
    /// Per defined function: the functions its body calls.
    pub callees: Vec<Vec<u32>>,
    /// Per function index: whether the function touches state.
    pub state_touching: Vec<bool>,
    pub num_imported_functions: u32,
    pub num_functions: u32,
    /// The type index of each function, imported ones first.
    pub func_type_indices: Vec<u32>,
    /// The function exports: name and function index.
    pub exports: Vec<(String, u32)>,
    pub memory_count: u32,
}

impl LibAnalysis {
    /// The flags agree with the call graph: a function is marked state-touching
    /// exactly when a chain of calls from it reaches a direct state access.
    pub open spec fn wf(&self) -> bool {
        &&& self.direct.len() == self.callees.len()
        &&& self.num_functions == self.num_imported_functions + self.callees.len()
        &&& self.state_touching.len() == self.num_functions
        &&& forall|f: u32| f < self.num_functions ==>
                (self.state_touching@[f as int] <==> touches(self.direct@, self.callees@, self.num_imported_functions, f))
    }
}

/// The summaries of the operators of a body that parse; none when the body's
/// operator reader cannot be made.
fn body_summaries(body: &wasmparser::FunctionBody) -> Vec<OpSummary> {
    let mut out: Vec<OpSummary> = Vec::new();
    match body_operators(body) {
        Ok(ops) => {
            let mut k: usize = 0;
            while k < ops.len()
                decreases ops.len() - k,
            {
                match &ops[k] {
                    Ok(op) => out.push(summarize(op)),
                    Err(_) => {},
                }
                k += 1;
            }
        },
        Err(_) => {},
    }
    out
}

/// Analyzes a library module for state-touching functions. Parse errors come
/// back as their text; so do types that are not plain function types.
#[verifier::loop_isolation(false)]
pub fn analyze_lib(wasm: &[u8]) -> (r: Result<LibAnalysis, String>)
    ensures
        parse_fails(wasm@) ==> r is Err,
        r matches Ok(a) ==> a.wf(),
{
    let too_many = "too many functions";
    let mut mutable_globals: Vec<u32> = Vec::new();
    let mut global_count: u32 = 0;
    let mut memory_count: u32 = 0;
    let mut ni: u32 = 0;
    let mut func_type_indices: Vec<u32> = Vec::new();
    let mut exports: Vec<(String, u32)> = Vec::new();
    let mut direct: Vec<bool> = Vec::new();
    let mut callees: Vec<Vec<u32>> = Vec::new();
    let (payloads, tags) = parse_payloads(wasm);
    let mut i: usize = 0;
    while i < payloads.len()
        invariant
            i <= payloads.len(),
            tags@ == payload_tags(wasm@),
            tags.len() == payloads.len(),
            forall|j: int| 0 <= j < payloads.len() ==> (payloads@[j] is Err <==> #[trigger] tags@[j] == PayloadTag::Failed),
            forall|j: int| 0 <= j < i ==> #[trigger] tags@[j] != PayloadTag::Failed,
            direct.len() == callees.len(),
            ni + callees.len() <= u32::MAX,
        decreases payloads.len() - i,
    {
        match &payloads[i] {
            Err(e) => return Err(error_text(e)),
            Ok(p) => match section_of(p) {
                Section::Types(reader) => match func_types_strict(reader) {
                    Err(e) => return Err(error_text(&e)),
                    Ok(_) => {},
                },
                Section::Imports(reader) => {
                    let items = import_items(reader);
                    let mut k: usize = 0;
                    while k < items.len()
                        invariant
                            direct.len() == callees.len(),
                            ni + callees.len() <= u32::MAX,
                        decreases items.len() - k,
                    {
                        match &items[k] {
                            Err(e) => return Err(error_text(e)),
                            Ok(imp) => match read_import(imp).ty {
                                ImportType::Func(ti) => {
                                    if ni as usize + callees.len() >= u32::MAX as usize {
                                        return Err(String::from_str(too_many));
                                    }
                                    func_type_indices.push(ti);
                                    ni = ni + 1;
                                },
                                ImportType::Global { mutable, .. } => {
                                    if mutable {
                                        mutable_globals.push(global_count);
                                    }
                                    global_count = global_count.wrapping_add(1);
                                },
                                ImportType::Memory(_) => {
                                    memory_count = memory_count.wrapping_add(1);
                                },
                                _ => {},
                            },
                        }
                        k += 1;
                    }
                },
                Section::Globals(reader) => {
                    let items = global_items(reader);
                    let mut k: usize = 0;
                    while k < items.len()
                        decreases items.len() - k,
                    {
                        match &items[k] {
                            Err(e) => return Err(error_text(e)),
                            Ok(g) => {
                                let (_, mutable, _) = global_type(g);
                                if mutable {
                                    mutable_globals.push(global_count);
                                }
                                global_count = global_count.wrapping_add(1);
                            },
                        }
                        k += 1;
                    }
                },
                Section::Memories(reader) => {
                    let items = memory_items(reader);
                    let mut k: usize = 0;
                    while k < items.len()
                        decreases items.len() - k,
                    {
                        memory_count = memory_count.wrapping_add(1);
                        k += 1;
                    }
                },
                Section::Functions(reader) => {
                    let items = u32_items(reader);
                    let mut k: usize = 0;
                    while k < items.len()
                        decreases items.len() - k,
                    {
                        match &items[k] {
                            Err(e) => return Err(error_text(e)),
                            Ok(t) => func_type_indices.push(*t),
                        }
                        k += 1;
                    }
                },
                Section::Exports(reader) => {
                    let items = export_items(reader);
                    let mut k: usize = 0;
                    while k < items.len()
                        decreases items.len() - k,
                    {
                        match &items[k] {
                            Err(e) => return Err(error_text(e)),
                            Ok(e) => {
                                let entry = export_entry(e);
                                match entry.kind {
                                    ExternKind::Func => exports.push((entry.name, entry.index)),
                                    _ => {},
                                }
                            },
                        }
                        k += 1;
                    }
                },
                Section::CodeEntry(body) => {
                    if ni as usize + callees.len() >= u32::MAX as usize {
                        return Err(String::from_str(too_many));
                    }
                    let ops = body_summaries(&body);
                    let (d, cs) = body_facts(&ops, &mutable_globals);
                    direct.push(d);
                    callees.push(cs);
                },
                _ => {},
            },
        }
        i += 1;
    }
    let num_functions = ni + callees.len() as u32;
    let state_touching = close_state_touching(&direct, &callees, ni);
    Ok(LibAnalysis {
        mutable_globals,
        direct,
        callees,
        state_touching,
        num_imported_functions: ni,
        num_functions,
        func_type_indices,
        exports,
        memory_count,
    })
}

} // verus!
