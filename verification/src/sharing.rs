//! The plan of the specializing merge: which library functions each consumer
//! gets its own copy of, and where every function, global and import of the
//! merged module lands.

use vstd::prelude::*;
use vstd::string::StringExecFns;
use crate::analyze::LibAnalysis;
use crate::callgraph::{is_touching_walk, lemma_start_reachable, reachable_from, reachable_state_touching};
use crate::copies::{copies_upto, copy_index, copy_layout, global_layout, slots_upto};
use crate::linking::{
    collect_unresolved, find_named, entries_spec, entry_functions, first_position, import_remap, import_target_spec,
    imports_view, lemma_entries_contain, lemma_first_position, lemma_st_filter_first, pairs_view, shell_index,
    st_filter, state_touching_exports, unresolved_upto, FuncImport, UnresolvedImport,
};
use crate::model::{ExportEntry, ExternKind};
use crate::plan::{export_views, PlannedExport};
use crate::text::{concat3, decimal, decimal_string};
use vstd::wrapping::u32_specs::wrapping_add;

verus! {

/// The sum of the first `c` counts.
pub open spec fn prefix_sum(counts: Seq<usize>, c: int) -> nat
    decreases c,
{
    if c <= 0 {
        0
    } else {
        prefix_sum(counts, c - 1) + counts[c - 1] as nat
    }
}

pub proof fn lemma_prefix_sum_monotone(counts: Seq<usize>, c: int, d: int)
    requires
        0 <= c <= d,
    ensures
        prefix_sum(counts, c) <= prefix_sum(counts, d),
    decreases d - c,
{
    if c < d {
        lemma_prefix_sum_monotone(counts, c, d - 1);
    }
}

/// What the plan is computed from, besides the library's analysis.
pub struct SharingInputs {
    /// The number of functions the library's function section declares.
    pub lib_defined: u32,
    /// The number of types of the library.
    pub lib_types: usize,
    /// Per library global: whether it is mutable.
    pub global_mutable: Vec<bool>,
    /// Per consumer: its function imports.
    pub imports: Vec<Vec<FuncImport>>,
    /// Per consumer: the number of its types.
    pub type_counts: Vec<usize>,
    /// Per consumer: the number of functions its function section declares.
    pub func_counts: Vec<usize>,
}

impl SharingInputs {
    pub open spec fn wf(&self) -> bool {
        &&& self.imports.len() <= u32::MAX
        &&& self.type_counts.len() == self.imports.len()
        &&& self.func_counts.len() == self.imports.len()
    }
}

/// Where everything lands in the merged module. Its function index space holds,
/// in order: the consumer imports no library export answers (`fshift` of them),
/// the library's imported functions, the library's own functions (shared), the
/// specialized copies, the shell wrappers, and each consumer's own functions.
pub struct SpecializePlan {
    /// The number of consumers.
    pub n: u32,
    /// Per consumer: the library functions it enters through its imports.
    pub entries: Vec<Vec<u32>>,
    /// Per consumer, per library function: whether the consumer gets a copy.
    pub needed: Vec<Vec<bool>>,
    /// The consumer imports that stay imports.
    pub keys: Vec<UnresolvedImport>,
    pub fshift: u32,
    /// Per library global: its first slot; and the number of slots.
    pub global_base: Vec<u32>,
    pub global_total: u32,
    /// The index of the first specialized copy.
    pub copies_base: u32,
    /// Per consumer, per library function: the index of its copy, if any.
    pub targets: Vec<Vec<Option<u32>>>,
    /// The index of the first shell wrapper.
    pub shell_base: u32,
    /// The library's function exports that touch state, one row of shell
    /// wrappers each.
    pub st_exports: Vec<(String, u32)>,
    /// Per consumer: the index of its first own function.
    pub func_bases: Vec<u32>,
    /// Per consumer: the index of its first type.
    pub type_offsets: Vec<u32>,
    /// Per consumer, per function import: where it lands.
    pub remaps: Vec<Vec<Option<u32>>>,
}

pub open spec fn needed_view(needed: Seq<Vec<bool>>) -> Seq<Seq<bool>> {
    needed.map_values(|v: Vec<bool>| v@)
}

impl SpecializePlan {
    /// Every part of the plan is what its specification function computes.
    pub open spec fn valid(&self, a: LibAnalysis, inp: SharingInputs) -> bool {
        let lib = pairs_view(a.exports@);
        let st = a.state_touching@;
        let ni = a.num_imported_functions;
        let nf = a.num_functions;
        let n = self.n;
        &&& n == inp.imports.len()
        &&& self.entries.len() == n
        &&& self.needed.len() == n
        &&& self.targets.len() == n
        &&& self.func_bases.len() == n
        &&& self.type_offsets.len() == n
        &&& self.remaps.len() == n
        &&& forall|c: int| 0 <= c < n ==> (#[trigger] self.entries@[c])@ == entries_spec(inp.imports@[c]@, lib)
        &&& forall|c: int| 0 <= c < n ==> (#[trigger] self.needed@[c]).len() == nf
        &&& forall|c: int, f: u32|
            0 <= c < n && f < nf ==> (#[trigger] self.needed@[c]@[f as int] <==> reachable_from(
                st,
                a.callees@,
                ni,
                self.entries@[c]@,
                f,
            ))
        &&& forall|c: int, f: u32|
            0 <= c < n && #[trigger] reachable_from(st, a.callees@, ni, self.entries@[c]@, f) ==> ni <= f < nf
        &&& self.keys@ == unresolved_upto(imports_view(inp.imports@), n as int, lib)
        &&& self.fshift == self.keys.len()
        &&& self.global_base.len() == inp.global_mutable.len()
        &&& forall|g: int| 0 <= g < inp.global_mutable.len() ==> (#[trigger] self.global_base@[g]) == slots_upto(
            inp.global_mutable@,
            n,
            g,
        )
        &&& self.global_total == slots_upto(inp.global_mutable@, n, inp.global_mutable.len() as int)
        &&& self.copies_base == self.fshift + ni + inp.lib_defined
        &&& forall|c: int| 0 <= c < n ==> (#[trigger] self.targets@[c]).len() == nf
        &&& forall|c: int, f: int|
            0 <= c < n && 0 <= f < nf ==> (#[trigger] self.targets@[c]@[f]) == if self.needed@[c]@[f] {
                Some(copy_index(needed_view(self.needed@), self.copies_base, c, f) as u32)
            } else {
                None
            }
        &&& self.shell_base == self.copies_base + copies_upto(needed_view(self.needed@), n as int)
        &&& pairs_view(self.st_exports@) == st_filter(lib, st)
        &&& self.shell_base + self.st_exports.len() * n + prefix_sum(inp.func_counts@, n as int) <= u32::MAX
        &&& forall|c: int| 0 <= c < n ==> (#[trigger] self.func_bases@[c]) == self.shell_base
            + self.st_exports.len() * n + prefix_sum(inp.func_counts@, c)
        &&& inp.lib_types + self.fshift + prefix_sum(inp.type_counts@, n as int) <= u32::MAX
        &&& forall|c: int| 0 <= c < n ==> (#[trigger] self.type_offsets@[c]) == inp.lib_types + self.fshift
            + prefix_sum(inp.type_counts@, c)
        &&& forall|c: int| 0 <= c < n ==> (#[trigger] self.remaps@[c]).len() == inp.imports@[c].len()
        &&& forall|c: int, i: int|
            0 <= c < n && 0 <= i < inp.imports@[c].len() ==> (#[trigger] self.remaps@[c]@[i]) == import_target_spec(
                inp.imports@[c]@[i],
                c,
                pairs_view(self.st_exports@),
                lib,
                self.keys@,
                self.fshift,
                self.shell_base,
                n,
            )
        &&& forall|k: int|
            0 <= k < self.keys.len() ==> (#[trigger] self.keys@[k]).consumer < n && (self.keys@[k].ty as int)
                < inp.type_counts@[self.keys@[k].consumer as int]
    }

    /// Where shell wrapper `e` of consumer `c` calls: the consumer's copy of the
    /// exported function, else the shared function.
    pub open spec fn shell_target(&self, e: int, c: int) -> u32 {
        let f = self.st_exports@[e].1;
        if (f as int) < self.targets@[c].len() && self.targets@[c]@[f as int] is Some {
            self.targets@[c]@[f as int]->0
        } else {
            vstd::wrapping::u32_specs::wrapping_add(f, self.fshift)
        }
    }
}

/// A consumer's import of a state-touching library export reaches that
/// consumer's own specialized copy: the import lands at the consumer's shell
/// wrapper for the export, the consumer gets a copy of the exported function,
/// and the wrapper calls that copy.
pub proof fn lemma_import_reaches_own_copy(
    plan: SpecializePlan,
    a: LibAnalysis,
    inp: SharingInputs,
    c: int,
    i: int,
    p: int,
) -> (e: int)
    requires
        a.wf(),
        plan.valid(a, inp),
        0 <= c < plan.n,
        0 <= i < inp.imports@[c].len(),
        first_position(pairs_view(a.exports@), inp.imports@[c]@[i].name@) == Some(p),
        a.exports@[p].1 < a.num_functions,
        a.state_touching@[a.exports@[p].1 as int],
    ensures
        0 <= e < plan.st_exports.len(),
        plan.st_exports@[e].1 == a.exports@[p].1,
        plan.remaps@[c]@[i] == Some(shell_index(plan.shell_base, plan.n, e, c) as u32),
        plan.needed@[c]@[a.exports@[p].1 as int],
        plan.shell_target(e, c) == copy_index(needed_view(plan.needed@), plan.copies_base, c, a.exports@[p].1 as int) as u32,
{
    let lib = pairs_view(a.exports@);
    let st = a.state_touching@;
    let x = inp.imports@[c]@[i].name@;
    let fi = a.exports@[p].1;
    lemma_first_position(lib, x);
    assert(lib[p] == (a.exports@[p].0@, fi));
    let e = lemma_st_filter_first(lib, st, x, p);
    assert(pairs_view(plan.st_exports@)[e] == (plan.st_exports@[e].0@, plan.st_exports@[e].1));
    lemma_entries_contain(inp.imports@[c]@, lib, i, p);
    assert(plan.entries@[c]@.contains(fi));
    lemma_start_reachable(st, a.callees@, a.num_imported_functions, plan.entries@[c]@, fi);
    assert(plan.needed@[c]@[fi as int]);
    e
}

/// Pure functions are shared: no consumer gets a copy of a library function
/// that does not touch instance state, so its calls go to the one shared body.
pub proof fn lemma_pure_function_shared(plan: SpecializePlan, a: LibAnalysis, inp: SharingInputs, c: int, f: u32)
    requires
        a.wf(),
        plan.valid(a, inp),
        0 <= c < plan.n,
        f < a.num_functions,
        !a.state_touching@[f as int],
    ensures
        !plan.needed@[c]@[f as int],
        plan.targets@[c]@[f as int] is None,
{
    if reachable_from(a.state_touching@, a.callees@, a.num_imported_functions, plan.entries@[c]@, f) {
        let p = choose|p: Seq<u32>|
            #![trigger is_touching_walk(a.state_touching@, a.callees@, a.num_imported_functions, p)]
            is_touching_walk(a.state_touching@, a.callees@, a.num_imported_functions, p)
                && plan.entries@[c]@.contains(p[0]) && p.last() == f;
        assert(p[p.len() - 1] == f);
    }
}

/// What the merged module exports for one library export: a state-touching
/// function through consumer 0's shell wrapper, another function at its shared
/// copy, a memory, global or table at its own index; `None` when a shell
/// wrapper is needed and there is no consumer.
pub open spec fn lib_export_spec(e: ExportEntry, st: Seq<(Seq<char>, u32)>, fshift: u32, shell_base: u32, n: u32)
    -> Option<Seq<(Seq<char>, ExternKind, u32)>>
{
    match e.kind {
        ExternKind::Func => match first_position(st, e.name@) {
            Some(ei) => if n == 0 {
                None
            } else {
                Some(seq![(e.name@, ExternKind::Func, shell_index(shell_base, n, ei, 0) as u32)])
            },
            None => Some(seq![(e.name@, ExternKind::Func, wrapping_add(e.index, fshift))]),
        },
        ExternKind::Memory => Some(seq![(e.name@, e.kind, e.index)]),
        ExternKind::Global => Some(seq![(e.name@, e.kind, e.index)]),
        ExternKind::Table => Some(seq![(e.name@, e.kind, e.index)]),
        _ => Some(seq![]),
    }
}

pub open spec fn lib_exports_spec(list: Seq<ExportEntry>, st: Seq<(Seq<char>, u32)>, fshift: u32, shell_base: u32, n: u32)
    -> Option<Seq<(Seq<char>, ExternKind, u32)>>
    decreases list.len(),
{
    if list.len() == 0 {
        Some(seq![])
    } else {
        match (lib_exports_spec(list.drop_last(), st, fshift, shell_base, n), lib_export_spec(list.last(), st, fshift, shell_base, n)) {
            (Some(a), Some(b)) => Some(a + b),
            _ => None,
        }
    }
}

/// The name under which consumer `c`'s memory `name` is exported.
pub open spec fn inst_name(c: nat, name: Seq<char>) -> Seq<char> {
    "inst"@ + decimal(c) + "_"@ + name
}

/// What the merged module exports for one export of consumer `c`: its own
/// functions at their merged index, its memory renamed after the consumer at
/// the consumer's memory; nothing else.
pub open spec fn consumer_export_spec(e: ExportEntry, c: nat, imported: u32, base: u32) -> Seq<(Seq<char>, ExternKind, u32)> {
    match e.kind {
        ExternKind::Func => if e.index >= imported {
            let k = (e.index - imported) as u32;
            seq![(e.name@, ExternKind::Func, wrapping_add(base, k))]
        } else {
            seq![]
        },
        ExternKind::Memory => seq![(inst_name(c, e.name@), ExternKind::Memory, c as u32)],
        _ => seq![],
    }
}

pub open spec fn consumer_exports_spec(list: Seq<ExportEntry>, c: nat, imported: u32, base: u32)
    -> Seq<(Seq<char>, ExternKind, u32)>
    decreases list.len(),
{
    if list.len() == 0 {
        seq![]
    } else {
        consumer_exports_spec(list.drop_last(), c, imported, base) + consumer_export_spec(list.last(), c, imported, base)
    }
}

/// The exports of the kept consumers before position `c`, in order.
pub open spec fn consumers_exports_upto(
    cons: Seq<Seq<ExportEntry>>,
    imported: Seq<u32>,
    bases: Seq<u32>,
    keep: Seq<bool>,
    c: int,
) -> Seq<(Seq<char>, ExternKind, u32)>
    decreases c,
{
    if c <= 0 {
        seq![]
    } else if keep[c - 1] {
        consumers_exports_upto(cons, imported, bases, keep, c - 1) + consumer_exports_spec(
            cons[c - 1],
            (c - 1) as nat,
            imported[c - 1],
            bases[c - 1],
        )
    } else {
        consumers_exports_upto(cons, imported, bases, keep, c - 1)
    }
}

fn push_export(out: &mut Vec<PlannedExport>, name: String, kind: ExternKind, index: u32)
    ensures
        export_views(final(out)@) == export_views(old(out)@).push((name@, kind, index)),
{
    let ghost before = out@;
    out.push(PlannedExport { name, kind, index });
    proof {
        assert(export_views(out@) =~= export_views(before).push((name@, kind, index)));
    }
}

/// The exports of the merged module for the library's exports, in order;
/// `None` when a state-touching function export needs a shell wrapper and
/// there is no consumer.
pub fn plan_lib_exports(list: &Vec<ExportEntry>, plan: &SpecializePlan) -> (r: Option<Vec<PlannedExport>>)
    requires
        plan.shell_base + plan.st_exports.len() * plan.n <= u32::MAX,
    ensures
        match r {
            Some(v) => lib_exports_spec(list@, pairs_view(plan.st_exports@), plan.fshift, plan.shell_base, plan.n) == Some(
                export_views(v@),
            ),
            None => lib_exports_spec(list@, pairs_view(plan.st_exports@), plan.fshift, plan.shell_base, plan.n) is None,
        },
{
    let ghost st = pairs_view(plan.st_exports@);
    let mut out: Vec<PlannedExport> = Vec::new();
    let mut i: usize = 0;
    while i < list.len()
        invariant
            st == pairs_view(plan.st_exports@),
            plan.shell_base + plan.st_exports.len() * plan.n <= u32::MAX,
            i <= list.len(),
            lib_exports_spec(list@.take(i as int), st, plan.fshift, plan.shell_base, plan.n) == Some(export_views(out@)),
        decreases list.len() - i,
    {
        proof {
            assert(list@.take(i + 1).drop_last() =~= list@.take(i as int));
        }
        let e = &list[i];
        let ghost before = export_views(out@);
        match e.kind {
            ExternKind::Func => match find_named(&plan.st_exports, &e.name) {
                Some(ei) => {
                    if plan.n == 0 {
                        proof {
                            lemma_lib_exports_none(list@, i as int, st, plan.fshift, plan.shell_base, plan.n);
                        }
                        return None;
                    }
                    proof {
                        lemma_first_position(st, e.name@);
                        assert(ei * plan.n < plan.st_exports.len() * plan.n) by (nonlinear_arith)
                            requires
                                ei < plan.st_exports.len(),
                                0 < plan.n,
                        ;
                    }
                    let row = (ei as u64) * (plan.n as u64);
                    push_export(&mut out, e.name.clone(), ExternKind::Func, (plan.shell_base as u64 + row) as u32);
                },
                None => push_export(&mut out, e.name.clone(), ExternKind::Func, e.index.wrapping_add(plan.fshift)),
            },
            ExternKind::Memory | ExternKind::Global | ExternKind::Table => push_export(
                &mut out,
                e.name.clone(),
                e.kind,
                e.index,
            ),
            _ => {},
        }
        proof {
            assert(lib_export_spec(list@[i as int], st, plan.fshift, plan.shell_base, plan.n) matches Some(b)
                && export_views(out@) =~= before + b);
        }
        i += 1;
    }
    proof {
        assert(list@.take(list.len() as int) =~= list@);
    }
    Some(out)
}

proof fn lemma_lib_exports_none(list: Seq<ExportEntry>, i: int, st: Seq<(Seq<char>, u32)>, fshift: u32, shell_base: u32, n: u32)
    requires
        0 <= i < list.len(),
        lib_export_spec(list[i], st, fshift, shell_base, n) is None,
    ensures
        lib_exports_spec(list, st, fshift, shell_base, n) is None,
    decreases list.len(),
{
    if i < list.len() - 1 {
        assert(list.drop_last()[i] == list[i]);
        lemma_lib_exports_none(list.drop_last(), i, st, fshift, shell_base, n);
    }
}

/// The exports of the merged module for consumer `c`'s exports, in order.
pub fn plan_consumer_exports(list: &Vec<ExportEntry>, c: u32, imported: u32, base: u32) -> (r: Vec<PlannedExport>)
    ensures
        export_views(r@) == consumer_exports_spec(list@, c as nat, imported, base),
{
    let mut out: Vec<PlannedExport> = Vec::new();
    let mut i: usize = 0;
    while i < list.len()
        invariant
            i <= list.len(),
            export_views(out@) == consumer_exports_spec(list@.take(i as int), c as nat, imported, base),
        decreases list.len() - i,
    {
        proof {
            assert(list@.take(i + 1).drop_last() =~= list@.take(i as int));
        }
        let e = &list[i];
        let ghost before = export_views(out@);
        match e.kind {
            ExternKind::Func => if e.index >= imported {
                push_export(&mut out, e.name.clone(), ExternKind::Func, base.wrapping_add(e.index - imported));
            },
            ExternKind::Memory => {
                let mut name = concat3("inst", decimal_string(c as u64).as_str(), "_");
                name.append(e.name.as_str());
                push_export(&mut out, name, ExternKind::Memory, c);
            },
            _ => {},
        }
        proof {
            assert(export_views(out@) =~= before + consumer_export_spec(list@[i as int], c as nat, imported, base));
        }
        i += 1;
    }
    proof {
        assert(list@.take(list.len() as int) =~= list@);
    }
    out
}

/// Per library function: whether `visited` holds it; `Err` with a member of
/// `visited` that is not a function with a body (an index below `ni` or from
/// `nf` on).
fn needed_flags(visited: &Vec<u32>, ni: u32, nf: u32) -> (r: Result<Vec<bool>, u32>)
    ensures
        r matches Ok(flags) ==> flags.len() == nf && (forall|f: u32| f < nf ==> (flags@[f as int] <==> visited@.contains(f)))
            && (forall|v: u32| visited@.contains(v) ==> ni <= v < nf),
        r matches Err(v) ==> visited@.contains(v) && !(ni <= v < nf),
{
    let mut k: usize = 0;
    while k < visited.len()
        invariant
            k <= visited.len(),
            forall|j: int| 0 <= j < k ==> ni <= #[trigger] visited@[j] < nf,
        decreases visited.len() - k,
    {
        let v = visited[k];
        if v < ni || v >= nf {
            proof {
                assert(visited@[k as int] == v);
            }
            return Err(v);
        }
        k += 1;
    }
    let mut flags: Vec<bool> = Vec::new();
    while flags.len() < nf as usize
        invariant
            flags.len() <= nf,
            forall|j: int| 0 <= j < flags.len() ==> !flags@[j],
        decreases nf - flags.len(),
    {
        flags.push(false);
    }
    let mut k: usize = 0;
    while k < visited.len()
        invariant
            k <= visited.len(),
            flags.len() == nf,
            forall|j: int| 0 <= j < visited.len() ==> ni <= #[trigger] visited@[j] < nf,
            forall|f: u32| f < nf ==> (flags@[f as int] <==> visited@.take(k as int).contains(f)),
        decreases visited.len() - k,
    {
        let v = visited[k];
        flags.set(v as usize, true);
        proof {
            assert forall|f: u32| f < nf implies (flags@[f as int] <==> visited@.take(k + 1).contains(f)) by {
                if visited@.take(k + 1).contains(f) && f != v {
                    let j = choose|j: int| 0 <= j < k + 1 && #[trigger] visited@.take(k + 1)[j] == f;
                    assert(visited@.take(k as int)[j] == f);
                }
                if visited@.take(k as int).contains(f) {
                    let j = choose|j: int| 0 <= j < k && #[trigger] visited@.take(k as int)[j] == f;
                    assert(visited@.take(k + 1)[j] == f);
                }
                assert(visited@.take(k + 1)[k as int] == v);
            }
        }
        k += 1;
    }
    proof {
        assert(visited@.take(visited.len() as int) =~= visited@);
        assert forall|v: u32| visited@.contains(v) implies ni <= v < nf by {
            let j = choose|j: int| 0 <= j < visited.len() && #[trigger] visited@[j] == v;
        }
    }
    Ok(flags)
}

fn too_many(what: &str) -> (s: String)
    ensures
        s@ == "the merged module has too many "@ + what@,
{
    proof {
        assert(""@ =~= Seq::<char>::empty()) by {
            reveal_strlit("");
        }
    }
    let s = concat3("the merged module has too many ", what, "");
    proof {
        assert(s@ =~= "the merged module has too many "@ + what@);
    }
    s
}

/// The library functions consumer `c` enters through its imports.
pub open spec fn entries_of(a: LibAnalysis, inp: SharingInputs, c: int) -> Seq<u32> {
    entries_spec(inp.imports@[c]@, pairs_view(a.exports@))
}

/// Per library function: whether consumer `c` gets a copy of it (it touches
/// state and is an entry, or an entry reaches it through state-touching
/// calls; pure functions are shared).
pub open spec fn needed_of(a: LibAnalysis, inp: SharingInputs, c: int) -> Seq<bool> {
    Seq::new(
        a.num_functions as nat,
        |f: int| reachable_from(a.state_touching@, a.callees@, a.num_imported_functions, entries_of(a, inp, c), f as u32),
    )
}

pub open spec fn all_needed(a: LibAnalysis, inp: SharingInputs) -> Seq<Seq<bool>> {
    Seq::new(inp.imports.len() as nat, |c: int| needed_of(a, inp, c))
}

/// The consumer imports that stay imports of the merged module.
pub open spec fn kept_imports(a: LibAnalysis, inp: SharingInputs) -> Seq<UnresolvedImport> {
    unresolved_upto(imports_view(inp.imports@), inp.imports.len() as int, pairs_view(a.exports@))
}

/// Every function a consumer gets a copy of has a body.
pub open spec fn entries_have_bodies(a: LibAnalysis, inp: SharingInputs) -> bool {
    forall|c: int, f: u32|
        0 <= c < inp.imports.len() && #[trigger] reachable_from(
            a.state_touching@,
            a.callees@,
            a.num_imported_functions,
            entries_of(a, inp, c),
            f,
        ) ==> a.num_imported_functions <= f < a.num_functions
}

/// Every import that stays an import has a type in its consumer.
pub open spec fn keys_typed(a: LibAnalysis, inp: SharingInputs) -> bool {
    let keys = kept_imports(a, inp);
    &&& keys.len() <= u32::MAX
    &&& forall|k: int|
        0 <= k < keys.len() ==> (#[trigger] keys[k]).consumer < inp.imports.len() && (keys[k].ty as int)
            < inp.type_counts@[keys[k].consumer as int]
}

/// The inputs on which the plan can be made: every function a consumer gets a
/// copy of has a body; every import that stays an import has a type in its
/// consumer; and the global, function and type index spaces fit in 32 bits.
pub open spec fn sharing_feasible(a: LibAnalysis, inp: SharingInputs) -> bool {
    let n = inp.imports.len();
    let keys = kept_imports(a, inp);
    &&& entries_have_bodies(a, inp)
    &&& keys_typed(a, inp)
    &&& slots_upto(inp.global_mutable@, n as u32, inp.global_mutable.len() as int) <= u32::MAX
    &&& keys.len() + a.num_imported_functions + inp.lib_defined + copies_upto(all_needed(a, inp), n as int)
        + st_filter(pairs_view(a.exports@), a.state_touching@).len() * n + prefix_sum(inp.func_counts@, n as int) <= u32::MAX
    &&& inp.lib_types + keys.len() + prefix_sum(inp.type_counts@, n as int) <= u32::MAX
}

/// Plans the specializing merge of the library analysed in `a` with the
/// consumers described in `inp`. Fails when a consumer enters the library at a
/// function without a body, when an import that stays an import has a type
/// index out of its consumer's range, or when an index space passes `u32::MAX`
/// (`sharing_feasible`).
pub fn plan_sharing(a: &LibAnalysis, inp: &SharingInputs) -> (r: Result<SpecializePlan, String>)
    requires
        a.wf(),
        inp.wf(),
    ensures
        r is Ok <==> sharing_feasible(*a, *inp),
        r matches Ok(plan) ==> plan.valid(*a, *inp),
{
    let n: u32 = inp.imports.len() as u32;
    let ni = a.num_imported_functions;
    let nf = a.num_functions;
    let ghost lib = pairs_view(a.exports@);

    let mut entries: Vec<Vec<u32>> = Vec::new();
    let mut needed: Vec<Vec<bool>> = Vec::new();
    let mut c: usize = 0;
    while c < inp.imports.len()
        invariant
            a.wf(),
            inp.wf(),
            n == inp.imports.len(),
            ni == a.num_imported_functions,
            nf == a.num_functions,
            c <= n,
            entries.len() == c,
            needed.len() == c,
            forall|d: int| 0 <= d < c ==> (#[trigger] entries@[d])@ == entries_spec(inp.imports@[d]@, pairs_view(a.exports@)),
            forall|d: int| 0 <= d < c ==> (#[trigger] needed@[d]).len() == nf,
            forall|d: int, f: u32|
                0 <= d < c && f < nf ==> (#[trigger] needed@[d]@[f as int] <==> reachable_from(
                    a.state_touching@,
                    a.callees@,
                    ni,
                    entries@[d]@,
                    f,
                )),
            forall|d: int, f: u32|
                0 <= d < c && #[trigger] reachable_from(a.state_touching@, a.callees@, ni, entries@[d]@, f) ==> ni <= f < nf,
        decreases inp.imports.len() - c,
    {
        let e = entry_functions(&inp.imports[c], &a.exports);
        let visited = reachable_state_touching(&e, &a.state_touching, &a.callees, ni);
        match needed_flags(&visited, ni, nf) {
            Ok(flags) => {
                entries.push(e);
                needed.push(flags);
                proof {
                    assert forall|d: int, f: u32|
                        0 <= d < c + 1 && #[trigger] reachable_from(a.state_touching@, a.callees@, ni, entries@[d]@, f)
                            implies ni <= f < nf by {
                        if d == c {
                            assert(visited@.contains(f));
                        }
                    }
                }
            },
            Err(v) => {
                proof {
                    assert(reachable_from(a.state_touching@, a.callees@, ni, entries_of(*a, *inp, c as int), v));
                }
                return Err(concat3("function ", decimal_string(v as u64).as_str(), " of the library has no body to specialize"));
            },
        }
        c += 1;
    }

    proof {
        assert forall|d: int| 0 <= d < n implies #[trigger] needed_view(needed@)[d] == all_needed(*a, *inp)[d] by {
            assert(needed_view(needed@)[d] =~= needed_of(*a, *inp, d));
        }
        assert(needed_view(needed@) =~= all_needed(*a, *inp));
        assert forall|d: int, f: u32|
            0 <= d < n && #[trigger] reachable_from(a.state_touching@, a.callees@, ni, entries_of(*a, *inp, d), f)
                implies ni <= f < nf by {
            assert(entries@[d]@ == entries_of(*a, *inp, d));
        }
        assert(entries_have_bodies(*a, *inp));
    }
    let keys = collect_unresolved(&inp.imports, &a.exports);
    if keys.len() > u32::MAX as usize {
        return Err(too_many("imports"));
    }
    let fshift = keys.len() as u32;
    let mut k: usize = 0;
    while k < keys.len()
        invariant
            inp.wf(),
            n == inp.imports.len(),
            keys@ == kept_imports(*a, *inp),
            k <= keys.len(),
            forall|j: int|
                0 <= j < k ==> (#[trigger] keys@[j]).consumer < n && (keys@[j].ty as int)
                    < inp.type_counts@[keys@[j].consumer as int],
        decreases keys.len() - k,
    {
        let ci = keys[k].consumer;
        if ci >= inp.type_counts.len() || keys[k].ty as usize >= inp.type_counts[ci] {
            proof {
                assert(!((keys@[k as int]).consumer < n && (keys@[k as int].ty as int) < inp.type_counts@[keys@[k as int].consumer as int]));
            }
            return Err(concat3("import ", keys[k].name.as_str(), " has a type index out of range"));
        }
        k += 1;
    }

    let (global_base, global_total) = match global_layout(&inp.global_mutable, n) {
        Some(l) => l,
        None => return Err(too_many("globals")),
    };

    let copies_base64: u64 = fshift as u64 + ni as u64 + inp.lib_defined as u64;
    if copies_base64 > u32::MAX as u64 {
        return Err(too_many("functions"));
    }
    let copies_base = copies_base64 as u32;
    let (targets, shell_base) = match copy_layout(&needed, copies_base) {
        Some(l) => l,
        None => return Err(too_many("functions")),
    };
    proof {
        assert(needed_view(needed@) == needed@.map_values(|v: Vec<bool>| v@));
    }

    let st_exports = state_touching_exports(&a.exports, &a.state_touching);
    proof {
        assert(st_exports.len() == st_filter(pairs_view(a.exports@), a.state_touching@).len());
    }
    let shells: u64 = if n == 0 {
        0
    } else {
        if st_exports.len() > u32::MAX as usize {
            proof {
                assert(st_exports.len() * n >= st_exports.len()) by (nonlinear_arith)
                    requires
                        n >= 1,
                ;
            }
            return Err(too_many("functions"));
        }
        proof {
            assert(st_exports.len() * n <= u32::MAX * u32::MAX) by (nonlinear_arith)
                requires
                    st_exports.len() <= u32::MAX,
                    n <= u32::MAX,
            ;
        }
        st_exports.len() as u64 * n as u64
    };
    if shells > u32::MAX as u64 - shell_base as u64 {
        proof {
            lemma_prefix_sum_monotone(inp.func_counts@, 0, n as int);
        }
        return Err(too_many("functions"));
    }
    proof {
        if n == 0 {
            assert(st_exports.len() * n == 0) by (nonlinear_arith)
                requires
                    n == 0,
            ;
        }
    }
    let mut next: u64 = shell_base as u64 + shells;
    let mut func_bases: Vec<u32> = Vec::new();
    let mut c: usize = 0;
    while c < inp.func_counts.len()
        invariant
            inp.wf(),
            n == inp.imports.len(),
            shell_base == keys.len() + a.num_imported_functions + inp.lib_defined + copies_upto(all_needed(*a, *inp), n as int),
            st_exports.len() == st_filter(pairs_view(a.exports@), a.state_touching@).len(),
            keys@ == kept_imports(*a, *inp),
            c <= n,
            func_bases.len() == c,
            next == shell_base + st_exports.len() * n + prefix_sum(inp.func_counts@, c as int),
            next <= u32::MAX,
            forall|d: int| 0 <= d < c ==> (#[trigger] func_bases@[d]) == shell_base + st_exports.len() * n + prefix_sum(
                inp.func_counts@,
                d,
            ),
        decreases inp.func_counts.len() - c,
    {
        func_bases.push(next as u32);
        let cnt = inp.func_counts[c];
        if cnt as u64 > u32::MAX as u64 - next {
            proof {
                lemma_prefix_sum_monotone(inp.func_counts@, c + 1, n as int);
            }
            return Err(too_many("functions"));
        }
        next = next + cnt as u64;
        c += 1;
    }

    proof {
        lemma_prefix_sum_monotone(inp.type_counts@, 0, n as int);
    }
    if inp.lib_types > u32::MAX as usize {
        return Err(too_many("types"));
    }
    let mut t: u64 = inp.lib_types as u64 + fshift as u64;
    if t > u32::MAX as u64 {
        return Err(too_many("types"));
    }
    let mut type_offsets: Vec<u32> = Vec::new();
    let mut c: usize = 0;
    while c < inp.type_counts.len()
        invariant
            inp.wf(),
            n == inp.imports.len(),
            c <= n,
            fshift == kept_imports(*a, *inp).len(),
            type_offsets.len() == c,
            t == inp.lib_types + fshift + prefix_sum(inp.type_counts@, c as int),
            t <= u32::MAX,
            forall|d: int| 0 <= d < c ==> (#[trigger] type_offsets@[d]) == inp.lib_types + fshift + prefix_sum(
                inp.type_counts@,
                d,
            ),
        decreases inp.type_counts.len() - c,
    {
        type_offsets.push(t as u32);
        let cnt = inp.type_counts[c];
        if cnt as u64 > u32::MAX as u64 - t {
            proof {
                lemma_prefix_sum_monotone(inp.type_counts@, c + 1, n as int);
            }
            return Err(too_many("types"));
        }
        t = t + cnt as u64;
        c += 1;
    }

    let mut remaps: Vec<Vec<Option<u32>>> = Vec::new();
    let mut c: usize = 0;
    while c < inp.imports.len()
        invariant
            inp.wf(),
            n == inp.imports.len(),
            c <= n,
            remaps.len() == c,
            shell_base + st_exports.len() * n <= u32::MAX,
            keys.len() <= u32::MAX,
            fshift == keys.len(),
            forall|d: int| 0 <= d < c ==> (#[trigger] remaps@[d]).len() == inp.imports@[d].len(),
            forall|d: int, i: int|
                0 <= d < c && 0 <= i < inp.imports@[d].len() ==> (#[trigger] remaps@[d]@[i]) == import_target_spec(
                    inp.imports@[d]@[i],
                    d,
                    pairs_view(st_exports@),
                    pairs_view(a.exports@),
                    keys@,
                    fshift,
                    shell_base,
                    n,
                ),
        decreases inp.imports.len() - c,
    {
        let r = import_remap(&inp.imports[c], c as u32, &st_exports, &a.exports, &keys, fshift, shell_base, n);
        remaps.push(r);
        c += 1;
    }

    Ok(SpecializePlan {
        n,
        entries,
        needed,
        keys,
        fshift,
        global_base,
        global_total,
        copies_base,
        targets,
        shell_base,
        st_exports,
        func_bases,
        type_offsets,
        remaps,
    })
}

} // verus!
