//! How the basic merge lays out the merged module: the order in which modules
//! are merged, the label each module answers to, which imports are resolved by
//! another module's exports, where each module's items land in the merged index
//! spaces, and which exports the merged module keeps.

use vstd::prelude::*;
use crate::component::CoreInstance;
use crate::model::{ExportEntry, ExternKind, ImportEntry, ImportType};
use crate::text::{decimal, decimal_string};
use vstd::string::StringExecFns;

verus! {

/// The four index spaces that imports and definitions share.
#[derive(PartialEq, Eq, Structural, Clone, Copy, Debug)]
pub enum Space {
    Func,
    Memory,
    Table,
    Global,
}

/// The index space an import of this type takes a slot in (tags and exact
/// function imports take none that the merge tracks).
pub open spec fn import_space(t: ImportType) -> Option<Space> {
    match t {
        ImportType::Func(_) => Some(Space::Func),
        ImportType::Memory(_) => Some(Space::Memory),
        ImportType::Table(_) => Some(Space::Table),
        ImportType::Global { .. } => Some(Space::Global),
        _ => None,
    }
}

pub fn space_of(t: &ImportType) -> (r: Option<Space>)
    ensures
        r == import_space(*t),
{
    match t {
        ImportType::Func(_) => Some(Space::Func),
        ImportType::Memory(_) => Some(Space::Memory),
        ImportType::Table(_) => Some(Space::Table),
        ImportType::Global { .. } => Some(Space::Global),
        _ => None,
    }
}

/// The number of imports that take a slot in space `s`.
pub open spec fn count_in_space(imports: Seq<ImportEntry>, s: Space) -> nat
    decreases imports.len(),
{
    if imports.len() == 0 {
        0
    } else {
        count_in_space(imports.drop_last(), s) + if import_space(imports.last().ty) == Some(s) {
            1nat
        } else {
            0nat
        }
    }
}

/// What the merge reads of one core module.
pub struct ModuleInfo {
    pub type_count: u32,
    /// Defined (non-imported) functions.
    pub func_count: u32,
    pub mem_count: u32,
    pub table_count: u32,
    pub global_count: u32,
    pub imported_func_count: u32,
    pub imported_mem_count: u32,
    pub imported_table_count: u32,
    pub imported_global_count: u32,
    pub exports: Vec<ExportEntry>,
    pub imports: Vec<ImportEntry>,
}

impl ModuleInfo {
    pub open spec fn imported(&self, s: Space) -> u32 {
        match s {
            Space::Func => self.imported_func_count,
            Space::Memory => self.imported_mem_count,
            Space::Table => self.imported_table_count,
            Space::Global => self.imported_global_count,
        }
    }

    pub open spec fn defined(&self, s: Space) -> u32 {
        match s {
            Space::Func => self.func_count,
            Space::Memory => self.mem_count,
            Space::Table => self.table_count,
            Space::Global => self.global_count,
        }
    }

    /// The import counts agree with the imports.
    pub open spec fn wf(&self) -> bool {
        &&& self.imported_func_count == count_in_space(self.imports@, Space::Func)
        &&& self.imported_mem_count == count_in_space(self.imports@, Space::Memory)
        &&& self.imported_table_count == count_in_space(self.imports@, Space::Table)
        &&& self.imported_global_count == count_in_space(self.imports@, Space::Global)
    }

    pub fn imported_in(&self, s: Space) -> (r: u32)
        ensures
            r == self.imported(s),
    {
        match s {
            Space::Func => self.imported_func_count,
            Space::Memory => self.imported_mem_count,
            Space::Table => self.imported_table_count,
            Space::Global => self.imported_global_count,
        }
    }

    pub fn defined_in(&self, s: Space) -> (r: u32)
        ensures
            r == self.defined(s),
    {
        match s {
            Space::Func => self.func_count,
            Space::Memory => self.mem_count,
            Space::Table => self.table_count,
            Space::Global => self.global_count,
        }
    }
}

// ── Merge order ─────────────────────────────────────────────────────────

/// `s` with every element after its first occurrence dropped.
pub open spec fn dedup(s: Seq<usize>) -> Seq<usize>
    decreases s.len(),
{
    if s.len() == 0 {
        seq![]
    } else {
        let d = dedup(s.drop_last());
        if d.contains(s.last()) {
            d
        } else {
            d.push(s.last())
        }
    }
}

/// The modules of the instances from the last instance to the first, then every
/// module index below `n`.
pub open spec fn order_candidates(instances: Seq<CoreInstance>, n: nat) -> Seq<usize> {
    Seq::new(instances.len(), |i: int| instances[instances.len() - 1 - i].module_idx as usize)
        + Seq::new(n, |i: int| i as usize)
}

/// The merge order: the last-instantiated module first, then the modules it was
/// instantiated after, then the modules no instance names, each module once.
pub open spec fn merge_order(instances: Seq<CoreInstance>, n: nat) -> Seq<usize> {
    dedup(order_candidates(instances, n))
}

proof fn lemma_dedup_push(s: Seq<usize>, x: usize)
    ensures
        dedup(s.push(x)) == if dedup(s).contains(x) {
            dedup(s)
        } else {
            dedup(s).push(x)
        },
{
    assert(s.push(x).drop_last() =~= s);
}

pub proof fn lemma_dedup_props(s: Seq<usize>)
    ensures
        dedup(s).no_duplicates(),
        forall|x: usize| dedup(s).contains(x) <==> s.contains(x),
    decreases s.len(),
{
    if s.len() > 0 {
        lemma_dedup_props(s.drop_last());
        let d = dedup(s.drop_last());
        assert forall|x: usize| dedup(s).contains(x) <==> s.contains(x) by {
            if s.contains(x) && x != s.last() {
                let i = choose|i: int| 0 <= i < s.len() && s[i] == x;
                assert(s.drop_last()[i] == x);
            }
            if s.drop_last().contains(x) {
                let i = choose|i: int| 0 <= i < s.drop_last().len() && s.drop_last()[i] == x;
                assert(s[i] == x);
            }
            assert(s[s.len() - 1] == s.last());
            if !d.contains(s.last()) {
                let e = d.push(s.last());
                if e.contains(x) {
                    let i = choose|i: int| 0 <= i < e.len() && e[i] == x;
                    if i < d.len() {
                        assert(d[i] == x);
                    }
                }
                if d.contains(x) {
                    let i = choose|i: int| 0 <= i < d.len() && d[i] == x;
                    assert(e[i] == x);
                }
                assert(e[e.len() - 1] == s.last());
            }
        }
    }
}

fn contains_usize(v: &Vec<usize>, x: usize) -> (r: bool)
    ensures
        r == v@.contains(x),
{
    let mut i: usize = 0;
    while i < v.len()
        invariant
            i <= v.len(),
            forall|j: int| 0 <= j < i ==> v@[j] != x,
        decreases v.len() - i,
    {
        if v[i] == x {
            return true;
        }
        i += 1;
    }
    false
}

/// The order in which the modules of a component are merged: the reverse of the
/// instantiation order, so the last-instantiated module (the consumer) comes
/// first, followed by every module no instance instantiates.
pub fn module_order(instances: &Vec<CoreInstance>, n: usize) -> (order: Vec<usize>)
    ensures
        order@ == merge_order(instances@, n as nat),
{
    let ghost cands = order_candidates(instances@, n as nat);
    let mut order: Vec<usize> = Vec::new();
    let mut k: usize = 0;
    while k < instances.len()
        invariant
            k <= instances.len(),
            cands == order_candidates(instances@, n as nat),
            order@ == dedup(cands.take(k as int)),
        decreases instances.len() - k,
    {
        let mi = instances[instances.len() - 1 - k].module_idx as usize;
        proof {
            assert(cands.take(k + 1) =~= cands.take(k as int).push(mi));
            lemma_dedup_push(cands.take(k as int), mi);
        }
        if !contains_usize(&order, mi) {
            order.push(mi);
        }
        k += 1;
    }
    let mut i: usize = 0;
    while i < n
        invariant
            i <= n,
            k == instances.len(),
            cands == order_candidates(instances@, n as nat),
            order@ == dedup(cands.take(k + i)),
        decreases n - i,
    {
        proof {
            assert(cands.take(k + i + 1) =~= cands.take(k + i).push(i));
            lemma_dedup_push(cands.take(k + i), i);
        }
        if !contains_usize(&order, i) {
            order.push(i);
        }
        i += 1;
    }
    proof {
        assert(cands.take(k + n) =~= cands);
    }
    order
}

/// Every module index below `n` occurs exactly once in the merge order, and no
/// other index does, when every instance names a module below `n`.
pub proof fn lemma_merge_order_is_permutation(instances: Seq<CoreInstance>, n: nat)
    requires
        n <= usize::MAX,
        forall|i: int| 0 <= i < instances.len() ==> instances[i].module_idx < n,
    ensures
        merge_order(instances, n).no_duplicates(),
        merge_order(instances, n).len() == n,
        forall|x: usize| x < n ==> merge_order(instances, n).contains(x),
        forall|x: usize| merge_order(instances, n).contains(x) ==> x < n,
{
    let cands = order_candidates(instances, n);
    let d = merge_order(instances, n);
    lemma_dedup_props(cands);
    assert forall|x: usize| x < n implies d.contains(x) by {
        assert(cands[instances.len() + x] == x);
        assert(cands.contains(x));
    }
    assert forall|x: usize| d.contains(x) implies x < n by {
        assert(cands.contains(x));
        let i = choose|i: int| 0 <= i < cands.len() && cands[i] == x;
        if i < instances.len() {
            assert(instances[instances.len() - 1 - i].module_idx < n);
        }
    }
    lemma_nodup_below_len(d, n);
}

/// A sequence without duplicates whose elements are exactly the indices below `n`
/// has length `n`.
proof fn lemma_nodup_below_len(s: Seq<usize>, n: nat)
    requires
        n <= usize::MAX,
        s.no_duplicates(),
        forall|x: usize| x < n ==> s.contains(x),
        forall|x: usize| s.contains(x) ==> x < n,
    ensures
        s.len() == n,
    decreases n,
{
    if n == 0 {
        if s.len() > 0 {
            assert(s.contains(s[0]));
        }
    } else {
        let last = (n - 1) as usize;
        assert(s.contains(last));
        let j = choose|j: int| 0 <= j < s.len() && s[j] == last;
        let t = s.remove(j);
        assert forall|x: usize| x < n - 1 implies t.contains(x) by {
            assert(s.contains(x));
            let i = choose|i: int| 0 <= i < s.len() && s[i] == x;
            if i < j {
                assert(t[i] == x);
            } else {
                assert(i != j);
                assert(t[i - 1] == x);
            }
        }
        assert forall|x: usize| t.contains(x) implies x < n - 1 by {
            let i = choose|i: int| 0 <= i < t.len() && t[i] == x;
            let si = if i < j { i } else { i + 1 };
            assert(s[si] == x);
            assert(si != j);
            assert(s[si] != s[j]);
            assert(s.contains(x));
        }
        assert(t.no_duplicates()) by {
            assert forall|a: int, b: int| 0 <= a < b < t.len() implies t[a] != t[b] by {
                let sa = if a < j { a } else { a + 1 };
                let sb = if b < j { b } else { b + 1 };
                assert(s[sa] == t[a] && s[sb] == t[b]);
            }
        }
        lemma_nodup_below_len(t, (n - 1) as nat);
    }
}

// ── Labels ──────────────────────────────────────────────────────────────

/// The namespace under which the last of `args` that names an instance of module
/// `mi` passes it on.
pub open spec fn label_from_args(instances: Seq<CoreInstance>, args: Seq<(String, u32)>, mi: usize) -> Option<Seq<char>>
    decreases args.len(),
{
    if args.len() == 0 {
        None
    } else {
        let a = args.last();
        if (a.1 as int) < instances.len() && instances[a.1 as int].module_idx as usize == mi {
            Some(a.0@)
        } else {
            label_from_args(instances, args.drop_last(), mi)
        }
    }
}

/// The label of module `mi` given by the arguments of the first `k` instances:
/// the last namespace under which an instance of it is passed.
pub open spec fn label_upto(instances: Seq<CoreInstance>, k: int, mi: usize) -> Option<Seq<char>>
    decreases k,
{
    if k <= 0 {
        None
    } else {
        match label_from_args(instances, instances[k - 1].args@, mi) {
            Some(l) => Some(l),
            None => label_upto(instances, k - 1, mi),
        }
    }
}

/// The label that imports use to name module `mi`: the last namespace under which
/// an instance of it is passed, or `m` followed by its index.
pub open spec fn module_label_spec(instances: Seq<CoreInstance>, mi: usize) -> Seq<char> {
    match label_upto(instances, instances.len() as int, mi) {
        Some(l) => l,
        None => "m"@ + decimal(mi as nat),
    }
}

/// The label that imports use to name module `mi`.
pub fn module_label(instances: &Vec<CoreInstance>, mi: usize) -> (label: String)
    requires
        instances.len() <= u32::MAX,
    ensures
        label@ == module_label_spec(instances@, mi),
{
    let mut k: usize = instances.len();
    while k > 0
        invariant
            k <= instances.len(),
            instances.len() <= u32::MAX,
            label_upto(instances@, instances.len() as int, mi) == label_upto(instances@, k as int, mi),
        decreases k,
    {
        let args = &instances[k - 1].args;
        let mut j: usize = args.len();
        proof {
            assert(args@.take(args@.len() as int) =~= args@);
        }
        while j > 0
            invariant
                0 < k <= instances.len(),
                instances.len() <= u32::MAX,
                args == instances@[k - 1].args,
                label_upto(instances@, instances.len() as int, mi) == label_upto(instances@, k as int, mi),
                j <= args.len(),
                label_from_args(instances@, args@, mi) == label_from_args(instances@, args@.take(j as int), mi),
            decreases j,
        {
            let src = args[j - 1].1;
            proof {
                assert(args@.take(j as int).drop_last() =~= args@.take(j - 1));
            }
            if (src as usize) < instances.len() && instances[src as usize].module_idx as usize == mi {
                let s = args[j - 1].0.clone();
                proof {
                    assert(args@.take(j as int).last() == args@[j - 1]);
                    assert(label_from_args(instances@, args@.take(j as int), mi) == Some(s@));
                    assert(label_upto(instances@, k as int, mi) == Some(s@));
                    assert(label_upto(instances@, instances.len() as int, mi) == Some(s@));
                }
                return s;
            }
            j -= 1;
        }
        proof {
            assert(args@.take(0) =~= Seq::<(String, u32)>::empty());
            assert(args@.take(args@.len() as int) =~= args@);
        }
        k -= 1;
    }
    let mut s = String::from_str("m");
    proof {
        reveal_strlit("m");
    }
    let d = decimal_string(mi as u64);
    s.append(d.as_str());
    s
}

// ── Import resolution ───────────────────────────────────────────────────

/// The index of the last export in `exports` named `field`.
pub open spec fn last_export_named(exports: Seq<ExportEntry>, field: Seq<char>) -> Option<int>
    decreases exports.len(),
{
    if exports.len() == 0 {
        None
    } else if exports.last().name@ == field {
        Some(exports.len() - 1)
    } else {
        last_export_named(exports.drop_last(), field)
    }
}

/// Where an import of `field` from namespace `module` resolves among the first
/// `k` merge positions: the last position whose label is `module` and whose
/// module exports `field` (its last such export), as (position, kind, index).
pub open spec fn resolve_upto(
    infos: Seq<ModuleInfo>,
    order: Seq<usize>,
    labels: Seq<Seq<char>>,
    k: int,
    module: Seq<char>,
    field: Seq<char>,
) -> Option<(int, ExternKind, u32)>
    decreases k,
{
    if k <= 0 {
        None
    } else {
        let pos = k - 1;
        let exports = infos[order[pos] as int].exports@;
        if labels[pos] == module && last_export_named(exports, field) is Some {
            let e = exports[last_export_named(exports, field)->0];
            Some((pos, e.kind, e.index))
        } else {
            resolve_upto(infos, order, labels, k - 1, module, field)
        }
    }
}

pub open spec fn resolve(infos: Seq<ModuleInfo>, order: Seq<usize>, labels: Seq<Seq<char>>, module: Seq<char>, field: Seq<char>) -> Option<(int, ExternKind, u32)> {
    resolve_upto(infos, order, labels, order.len() as int, module, field)
}

/// The views of a sequence of strings.
pub open spec fn views(s: Seq<String>) -> Seq<Seq<char>> {
    s.map_values(|x: String| x@)
}

/// The labels of the modules in `order`.
pub open spec fn label_views(instances: Seq<CoreInstance>, order: Seq<usize>) -> Seq<Seq<char>> {
    Seq::new(order.len(), |p: int| module_label_spec(instances, order[p]))
}

/// The merge positions hold module indices of `infos`, and each has a label.
pub open spec fn positions_ok(infos: Seq<ModuleInfo>, order: Seq<usize>, labels: Seq<Seq<char>>) -> bool {
    &&& labels.len() == order.len()
    &&& forall|p: int| 0 <= p < order.len() ==> (#[trigger] order[p] as int) < infos.len()
}

fn find_last_export(exports: &Vec<ExportEntry>, field: &String) -> (r: Option<usize>)
    ensures
        r matches Some(i) ==> last_export_named(exports@, field@) == Some(i as int) && i < exports.len(),
        r is None ==> last_export_named(exports@, field@) is None,
{
    let mut k: usize = exports.len();
    proof {
        assert(exports@.take(k as int) =~= exports@);
    }
    while k > 0
        invariant
            k <= exports.len(),
            last_export_named(exports@, field@) == last_export_named(exports@.take(k as int), field@),
        decreases k,
    {
        proof {
            assert(exports@.take(k as int).drop_last() =~= exports@.take(k - 1));
        }
        if exports[k - 1].name == *field {
            return Some(k - 1);
        }
        k -= 1;
    }
    None
}

/// Finds where the import (`module`, `field`) resolves among the merged modules.
pub fn resolve_import(
    infos: &Vec<ModuleInfo>,
    order: &Vec<usize>,
    labels: &Vec<String>,
    module: &String,
    field: &String,
) -> (r: Option<(usize, ExternKind, u32)>)
    requires
        positions_ok(infos@, order@, views(labels@)),
    ensures
        r matches Some(t) ==> resolve(infos@, order@, views(labels@), module@, field@) == Some((t.0 as int, t.1, t.2))
            && t.0 < order.len(),
        r is None ==> resolve(infos@, order@, views(labels@), module@, field@) is None,
{
    let mut k: usize = order.len();
    while k > 0
        invariant
            k <= order.len(),
            positions_ok(infos@, order@, views(labels@)),
            resolve(infos@, order@, views(labels@), module@, field@) == resolve_upto(infos@, order@, views(labels@), k as int, module@, field@),
        decreases k,
    {
        let pos = k - 1;
        if labels[pos] == *module {
            let info = &infos[order[pos]];
            match find_last_export(&info.exports, field) {
                Some(e) => {
                    return Some((pos, info.exports[e].kind, info.exports[e].index));
                },
                None => {},
            }
        }
        k -= 1;
    }
    None
}

// ── Unresolved imports ──────────────────────────────────────────────────

/// The imports of the modules at the first `k` merge positions, in merge order.
pub open spec fn flat_imports(infos: Seq<ModuleInfo>, order: Seq<usize>, k: int) -> Seq<ImportEntry>
    decreases k,
{
    if k <= 0 {
        seq![]
    } else {
        flat_imports(infos, order, k - 1) + infos[order[k - 1] as int].imports@
    }
}

/// Some entry of `kept` imports `field` from `module`.
pub open spec fn has_key(kept: Seq<ImportEntry>, module: Seq<char>, field: Seq<char>) -> bool {
    exists|i: int| 0 <= i < kept.len() && kept[i].module@ == module && kept[i].field@ == field
}

/// The imports of `flat` that no merged module resolves, each (namespace, name)
/// pair once, at its first occurrence.
pub open spec fn kept_unresolved(
    infos: Seq<ModuleInfo>,
    order: Seq<usize>,
    labels: Seq<Seq<char>>,
    flat: Seq<ImportEntry>,
) -> Seq<ImportEntry>
    decreases flat.len(),
{
    if flat.len() == 0 {
        seq![]
    } else {
        let kept = kept_unresolved(infos, order, labels, flat.drop_last());
        let x = flat.last();
        if resolve(infos, order, labels, x.module@, x.field@) is Some || has_key(kept, x.module@, x.field@) {
            kept
        } else {
            kept.push(x)
        }
    }
}

/// The unresolved imports of the whole merge.
pub open spec fn unresolved_spec(infos: Seq<ModuleInfo>, order: Seq<usize>, labels: Seq<Seq<char>>) -> Seq<ImportEntry> {
    kept_unresolved(infos, order, labels, flat_imports(infos, order, order.len() as int))
}

/// The entries of `s` that take a slot in space `sp`, in order.
pub open spec fn select_space(s: Seq<ImportEntry>, sp: Space) -> Seq<ImportEntry>
    decreases s.len(),
{
    if s.len() == 0 {
        seq![]
    } else if import_space(s.last().ty) == Some(sp) {
        select_space(s.drop_last(), sp).push(s.last())
    } else {
        select_space(s.drop_last(), sp)
    }
}

fn find_key(kept: &Vec<ImportEntry>, module: &String, field: &String) -> (r: Option<usize>)
    ensures
        r matches Some(i) ==> i < kept.len() && kept@[i as int].module@ == module@ && kept@[i as int].field@ == field@
            && forall|j: int| 0 <= j < i ==> !(kept@[j].module@ == module@ && kept@[j].field@ == field@),
        r is None ==> !has_key(kept@, module@, field@),
{
    let mut i: usize = 0;
    while i < kept.len()
        invariant
            i <= kept.len(),
            forall|j: int| 0 <= j < i ==> !(kept@[j].module@ == module@ && kept@[j].field@ == field@),
        decreases kept.len() - i,
    {
        if kept[i].module == *module && kept[i].field == *field {
            return Some(i);
        }
        i += 1;
    }
    None
}

/// Collects the imports that no merged module resolves, deduplicated by
/// (namespace, name), in merge order.
pub fn collect_unresolved(infos: &Vec<ModuleInfo>, order: &Vec<usize>, labels: &Vec<String>) -> (kept: Vec<ImportEntry>)
    requires
        positions_ok(infos@, order@, views(labels@)),
    ensures
        kept@ == unresolved_spec(infos@, order@, views(labels@)),
{
    let mut kept: Vec<ImportEntry> = Vec::new();
    let mut p: usize = 0;
    while p < order.len()
        invariant
            p <= order.len(),
            positions_ok(infos@, order@, views(labels@)),
            kept@ == kept_unresolved(infos@, order@, views(labels@), flat_imports(infos@, order@, p as int)),
        decreases order.len() - p,
    {
        let imports = &infos[order[p]].imports;
        let ghost before = flat_imports(infos@, order@, p as int);
        let mut j: usize = 0;
        proof {
            assert(before + imports@.take(0) =~= before);
        }
        while j < imports.len()
            invariant
                p < order.len(),
                j <= imports.len(),
                positions_ok(infos@, order@, views(labels@)),
                imports == infos@[order@[p as int] as int].imports,
                before == flat_imports(infos@, order@, p as int),
                kept@ == kept_unresolved(infos@, order@, views(labels@), before + imports@.take(j as int)),
            decreases imports.len() - j,
        {
            let imp = &imports[j];
            proof {
                assert((before + imports@.take(j + 1)).drop_last() =~= before + imports@.take(j as int));
                assert((before + imports@.take(j + 1)).last() == imports@[j as int]);
            }
            let resolved = resolve_import(infos, order, labels, &imp.module, &imp.field);
            if resolved.is_none() {
                let found = find_key(&kept, &imp.module, &imp.field);
                if found.is_none() {
                    kept.push(imp.duplicate());
                }
            }
            j += 1;
        }
        proof {
            assert(imports@.take(imports@.len() as int) =~= imports@);
        }
        p += 1;
    }
    kept
}

/// The entries of `s` that take a slot in space `sp`.
pub fn select_in_space(s: &Vec<ImportEntry>, sp: Space) -> (r: Vec<ImportEntry>)
    ensures
        r@ == select_space(s@, sp),
{
    let mut r: Vec<ImportEntry> = Vec::new();
    let mut i: usize = 0;
    while i < s.len()
        invariant
            i <= s.len(),
            r@ == select_space(s@.take(i as int), sp),
        decreases s.len() - i,
    {
        proof {
            assert(s@.take(i + 1).drop_last() =~= s@.take(i as int));
        }
        if space_of(&s[i].ty) == Some(sp) {
            r.push(s[i].duplicate());
        }
        i += 1;
    }
    proof {
        assert(s@.take(s@.len() as int) =~= s@);
    }
    r
}

// ── Index-space layout ──────────────────────────────────────────────────

/// Where the items of one merged module start in each merged index space.
#[derive(Clone, Copy, Debug)]
pub struct Offsets {
    pub type_base: u32,
    pub func_base: u32,
    pub mem_base: u32,
    pub table_base: u32,
    pub global_base: u32,
}

impl Offsets {
    pub open spec fn base(&self, sp: Space) -> u32 {
        match sp {
            Space::Func => self.func_base,
            Space::Memory => self.mem_base,
            Space::Table => self.table_base,
            Space::Global => self.global_base,
        }
    }

    pub fn base_in(&self, sp: Space) -> (r: u32)
        ensures
            r == self.base(sp),
    {
        match sp {
            Space::Func => self.func_base,
            Space::Memory => self.mem_base,
            Space::Table => self.table_base,
            Space::Global => self.global_base,
        }
    }
}

/// The types of the modules at the first `k` merge positions.
pub open spec fn sum_types(infos: Seq<ModuleInfo>, order: Seq<usize>, k: int) -> nat
    decreases k,
{
    if k <= 0 {
        0
    } else {
        sum_types(infos, order, k - 1) + infos[order[k - 1] as int].type_count as nat
    }
}

/// The items defined in space `sp` by the modules at the first `k` merge positions.
pub open spec fn sum_defined(infos: Seq<ModuleInfo>, order: Seq<usize>, k: int, sp: Space) -> nat
    decreases k,
{
    if k <= 0 {
        0
    } else {
        sum_defined(infos, order, k - 1, sp) + infos[order[k - 1] as int].defined(sp) as nat
    }
}

pub proof fn lemma_sums_monotone(infos: Seq<ModuleInfo>, order: Seq<usize>, j: int, k: int)
    requires
        0 <= j <= k,
    ensures
        sum_types(infos, order, j) <= sum_types(infos, order, k),
        forall|sp: Space| sum_defined(infos, order, j, sp) <= #[trigger] sum_defined(infos, order, k, sp),
    decreases k - j,
{
    if j < k {
        lemma_sums_monotone(infos, order, j, k - 1);
        assert forall|sp: Space| sum_defined(infos, order, j, sp) <= #[trigger] sum_defined(infos, order, k, sp) by {
            assert(sum_defined(infos, order, j, sp) <= sum_defined(infos, order, k - 1, sp));
        }
    }
}

/// The offsets of merge position `p`: types start after those of earlier
/// positions; in the other spaces the unresolved imports (`first[sp]` of them)
/// come first, then the items defined by earlier positions.
pub open spec fn offsets_at(infos: Seq<ModuleInfo>, order: Seq<usize>, first: spec_fn(Space) -> nat, p: int, o: Offsets) -> bool {
    &&& o.type_base == sum_types(infos, order, p)
    &&& forall|sp: Space| #[trigger] o.base(sp) == first(sp) + sum_defined(infos, order, p, sp)
}

/// The layout of the merged index spaces fits in 32 bits.
pub open spec fn layout_fits(infos: Seq<ModuleInfo>, order: Seq<usize>, first: spec_fn(Space) -> nat) -> bool {
    &&& sum_types(infos, order, order.len() as int) <= u32::MAX
    &&& forall|sp: Space| first(sp) + sum_defined(infos, order, order.len() as int, sp) <= u32::MAX
}

/// The number of unresolved imports of each space, which take the first slots.
pub open spec fn first_slots(nf: nat, nm: nat, nt: nat, ng: nat) -> spec_fn(Space) -> nat {
    |sp: Space|
        match sp {
            Space::Func => nf,
            Space::Memory => nm,
            Space::Table => nt,
            Space::Global => ng,
        }
}

/// Lays out the merged index spaces: the offsets of each merge position and the
/// totals after the last one; `None` when a total does not fit in 32 bits.
pub fn compute_offsets(infos: &Vec<ModuleInfo>, order: &Vec<usize>, nf: usize, nm: usize, nt: usize, ng: usize)
    -> (r: Option<(Vec<Offsets>, Offsets)>)
    requires
        forall|p: int| 0 <= p < order.len() ==> (#[trigger] order@[p] as int) < infos.len(),
    ensures
        r is Some <==> layout_fits(infos@, order@, first_slots(nf as nat, nm as nat, nt as nat, ng as nat)),
        r matches Some((offs, total)) ==> {
            &&& offs.len() == order.len()
            &&& forall|p: int| 0 <= p < order.len() ==> offsets_at(infos@, order@,
                first_slots(nf as nat, nm as nat, nt as nat, ng as nat), p, #[trigger] offs@[p])
            &&& offsets_at(infos@, order@, first_slots(nf as nat, nm as nat, nt as nat, ng as nat),
                order.len() as int, total)
        },
{
    let ghost first = first_slots(nf as nat, nm as nat, nt as nat, ng as nat);
    let ghost n = order.len() as int;
    proof {
        lemma_sums_monotone(infos@, order@, 0, n);
    }
    if nf > u32::MAX as usize || nm > u32::MAX as usize || nt > u32::MAX as usize || ng > u32::MAX as usize {
        proof {
            if nf > u32::MAX { assert(first(Space::Func) + sum_defined(infos@, order@, n, Space::Func) > u32::MAX); }
            if nm > u32::MAX { assert(first(Space::Memory) + sum_defined(infos@, order@, n, Space::Memory) > u32::MAX); }
            if nt > u32::MAX { assert(first(Space::Table) + sum_defined(infos@, order@, n, Space::Table) > u32::MAX); }
            if ng > u32::MAX { assert(first(Space::Global) + sum_defined(infos@, order@, n, Space::Global) > u32::MAX); }
        }
        return None;
    }
    let mut cur = Offsets { type_base: 0, func_base: nf as u32, mem_base: nm as u32, table_base: nt as u32, global_base: ng as u32 };
    let mut offs: Vec<Offsets> = Vec::new();
    let mut p: usize = 0;
    while p < order.len()
        invariant
            p <= order.len(),
            n == order.len(),
            forall|q: int| 0 <= q < order.len() ==> (#[trigger] order@[q] as int) < infos.len(),
            first == first_slots(nf as nat, nm as nat, nt as nat, ng as nat),
            offs.len() == p,
            forall|q: int| 0 <= q < p ==> offsets_at(infos@, order@, first, q, #[trigger] offs@[q]),
            offsets_at(infos@, order@, first, p as int, cur),
        decreases order.len() - p,
    {
        offs.push(cur);
        let info = &infos[order[p]];
        proof {
            lemma_sums_monotone(infos@, order@, p + 1, n);
        }
        let t = cur.type_base.checked_add(info.type_count);
        let f = cur.func_base.checked_add(info.func_count);
        let m = cur.mem_base.checked_add(info.mem_count);
        let tb = cur.table_base.checked_add(info.table_count);
        let g = cur.global_base.checked_add(info.global_count);
        match (t, f, m, tb, g) {
            (Some(t), Some(f), Some(m), Some(tb), Some(g)) => {
                cur = Offsets { type_base: t, func_base: f, mem_base: m, table_base: tb, global_base: g };
                proof {
                    assert forall|sp: Space| #[trigger] cur.base(sp) == first(sp) + sum_defined(infos@, order@, p + 1, sp) by {
                        assert(offs@[p as int].base(sp) == first(sp) + sum_defined(infos@, order@, p as int, sp));
                    }
                }
            },
            _ => {
                proof {
                    assert(cur.base(Space::Func) == first(Space::Func) + sum_defined(infos@, order@, p as int, Space::Func));
                    assert(cur.base(Space::Memory) == first(Space::Memory) + sum_defined(infos@, order@, p as int, Space::Memory));
                    assert(cur.base(Space::Table) == first(Space::Table) + sum_defined(infos@, order@, p as int, Space::Table));
                    assert(cur.base(Space::Global) == first(Space::Global) + sum_defined(infos@, order@, p as int, Space::Global));
                    assert(sum_defined(infos@, order@, p + 1, Space::Func) <= sum_defined(infos@, order@, n, Space::Func));
                    assert(sum_defined(infos@, order@, p + 1, Space::Memory) <= sum_defined(infos@, order@, n, Space::Memory));
                    assert(sum_defined(infos@, order@, p + 1, Space::Table) <= sum_defined(infos@, order@, n, Space::Table));
                    assert(sum_defined(infos@, order@, p + 1, Space::Global) <= sum_defined(infos@, order@, n, Space::Global));
                    if t is None { assert(sum_types(infos@, order@, n) > u32::MAX); }
                    if f is None { assert(first(Space::Func) + sum_defined(infos@, order@, n, Space::Func) > u32::MAX); }
                    if m is None { assert(first(Space::Memory) + sum_defined(infos@, order@, n, Space::Memory) > u32::MAX); }
                    if tb is None { assert(first(Space::Table) + sum_defined(infos@, order@, n, Space::Table) > u32::MAX); }
                    if g is None { assert(first(Space::Global) + sum_defined(infos@, order@, n, Space::Global) > u32::MAX); }
                }
                return None;
            },
        }
        p += 1;
    }
    proof {
        assert forall|sp: Space| first(sp) + sum_defined(infos@, order@, n, sp) <= u32::MAX by {
            assert(cur.base(sp) == first(sp) + sum_defined(infos@, order@, n, sp));
        }
    }
    Some((offs, cur))
}

/// The layout puts the items that each merge position defines in space `sp`
/// after those of every earlier position, without overlap: a module's own
/// memories (and functions, tables, globals) get slots no other module gets.
pub proof fn lemma_defined_ranges_disjoint(
    infos: Seq<ModuleInfo>,
    order: Seq<usize>,
    first: spec_fn(Space) -> nat,
    p: int,
    q: int,
    op: Offsets,
    oq: Offsets,
    sp: Space,
)
    requires
        0 <= p < q <= order.len(),
        offsets_at(infos, order, first, p, op),
        offsets_at(infos, order, first, q, oq),
    ensures
        op.base(sp) + infos[order[p] as int].defined(sp) <= oq.base(sp),
        first(sp) <= op.base(sp),
{
    lemma_sums_monotone(infos, order, p + 1, q);
}

// ── The merge layout and the index maps of each module ──────────────────

/// Everything the basic merge decides before it emits anything.
pub struct MergeLayout {
    /// Module indices in merge order.
    pub order: Vec<usize>,
    /// The label of the module at each merge position.
    pub labels: Vec<String>,
    /// The unresolved imports of each index space, which the merged module imports.
    pub unresolved_funcs: Vec<ImportEntry>,
    pub unresolved_mems: Vec<ImportEntry>,
    pub unresolved_tables: Vec<ImportEntry>,
    pub unresolved_globals: Vec<ImportEntry>,
    /// Where each merge position's items start.
    pub offsets: Vec<Offsets>,
    /// The sizes of the merged index spaces.
    pub totals: Offsets,
}

impl MergeLayout {
    pub open spec fn unresolved_in(&self, sp: Space) -> Seq<ImportEntry> {
        match sp {
            Space::Func => self.unresolved_funcs@,
            Space::Memory => self.unresolved_mems@,
            Space::Table => self.unresolved_tables@,
            Space::Global => self.unresolved_globals@,
        }
    }

    pub fn unresolved_list(&self, sp: Space) -> (r: &Vec<ImportEntry>)
        ensures
            r@ == self.unresolved_in(sp),
    {
        match sp {
            Space::Func => &self.unresolved_funcs,
            Space::Memory => &self.unresolved_mems,
            Space::Table => &self.unresolved_tables,
            Space::Global => &self.unresolved_globals,
        }
    }

    pub open spec fn first(&self) -> spec_fn(Space) -> nat {
        first_slots(
            self.unresolved_funcs.len() as nat,
            self.unresolved_mems.len() as nat,
            self.unresolved_tables.len() as nat,
            self.unresolved_globals.len() as nat,
        )
    }

    /// This is the layout of merging modules `infos` wired by `instances`.
    pub open spec fn valid(&self, instances: Seq<CoreInstance>, infos: Seq<ModuleInfo>) -> bool {
        &&& self.order@ == merge_order(instances, infos.len())
        &&& positions_ok(infos, self.order@, views(self.labels@))
        &&& views(self.labels@) == label_views(instances, self.order@)
        &&& forall|sp: Space| #[trigger] self.unresolved_in(sp) ==
            select_space(unresolved_spec(infos, self.order@, views(self.labels@)), sp)
        &&& self.offsets.len() == self.order.len()
        &&& forall|p: int| 0 <= p < self.order.len() ==>
            offsets_at(infos, self.order@, self.first(), p, #[trigger] self.offsets@[p])
        &&& offsets_at(infos, self.order@, self.first(), self.order.len() as int, self.totals)
        &&& layout_fits(infos, self.order@, self.first())
    }
}

/// The first entry of `list` importing `field` from `module`.
pub open spec fn first_key_index(list: Seq<ImportEntry>, module: Seq<char>, field: Seq<char>) -> Option<int> {
    if has_key(list, module, field) {
        Some(choose|i: int| 0 <= i < list.len() && list[i].module@ == module && list[i].field@ == field
            && forall|j: int| 0 <= j < i ==> !(list[j].module@ == module && list[j].field@ == field))
    } else {
        None
    }
}

/// Where an import of the module at some position lands in merged space `sp`:
/// at the item the resolving module exports (its index past the resolving
/// module's own imports, counted with 32-bit wrapping arithmetic),
/// else at the merged module's import of the same name, if it has one.
pub open spec fn import_target(layout: MergeLayout, infos: Seq<ModuleInfo>, sp: Space, imp: ImportEntry) -> Option<u32> {
    match resolve(infos, layout.order@, views(layout.labels@), imp.module@, imp.field@) {
        Some((tp, _kind, ti)) => Some(vstd::wrapping::u32_specs::wrapping_add(
            layout.offsets@[tp].base(sp),
            vstd::wrapping::u32_specs::wrapping_sub(ti, infos[layout.order@[tp] as int].imported(sp)),
        )),
        None => match first_key_index(layout.unresolved_in(sp), imp.module@, imp.field@) {
            Some(i) => Some(i as u32),
            None => None,
        },
    }
}

/// The targets of the imports in `imports` that take a slot in `sp`, in order.
pub open spec fn targets_of(layout: MergeLayout, infos: Seq<ModuleInfo>, imports: Seq<ImportEntry>, sp: Space) -> Seq<Option<u32>>
    decreases imports.len(),
{
    if imports.len() == 0 {
        seq![]
    } else if import_space(imports.last().ty) == Some(sp) {
        targets_of(layout, infos, imports.drop_last(), sp).push(import_target(layout, infos, sp, imports.last()))
    } else {
        targets_of(layout, infos, imports.drop_last(), sp)
    }
}

/// The index map of space `sp` for the module at position `p`: its imports (by
/// their position among the imports of that space) go to their targets, its own
/// items follow on from its offset.
pub open spec fn remap_table(layout: MergeLayout, infos: Seq<ModuleInfo>, p: int, sp: Space) -> Seq<Option<u32>> {
    let info = infos[layout.order@[p] as int];
    targets_of(layout, infos, info.imports@, sp) + Seq::new(
        info.defined(sp) as nat,
        |i: int| Some((layout.offsets@[p].base(sp) + i) as u32),
    )
}

/// The type index map of the module at position `p`.
pub open spec fn type_table(layout: MergeLayout, infos: Seq<ModuleInfo>, p: int) -> Seq<Option<u32>> {
    Seq::new(
        infos[layout.order@[p] as int].type_count as nat,
        |i: int| Some((layout.offsets@[p].type_base + i) as u32),
    )
}

/// An index through a map: the mapped index where the map has one, else the
/// index unchanged.
pub open spec fn remap_lookup(table: Seq<Option<u32>>, idx: u32) -> u32 {
    if (idx as int) < table.len() && table[idx as int] is Some {
        table[idx as int]->0
    } else {
        idx
    }
}

pub fn lookup(table: &Vec<Option<u32>>, idx: u32) -> (r: u32)
    ensures
        r == remap_lookup(table@, idx),
{
    if (idx as usize) < table.len() {
        match table[idx as usize] {
            Some(v) => v,
            None => idx,
        }
    } else {
        idx
    }
}

/// The index maps of one merged module.
pub struct Remapper {
    pub func_map: Vec<Option<u32>>,
    pub mem_map: Vec<Option<u32>>,
    pub type_map: Vec<Option<u32>>,
    pub global_map: Vec<Option<u32>>,
    pub table_map: Vec<Option<u32>>,
}

impl Remapper {
    pub open spec fn table(&self, sp: Space) -> Seq<Option<u32>> {
        match sp {
            Space::Func => self.func_map@,
            Space::Memory => self.mem_map@,
            Space::Table => self.table_map@,
            Space::Global => self.global_map@,
        }
    }

    /// These are the maps of the module at position `p`.
    pub open spec fn maps_position(&self, layout: MergeLayout, infos: Seq<ModuleInfo>, p: int) -> bool {
        &&& self.type_map@ == type_table(layout, infos, p)
        &&& forall|sp: Space| #[trigger] self.table(sp) == remap_table(layout, infos, p, sp)
    }
}

proof fn lemma_position_fits(layout: MergeLayout, instances: Seq<CoreInstance>, infos: Seq<ModuleInfo>, p: int, sp: Space)
    requires
        layout.valid(instances, infos),
        0 <= p < layout.order.len(),
    ensures
        layout.offsets@[p].type_base + infos[layout.order@[p] as int].type_count <= u32::MAX,
        layout.offsets@[p].base(sp) + infos[layout.order@[p] as int].defined(sp) <= u32::MAX,
        layout.first()(sp) <= u32::MAX,
{
    let n = layout.order.len() as int;
    lemma_sums_monotone(infos, layout.order@, p + 1, n);
    assert(offsets_at(infos, layout.order@, layout.first(), p, layout.offsets@[p]));
    assert(layout.offsets@[p].base(sp) == layout.first()(sp) + sum_defined(infos, layout.order@, p, sp));
    assert(layout.first()(sp) + sum_defined(infos, layout.order@, n, sp) <= u32::MAX);
}

proof fn lemma_targets_len(layout: MergeLayout, infos: Seq<ModuleInfo>, imports: Seq<ImportEntry>, sp: Space)
    ensures
        targets_of(layout, infos, imports, sp).len() == count_in_space(imports, sp),
    decreases imports.len(),
{
    if imports.len() > 0 {
        lemma_targets_len(layout, infos, imports.drop_last(), sp);
    }
}

/// Shared-nothing basic merge: an item a module defines itself (its `i`-th own
/// memory, function, table or global) is remapped to its own slot, past the
/// imports kept by the merged module; and two merge positions never share such
/// a slot.
pub proof fn lemma_own_items_kept_apart(
    layout: MergeLayout,
    instances: Seq<CoreInstance>,
    infos: Seq<ModuleInfo>,
    sp: Space,
    p: int,
    i: int,
    q: int,
    j: int,
)
    requires
        layout.valid(instances, infos),
        forall|k: int| 0 <= k < infos.len() ==> (#[trigger] infos[k]).wf(),
        0 <= p < layout.order.len(),
        0 <= q < layout.order.len(),
        p != q,
        0 <= i < infos[layout.order@[p] as int].defined(sp),
        0 <= j < infos[layout.order@[q] as int].defined(sp),
        infos[layout.order@[p] as int].imported(sp) + infos[layout.order@[p] as int].defined(sp) <= u32::MAX,
    ensures
        remap_lookup(remap_table(layout, infos, p, sp), (infos[layout.order@[p] as int].imported(sp) + i) as u32)
            == layout.offsets@[p].base(sp) + i,
        layout.first()(sp) <= layout.offsets@[p].base(sp) + i,
        layout.offsets@[p].base(sp) + i != layout.offsets@[q].base(sp) + j,
{
    let mp = layout.order@[p] as int;
    let info = infos[mp];
    assert(info.wf());
    lemma_targets_len(layout, infos, info.imports@, sp);
    lemma_position_fits(layout, instances, infos, p, sp);
    assert(offsets_at(infos, layout.order@, layout.first(), p, layout.offsets@[p]));
    assert(offsets_at(infos, layout.order@, layout.first(), q, layout.offsets@[q]));
    if p < q {
        lemma_defined_ranges_disjoint(infos, layout.order@, layout.first(), p, q, layout.offsets@[p], layout.offsets@[q], sp);
    } else {
        lemma_defined_ranges_disjoint(infos, layout.order@, layout.first(), q, p, layout.offsets@[q], layout.offsets@[p], sp);
    }
    let t = remap_table(layout, infos, p, sp);
    let k = info.imported(sp) + i;
    assert(t.len() == info.imported(sp) + info.defined(sp));
    assert(t[k] == Some((layout.offsets@[p].base(sp) + i) as u32));
    assert(((info.imported(sp) + i) as u32) as int == k);
}

/// The target of one import in space `sp`.
fn target_of_import(layout: &MergeLayout, Ghost(instances): Ghost<Seq<CoreInstance>>, infos: &Vec<ModuleInfo>, sp: Space, imp: &ImportEntry) -> (r: Option<u32>)
    requires
        layout.valid(instances, infos@),
    ensures
        r == import_target(*layout, infos@, sp, *imp),
{
    match resolve_import(infos, &layout.order, &layout.labels, &imp.module, &imp.field) {
        Some((tp, _kind, ti)) => {
            let off = layout.offsets[tp].base_in(sp);
            let imported = infos[layout.order[tp]].imported_in(sp);
            Some(off.wrapping_add(ti.wrapping_sub(imported)))
        },
        None => {
            let list = layout.unresolved_list(sp);
            match find_key(list, &imp.module, &imp.field) {
                Some(i) => {
                    proof {
                        lemma_position_fits_first(*layout, instances, infos@, sp);
                        assert(has_key(list@, imp.module@, imp.field@));
                        let c = choose|i: int| 0 <= i < list@.len() && list@[i].module@ == imp.module@ && list@[i].field@ == imp.field@
                            && forall|j: int| 0 <= j < i ==> !(list@[j].module@ == imp.module@ && list@[j].field@ == imp.field@);
                        if c < i {
                        } else if c > i {
                            assert(!(list@[i as int].module@ == imp.module@ && list@[i as int].field@ == imp.field@));
                        }
                    }
                    Some(i as u32)
                },
                None => None,
            }
        },
    }
}

proof fn lemma_position_fits_first(layout: MergeLayout, instances: Seq<CoreInstance>, infos: Seq<ModuleInfo>, sp: Space)
    requires
        layout.valid(instances, infos),
    ensures
        layout.unresolved_in(sp).len() <= u32::MAX,
{
    let n = layout.order.len() as int;
    assert(layout.first()(sp) + sum_defined(infos, layout.order@, n, sp) <= u32::MAX);
}

/// Builds the index maps of the module at merge position `p`.
pub fn build_remapper(layout: &MergeLayout, Ghost(instances): Ghost<Seq<CoreInstance>>, infos: &Vec<ModuleInfo>, p: usize) -> (r: Remapper)
    requires
        layout.valid(instances, infos@),
        p < layout.order.len(),
        infos@[layout.order@[p as int] as int].wf(),
    ensures
        r.maps_position(*layout, infos@, p as int),
{
    let info = &infos[layout.order[p]];
    let off = layout.offsets[p];
    proof {
        lemma_position_fits(*layout, instances, infos@, p as int, Space::Func);
    }
    let mut type_map: Vec<Option<u32>> = Vec::new();
    let mut i: u32 = 0;
    while i < info.type_count
        invariant
            i <= info.type_count,
            off.type_base + info.type_count <= u32::MAX,
            type_map@ == Seq::new(i as nat, |k: int| Some((off.type_base + k) as u32)),
        decreases info.type_count - i,
    {
        type_map.push(Some(off.type_base + i));
        i += 1;
        proof {
            assert(type_map@ =~= Seq::new(i as nat, |k: int| Some((off.type_base + k) as u32)));
        }
    }
    let mut rm = Remapper { func_map: Vec::new(), mem_map: Vec::new(), type_map, global_map: Vec::new(), table_map: Vec::new() };
    let imports = &info.imports;
    let mut j: usize = 0;
    proof {
        assert forall|sp: Space| #[trigger] rm.table(sp) == targets_of(*layout, infos@, imports@.take(0), sp) by {
            assert(imports@.take(0) =~= Seq::<ImportEntry>::empty());
            assert(rm.table(sp) =~= Seq::<Option<u32>>::empty());
        }
    }
    while j < imports.len()
        invariant
            j <= imports.len(),
            layout.valid(instances, infos@),
            imports@ == info.imports@,
            rm.type_map@ == type_table(*layout, infos@, p as int),
            forall|sp: Space| #[trigger] rm.table(sp) == targets_of(*layout, infos@, imports@.take(j as int), sp),
        decreases imports.len() - j,
    {
        let imp = &imports[j];
        proof {
            assert(imports@.take(j + 1).drop_last() =~= imports@.take(j as int));
            assert(imports@.take(j + 1).last() == imports@[j as int]);
        }
        let ghost prev = rm;
        let ghost isp = import_space(imp.ty);
        match space_of(&imp.ty) {
            Some(sp) => {
                let t = target_of_import(layout, Ghost(instances), infos, sp, imp);
                match sp {
                    Space::Func => rm.func_map.push(t),
                    Space::Memory => rm.mem_map.push(t),
                    Space::Table => rm.table_map.push(t),
                    Space::Global => rm.global_map.push(t),
                }
                proof {
                    assert(rm.table(sp) == prev.table(sp).push(t));
                    assert forall|o: Space| o != sp implies #[trigger] rm.table(o) == prev.table(o) by {}
                }
            },
            None => {},
        }
        j += 1;
        proof {
            assert forall|o: Space| #[trigger] rm.table(o) == targets_of(*layout, infos@, imports@.take(j as int), o) by {
                assert(prev.table(o) == targets_of(*layout, infos@, imports@.take(j - 1), o));
                if isp == Some(o) {
                } else {
                    assert(rm.table(o) == prev.table(o));
                }
            }
        }
    }
    proof {
        assert(imports@.take(imports@.len() as int) =~= imports@);
    }
    push_defined(&mut rm, Space::Func, off.func_base, info.func_count);
    proof { lemma_position_fits(*layout, instances, infos@, p as int, Space::Memory); }
    push_defined(&mut rm, Space::Memory, off.mem_base, info.mem_count);
    proof { lemma_position_fits(*layout, instances, infos@, p as int, Space::Table); }
    push_defined(&mut rm, Space::Table, off.table_base, info.table_count);
    proof { lemma_position_fits(*layout, instances, infos@, p as int, Space::Global); }
    push_defined(&mut rm, Space::Global, off.global_base, info.global_count);
    proof {
        assert forall|sp: Space| #[trigger] rm.table(sp) == remap_table(*layout, infos@, p as int, sp) by {
            assert(rm.table(sp) =~= remap_table(*layout, infos@, p as int, sp));
        }
    }
    rm
}

/// Appends the slots `base`, `base + 1`, ... for `count` defined items to the map of `sp`.
fn push_defined(rm: &mut Remapper, sp: Space, base: u32, count: u32)
    requires
        base + count <= u32::MAX,
    ensures
        final(rm).type_map@ == old(rm).type_map@,
        final(rm).table(sp) == old(rm).table(sp) + Seq::new(count as nat, |k: int| Some((base + k) as u32)),
        forall|o: Space| o != sp ==> #[trigger] final(rm).table(o) == old(rm).table(o),
{
    let mut i: u32 = 0;
    while i < count
        invariant
            i <= count,
            base + count <= u32::MAX,
            rm.type_map@ == old(rm).type_map@,
            rm.table(sp) == old(rm).table(sp) + Seq::new(i as nat, |k: int| Some((base + k) as u32)),
            forall|o: Space| o != sp ==> #[trigger] rm.table(o) == old(rm).table(o),
        decreases count - i,
    {
        let v = Some(base + i);
        let ghost prev = *rm;
        match sp {
            Space::Func => rm.func_map.push(v),
            Space::Memory => rm.mem_map.push(v),
            Space::Table => rm.table_map.push(v),
            Space::Global => rm.global_map.push(v),
        }
        i += 1;
        proof {
            assert(rm.table(sp) =~= old(rm).table(sp) + Seq::new(i as nat, |k: int| Some((base + k) as u32)));
            assert forall|o: Space| o != sp implies #[trigger] rm.table(o) == old(rm).table(o) by {
                assert(rm.table(o) == prev.table(o));
            }
        }
    }
}

/// The merge order of modules `infos` wired by `instances`.
pub open spec fn spec_order(instances: Seq<CoreInstance>, infos: Seq<ModuleInfo>) -> Seq<usize> {
    merge_order(instances, infos.len())
}

/// The unresolved imports of merging modules `infos` wired by `instances`.
pub open spec fn spec_unresolved(instances: Seq<CoreInstance>, infos: Seq<ModuleInfo>) -> Seq<ImportEntry> {
    let order = spec_order(instances, infos);
    unresolved_spec(infos, order, label_views(instances, order))
}

/// The merged index spaces of merging modules `infos` wired by `instances` fit in 32 bits.
pub open spec fn merge_fits(instances: Seq<CoreInstance>, infos: Seq<ModuleInfo>) -> bool {
    let u = spec_unresolved(instances, infos);
    layout_fits(
        infos,
        spec_order(instances, infos),
        first_slots(
            select_space(u, Space::Func).len(),
            select_space(u, Space::Memory).len(),
            select_space(u, Space::Table).len(),
            select_space(u, Space::Global).len(),
        ),
    )
}

/// Decides the layout of the merged module; `None` when its index spaces do not
/// fit in 32 bits.
pub fn plan_layout(instances: &Vec<CoreInstance>, infos: &Vec<ModuleInfo>) -> (r: Option<MergeLayout>)
    requires
        instances.len() <= u32::MAX,
        forall|i: int| 0 <= i < instances.len() ==> (#[trigger] instances@[i]).module_idx < infos.len(),
    ensures
        r is Some <==> merge_fits(instances@, infos@),
        r matches Some(l) ==> l.valid(instances@, infos@),
{
    let order = module_order(instances, infos.len());
    proof {
        lemma_merge_order_is_permutation(instances@, infos.len() as nat);
        assert forall|p: int| 0 <= p < order.len() implies (#[trigger] order@[p] as int) < infos.len() by {
            assert(order@.contains(order@[p]));
        }
    }
    let mut labels: Vec<String> = Vec::new();
    let mut p: usize = 0;
    while p < order.len()
        invariant
            p <= order.len(),
            instances.len() <= u32::MAX,
            views(labels@) == label_views(instances@, order@).take(p as int),
        decreases order.len() - p,
    {
        let l = module_label(instances, order[p]);
        let ghost old_labels = labels@;
        let ghost lv = l@;
        labels.push(l);
        p += 1;
        proof {
            assert(views(labels@) =~= views(old_labels).push(lv));
            assert(label_views(instances@, order@).take(p as int) =~= label_views(instances@, order@).take(p - 1).push(
                module_label_spec(instances@, order@[p - 1])));
        }
    }
    proof {
        assert(views(labels@) =~= label_views(instances@, order@));
    }
    let kept = collect_unresolved(infos, &order, &labels);
    let funcs = select_in_space(&kept, Space::Func);
    let mems = select_in_space(&kept, Space::Memory);
    let tables = select_in_space(&kept, Space::Table);
    let globals = select_in_space(&kept, Space::Global);
    match compute_offsets(infos, &order, funcs.len(), mems.len(), tables.len(), globals.len()) {
        Some((offsets, totals)) => {
            let layout = MergeLayout {
                order,
                labels,
                unresolved_funcs: funcs,
                unresolved_mems: mems,
                unresolved_tables: tables,
                unresolved_globals: globals,
                offsets,
                totals,
            };
            proof {
                assert forall|sp: Space| #[trigger] layout.unresolved_in(sp) ==
                    select_space(unresolved_spec(infos@, layout.order@, views(layout.labels@)), sp) by {}
                assert(layout.first() == first_slots(funcs.len() as nat, mems.len() as nat, tables.len() as nat, globals.len() as nat));
            }
            Some(layout)
        },
        None => None,
    }
}

// ── Exports of the merged module ────────────────────────────────────────

/// An export of the merged module.
pub struct PlannedExport {
    pub name: String,
    pub kind: ExternKind,
    pub index: u32,
}

pub open spec fn opt_view(from: Option<&str>) -> Option<Seq<char>> {
    match from {
        Some(f) => Some(f@),
        None => None,
    }
}

pub open spec fn export_views(s: Seq<PlannedExport>) -> Seq<(Seq<char>, ExternKind, u32)> {
    s.map_values(|e: PlannedExport| (e.name@, e.kind, e.index))
}

/// Only function, memory, table and global exports are re-exported.
pub open spec fn reexported_kind(k: ExternKind) -> bool {
    k == ExternKind::Func || k == ExternKind::Memory || k == ExternKind::Table || k == ExternKind::Global
}

/// The merged index of an exported item of the module whose maps are `rm`.
pub open spec fn new_export_index(rm: Remapper, kind: ExternKind, index: u32) -> u32 {
    match kind {
        ExternKind::Func => remap_lookup(rm.func_map@, index),
        ExternKind::Memory => remap_lookup(rm.mem_map@, index),
        ExternKind::Table => remap_lookup(rm.table_map@, index),
        ExternKind::Global => remap_lookup(rm.global_map@, index),
        _ => index,
    }
}

pub open spec fn has_name(out: Seq<(Seq<char>, ExternKind, u32)>, name: Seq<char>) -> bool {
    exists|i: int| 0 <= i < out.len() && out[i].0 == name
}

/// Adds export `e` of a module labelled `label`: renamed to `label_name` when an
/// earlier export of the merged module already has its name.
pub open spec fn export_step(out: Seq<(Seq<char>, ExternKind, u32)>, label: Seq<char>, rm: Remapper, e: ExportEntry)
    -> Seq<(Seq<char>, ExternKind, u32)>
{
    if !reexported_kind(e.kind) {
        out
    } else {
        let name = if has_name(out, e.name@) {
            label + "_"@ + e.name@
        } else {
            e.name@
        };
        out.push((name, e.kind, new_export_index(rm, e.kind, e.index)))
    }
}

pub open spec fn exports_of_position(out: Seq<(Seq<char>, ExternKind, u32)>, label: Seq<char>, rm: Remapper, exports: Seq<ExportEntry>)
    -> Seq<(Seq<char>, ExternKind, u32)>
    decreases exports.len(),
{
    if exports.len() == 0 {
        out
    } else {
        export_step(exports_of_position(out, label, rm, exports.drop_last()), label, rm, exports.last())
    }
}

/// Whether the module at merge position `pos` (module `mi`, labelled `label`) is
/// re-exported when exports are limited to `from`: by label, by position or by
/// module index.
pub open spec fn export_selected(from: Option<Seq<char>>, label: Seq<char>, pos: nat, mi: nat) -> bool {
    match from {
        None => true,
        Some(f) => label == f || decimal(pos) == f || decimal(mi) == f,
    }
}

/// The exports of the merged module from the first `k` merge positions.
pub open spec fn planned_exports_upto(
    layout: MergeLayout,
    infos: Seq<ModuleInfo>,
    rms: Seq<Remapper>,
    from: Option<Seq<char>>,
    k: int,
) -> Seq<(Seq<char>, ExternKind, u32)>
    decreases k,
{
    if k <= 0 {
        seq![]
    } else {
        let prev = planned_exports_upto(layout, infos, rms, from, k - 1);
        let p = k - 1;
        let label = layout.labels@[p]@;
        let mi = layout.order@[p];
        if export_selected(from, label, p as nat, mi as nat) {
            exports_of_position(prev, label, rms[p], infos[mi as int].exports@)
        } else {
            prev
        }
    }
}

/// The merged index of an item of kind `kind` through the maps of `rm`.
pub open spec fn index_through(rm: Remapper, kind: ExternKind, index: u32) -> u32 {
    match kind {
        ExternKind::Func => remap_lookup(rm.func_map@, index),
        ExternKind::Memory => remap_lookup(rm.mem_map@, index),
        ExternKind::Table => remap_lookup(rm.table_map@, index),
        ExternKind::Global => remap_lookup(rm.global_map@, index),
        _ => index,
    }
}

/// `out` holds export `e` of a module labelled `label` with maps `rm`: same
/// kind, its index through the map of its kind, under its own name or
/// `label_name`.
pub open spec fn holds_export(out: Seq<(Seq<char>, ExternKind, u32)>, label: Seq<char>, rm: Remapper, e: ExportEntry) -> bool {
    exists|k: int|
        0 <= k < out.len() && (#[trigger] out[k]).1 == e.kind && out[k].2 == index_through(rm, e.kind, e.index) && (
        out[k].0 == e.name@ || out[k].0 == label + "_"@ + e.name@)
}

/// Adding the exports of a position keeps what was planned before.
pub proof fn lemma_position_keeps(out: Seq<(Seq<char>, ExternKind, u32)>, label: Seq<char>, rm: Remapper, exports: Seq<ExportEntry>)
    ensures
        out.len() <= exports_of_position(out, label, rm, exports).len(),
        forall|k: int| 0 <= k < out.len() ==> #[trigger] exports_of_position(out, label, rm, exports)[k] == out[k],
    decreases exports.len(),
{
    if exports.len() > 0 {
        lemma_position_keeps(out, label, rm, exports.drop_last());
    }
}

/// Every function, memory, table and global export of a position is planned.
pub proof fn lemma_position_holds(
    out: Seq<(Seq<char>, ExternKind, u32)>,
    label: Seq<char>,
    rm: Remapper,
    exports: Seq<ExportEntry>,
    j: int,
)
    requires
        0 <= j < exports.len(),
        exports[j].kind == ExternKind::Func || exports[j].kind == ExternKind::Memory || exports[j].kind
            == ExternKind::Table || exports[j].kind == ExternKind::Global,
    ensures
        holds_export(exports_of_position(out, label, rm, exports), label, rm, exports[j]),
    decreases exports.len(),
{
    let prev = exports_of_position(out, label, rm, exports.drop_last());
    let all = exports_of_position(out, label, rm, exports);
    if j < exports.len() - 1 {
        lemma_position_holds(out, label, rm, exports.drop_last(), j);
        assert(exports.drop_last()[j] == exports[j]);
        let k = choose|k: int|
            0 <= k < prev.len() && (#[trigger] prev[k]).1 == exports[j].kind && prev[k].2 == index_through(
                rm,
                exports[j].kind,
                exports[j].index,
            ) && (prev[k].0 == exports[j].name@ || prev[k].0 == label + "_"@ + exports[j].name@);
        assert(all[k] == prev[k]);
    } else {
        let e = exports.last();
        assert(e == exports[j]);
        let k = prev.len() as int;
        assert(all[k].1 == e.kind);
    }
}

/// The exports planned from the first `k1` positions begin those from `k2`.
pub proof fn lemma_planned_keeps(
    layout: MergeLayout,
    infos: Seq<ModuleInfo>,
    rms: Seq<Remapper>,
    from: Option<Seq<char>>,
    k1: int,
    k2: int,
)
    requires
        0 <= k1 <= k2,
    ensures
        planned_exports_upto(layout, infos, rms, from, k1).len() <= planned_exports_upto(layout, infos, rms, from, k2).len(),
        forall|k: int|
            0 <= k < planned_exports_upto(layout, infos, rms, from, k1).len() ==> #[trigger] planned_exports_upto(
                layout,
                infos,
                rms,
                from,
                k2,
            )[k] == planned_exports_upto(layout, infos, rms, from, k1)[k],
    decreases k2 - k1,
{
    if k1 < k2 {
        lemma_planned_keeps(layout, infos, rms, from, k1, k2 - 1);
        let p = k2 - 1;
        let prev = planned_exports_upto(layout, infos, rms, from, k2 - 1);
        let mi = layout.order@[p];
        if export_selected(from, layout.labels@[p]@, p as nat, mi as nat) {
            lemma_position_keeps(prev, layout.labels@[p]@, rms[p], infos[mi as int].exports@);
        }
    }
}

/// Re-exports are complete: every function, memory, table and global export of
/// a module at a selected merge position is among the merged module's exports,
/// with the same kind, its index through that position's map for its kind, and
/// its own name or the position's label, `_` and its name.
pub proof fn lemma_selected_exports_kept(
    layout: MergeLayout,
    infos: Seq<ModuleInfo>,
    rms: Seq<Remapper>,
    from: Option<Seq<char>>,
    p: int,
    j: int,
)
    requires
        0 <= p < layout.order.len(),
        export_selected(from, layout.labels@[p]@, p as nat, layout.order@[p] as nat),
        0 <= j < infos[layout.order@[p] as int].exports@.len(),
        ({
            let k = infos[layout.order@[p] as int].exports@[j].kind;
            k == ExternKind::Func || k == ExternKind::Memory || k == ExternKind::Table || k == ExternKind::Global
        }),
    ensures
        holds_export(
            planned_exports_upto(layout, infos, rms, from, layout.order.len() as int),
            layout.labels@[p]@,
            rms[p],
            infos[layout.order@[p] as int].exports@[j],
        ),
{
    let mi = layout.order@[p];
    let label = layout.labels@[p]@;
    let exports = infos[mi as int].exports@;
    let e = exports[j];
    let prev = planned_exports_upto(layout, infos, rms, from, p);
    let here = planned_exports_upto(layout, infos, rms, from, p + 1);
    lemma_position_holds(prev, label, rms[p], exports, j);
    lemma_planned_keeps(layout, infos, rms, from, p + 1, layout.order.len() as int);
    let all = planned_exports_upto(layout, infos, rms, from, layout.order.len() as int);
    let k = choose|k: int|
        0 <= k < here.len() && (#[trigger] here[k]).1 == e.kind && here[k].2 == index_through(rms[p], e.kind, e.index)
            && (here[k].0 == e.name@ || here[k].0 == label + "_"@ + e.name@);
    assert(all[k] == here[k]);
}

fn out_has_name(out: &Vec<PlannedExport>, name: &String) -> (r: bool)
    ensures
        r == has_name(export_views(out@), name@),
{
    let mut i: usize = 0;
    while i < out.len()
        invariant
            i <= out.len(),
            forall|j: int| 0 <= j < i ==> export_views(out@)[j].0 != name@,
        decreases out.len() - i,
    {
        if out[i].name == *name {
            proof {
                assert(export_views(out@)[i as int].0 == name@);
            }
            return true;
        }
        i += 1;
    }
    false
}

fn new_index_of(rm: &Remapper, kind: ExternKind, index: u32) -> (r: u32)
    ensures
        r == new_export_index(*rm, kind, index),
{
    match kind {
        ExternKind::Func => lookup(&rm.func_map, index),
        ExternKind::Memory => lookup(&rm.mem_map, index),
        ExternKind::Table => lookup(&rm.table_map, index),
        ExternKind::Global => lookup(&rm.global_map, index),
        _ => index,
    }
}

/// Whether the module at position `pos` (module `mi`, labelled `label`) is re-exported.
pub fn is_export_selected(from: Option<&str>, label: &String, pos: usize, mi: usize) -> (r: bool)
    ensures
        r == export_selected(opt_view(from), label@, pos as nat, mi as nat),
{
    match from {
        None => true,
        Some(f) => {
            let fs = String::from_str(f);
            let ps = decimal_string(pos as u64);
            let ms = decimal_string(mi as u64);
            *label == fs || ps == fs || ms == fs
        },
    }
}

/// The exports of the merged module: every function, memory, table and global
/// export of the selected modules, in merge order, through each module's maps,
/// renamed `label_name` when the name is taken.
pub fn plan_exports(
    layout: &MergeLayout,
    Ghost(instances): Ghost<Seq<CoreInstance>>,
    infos: &Vec<ModuleInfo>,
    rms: &Vec<Remapper>,
    from: Option<&str>,
) -> (out: Vec<PlannedExport>)
    requires
        layout.valid(instances, infos@),
        rms.len() == layout.order.len(),
    ensures
        export_views(out@) == planned_exports_upto(*layout, infos@, rms@, opt_view(from), layout.order.len() as int),
        forall|p: int, j: int|
            0 <= p < layout.order.len() && export_selected(opt_view(from), layout.labels@[p]@, p as nat, layout.order@[p] as nat)
                && 0 <= j < infos@[layout.order@[p] as int].exports@.len() && ({
                let k = (#[trigger] infos@[layout.order@[p] as int].exports@[j]).kind;
                k == ExternKind::Func || k == ExternKind::Memory || k == ExternKind::Table || k == ExternKind::Global
            }) ==> holds_export(export_views(out@), layout.labels@[p]@, rms@[p], infos@[layout.order@[p] as int].exports@[j]),
{
    let ghost fv = opt_view(from);
    let mut out: Vec<PlannedExport> = Vec::new();
    let mut p: usize = 0;
    while p < layout.order.len()
        invariant
            p <= layout.order.len(),
            layout.valid(instances, infos@),
            rms.len() == layout.order.len(),
            fv == opt_view(from),
            export_views(out@) == planned_exports_upto(*layout, infos@, rms@, fv, p as int),
        decreases layout.order.len() - p,
    {
        let mi = layout.order[p];
        let label = &layout.labels[p];
        if is_export_selected(from, label, p, mi) {
            let exports = &infos[mi].exports;
            let rm = &rms[p];
            let ghost start = export_views(out@);
            let mut j: usize = 0;
            proof {
                assert(exports@.take(0) =~= Seq::<ExportEntry>::empty());
            }
            while j < exports.len()
                invariant
                    j <= exports.len(),
                    export_views(out@) == exports_of_position(start, label@, *rm, exports@.take(j as int)),
                decreases exports.len() - j,
            {
                let e = &exports[j];
                proof {
                    assert(exports@.take(j + 1).drop_last() =~= exports@.take(j as int));
                    assert(exports@.take(j + 1).last() == exports@[j as int]);
                }
                let keep = match e.kind {
                    ExternKind::Func | ExternKind::Memory | ExternKind::Table | ExternKind::Global => true,
                    _ => false,
                };
                if keep {
                    let new_idx = new_index_of(rm, e.kind, e.index);
                    let taken = out_has_name(&out, &e.name);
                    let name = if taken {
                        let mut n = label.clone();
                        n.append("_");
                        n.append(e.name.as_str());
                        n
                    } else {
                        e.name.clone()
                    };
                    let ghost before = out@;
                    out.push(PlannedExport { name, kind: e.kind, index: new_idx });
                    proof {
                        assert(export_views(out@) =~= export_views(before).push((name@, e.kind, new_idx)));
                    }
                }
                j += 1;
            }
            proof {
                assert(exports@.take(exports@.len() as int) =~= exports@);
            }
        }
        p += 1;
    }
    proof {
        assert forall|p: int, j: int|
            0 <= p < layout.order.len() && export_selected(opt_view(from), layout.labels@[p]@, p as nat, layout.order@[p] as nat)
                && 0 <= j < infos@[layout.order@[p] as int].exports@.len() && ({
                let k = (#[trigger] infos@[layout.order@[p] as int].exports@[j]).kind;
                k == ExternKind::Func || k == ExternKind::Memory || k == ExternKind::Table || k == ExternKind::Global
            }) implies holds_export(export_views(out@), layout.labels@[p]@, rms@[p], infos@[layout.order@[p] as int].exports@[j]) by {
            lemma_selected_exports_kept(*layout, infos@, rms@, opt_view(from), p, j);
        }
    }
    out
}

// ── Types of the unresolved function imports ────────────────────────────

/// The index of the first import in `imports` of `field` from `module`.
pub open spec fn first_match(imports: Seq<ImportEntry>, module: Seq<char>, field: Seq<char>) -> Option<int> {
    if has_key(imports, module, field) {
        Some(choose|i: int| 0 <= i < imports.len() && imports[i].module@ == module && imports[i].field@ == field
            && forall|j: int| 0 <= j < i ==> !(imports[j].module@ == module && imports[j].field@ == field))
    } else {
        None
    }
}

/// The type of an unresolved function import in the merged module, looking at
/// the first `k` merge positions: the first position that imports `field` from
/// `module` as a function gives it its type, through that position's type map;
/// `None` when no position among them does.
pub open spec fn unresolved_func_type_upto(
    layout: MergeLayout,
    infos: Seq<ModuleInfo>,
    rms: Seq<Remapper>,
    module: Seq<char>,
    field: Seq<char>,
    k: int,
) -> Option<u32>
    decreases k,
{
    if k <= 0 {
        None
    } else {
        match unresolved_func_type_upto(layout, infos, rms, module, field, k - 1) {
            Some(t) => Some(t),
            None => {
                let imports = infos[layout.order@[k - 1] as int].imports@;
                match first_match(imports, module, field) {
                    Some(i) => match imports[i].ty {
                        ImportType::Func(ti) => Some(remap_lookup(rms[k - 1].type_map@, ti)),
                        _ => None,
                    },
                    None => None,
                }
            },
        }
    }
}

/// The type index of the merged module's import of `field` from `module`.
pub fn unresolved_func_type(
    layout: &MergeLayout,
    Ghost(instances): Ghost<Seq<CoreInstance>>,
    infos: &Vec<ModuleInfo>,
    rms: &Vec<Remapper>,
    module: &String,
    field: &String,
    orig: u32,
) -> (r: u32)
    requires
        layout.valid(instances, infos@),
        rms.len() == layout.order.len(),
    ensures
        r == match unresolved_func_type_upto(*layout, infos@, rms@, module@, field@, layout.order.len() as int) {
            Some(t) => t,
            None => orig,
        },
{
    let mut found: Option<u32> = None;
    let mut p: usize = 0;
    while p < layout.order.len()
        invariant
            p <= layout.order.len(),
            layout.valid(instances, infos@),
            rms.len() == layout.order.len(),
            found == unresolved_func_type_upto(*layout, infos@, rms@, module@, field@, p as int),
        decreases layout.order.len() - p,
    {
        if found.is_some() {
            p += 1;
            continue;
        }
        let imports = &infos[layout.order[p]].imports;
        match find_key(imports, module, field) {
            Some(i) => {
                proof {
                    assert(has_key(imports@, module@, field@));
                    let c = choose|c: int| 0 <= c < imports@.len() && imports@[c].module@ == module@ && imports@[c].field@ == field@
                        && forall|j: int| 0 <= j < c ==> !(imports@[j].module@ == module@ && imports@[j].field@ == field@);
                    if c < i {
                    } else if c > i {
                        assert(!(imports@[i as int].module@ == module@ && imports@[i as int].field@ == field@));
                    }
                    assert(first_match(imports@, module@, field@) == Some(i as int));
                }
                match imports[i].ty {
                    ImportType::Func(t) => {
                        found = Some(lookup(&rms[p].type_map, t));
                    },
                    _ => {},
                }
            },
            None => {},
        }
        p += 1;
    }
    match found {
        Some(t) => t,
        None => orig,
    }
}

} // verus!
