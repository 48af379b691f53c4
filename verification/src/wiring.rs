//! Instantiation wiring for standalone modules given as `file=label` pairs:
//! each module imports from namespaces, and a namespace that names a module's
//! label is answered by that module's instance.

use vstd::prelude::*;
use crate::bindings::{import_section_modules, parse_payloads, payload_tags, read_import_modules, PayloadTag};
use crate::component::byte_range;
use crate::component::CoreInstance;

verus! {

/// The first occurrence of each name, in order.
pub open spec fn dedup_names(s: Seq<Seq<char>>) -> Seq<Seq<char>>
    decreases s.len(),
{
    if s.len() == 0 {
        seq![]
    } else {
        let r = dedup_names(s.drop_last());
        if r.contains(s.last()) {
            r
        } else {
            r.push(s.last())
        }
    }
}

/// Each name occurs once in `dedup_names(s)`, and exactly the names of `s` do.
pub proof fn lemma_dedup_names(s: Seq<Seq<char>>)
    ensures
        dedup_names(s).no_duplicates(),
        forall|x: Seq<char>| dedup_names(s).contains(x) <==> s.contains(x),
    decreases s.len(),
{
    if s.len() > 0 {
        let l = s.drop_last();
        lemma_dedup_names(l);
        let r = dedup_names(l);
        assert forall|x: Seq<char>| l.contains(x) implies s.contains(x) by {
            let j = choose|j: int| 0 <= j < l.len() && l[j] == x;
            assert(s[j] == x);
        }
        assert forall|x: Seq<char>| s.contains(x) implies l.contains(x) || x == s.last() by {
            let j = choose|j: int| 0 <= j < s.len() && s[j] == x;
            if j < l.len() {
                assert(l[j] == x);
            }
        }
        if !r.contains(s.last()) {
            let t = r.push(s.last());
            assert forall|x: Seq<char>| t.contains(x) <==> (r.contains(x) || x == s.last()) by {
                if t.contains(x) {
                    let j = choose|j: int| 0 <= j < t.len() && t[j] == x;
                    if j < r.len() {
                        assert(r[j] == x);
                    }
                }
                if r.contains(x) {
                    let j = choose|j: int| 0 <= j < r.len() && r[j] == x;
                    assert(t[j] == x);
                }
                if x == s.last() {
                    assert(t[r.len() as int] == x);
                }
            }
            assert forall|a: int, b: int| 0 <= a < b < t.len() implies t[a] != t[b] by {
                if b == r.len() {
                    assert(t[a] == r[a]);
                }
            }
        } else {
            let j = choose|j: int| 0 <= j < r.len() && r[j] == s.last();
            assert(l.contains(s.last()));
        }
    }
}

pub open spec fn names_view(s: Seq<String>) -> Seq<Seq<char>> {
    s.map_values(|x: String| x@)
}

fn holds_name(v: &Vec<String>, name: &String) -> (r: bool)
    ensures
        r == names_view(v@).contains(name@),
{
    let mut k: usize = 0;
    while k < v.len()
        invariant
            k <= v.len(),
            forall|j: int| 0 <= j < k ==> names_view(v@)[j] != name@,
        decreases v.len() - k,
    {
        if v[k] == *name {
            proof {
                assert(names_view(v@)[k as int] == name@);
            }
            return true;
        }
        k += 1;
    }
    false
}

/// The distinct names of `names`, each at its first occurrence.
pub fn distinct_names(names: &Vec<String>) -> (r: Vec<String>)
    ensures
        names_view(r@) == dedup_names(names_view(names@)),
{
    let mut out: Vec<String> = Vec::new();
    let mut i: usize = 0;
    while i < names.len()
        invariant
            i <= names.len(),
            names_view(out@) == dedup_names(names_view(names@).take(i as int)),
        decreases names.len() - i,
    {
        proof {
            assert(names_view(names@).take(i + 1).drop_last() =~= names_view(names@).take(i as int));
        }
        if !holds_name(&out, &names[i]) {
            let ghost before = out@;
            out.push(names[i].clone());
            proof {
                assert(names_view(out@) =~= names_view(before).push(names@[i as int]@));
            }
        }
        i += 1;
    }
    proof {
        assert(names_view(names@).take(names.len() as int) =~= names_view(names@));
    }
    out
}

/// The namespaces of the imports in the import sections among the first `i`
/// payloads, in order.
pub open spec fn import_modules_upto(wasm: Seq<u8>, tags: Seq<PayloadTag>, i: int) -> Seq<Seq<char>>
    decreases i,
{
    if i <= 0 {
        seq![]
    } else {
        let r = import_modules_upto(wasm, tags, i - 1);
        match tags[i - 1] {
            PayloadTag::Imports { start, end } => if start <= end && end <= wasm.len() {
                r + import_section_modules(wasm.subrange(start as int, end as int), start)
            } else {
                r
            },
            _ => r,
        }
    }
}

/// The namespaces of a module's imports, in order, as often as they occur.
pub open spec fn module_import_modules(wasm: Seq<u8>) -> Seq<Seq<char>> {
    import_modules_upto(wasm, payload_tags(wasm), payload_tags(wasm).len() as int)
}

/// The namespaces a module imports from, each once, in the order they first
/// occur; imports that do not parse are passed over.
pub fn import_namespaces(wasm: &[u8]) -> (r: Vec<String>)
    ensures
        names_view(r@) == dedup_names(module_import_modules(wasm@)),
        names_view(r@).no_duplicates(),
{
    let mut names: Vec<String> = Vec::new();
    let (_payloads, tags) = parse_payloads(wasm);
    let ghost tv = payload_tags(wasm@);
    let mut i: usize = 0;
    while i < tags.len()
        invariant
            tags@ == tv,
            tv == payload_tags(wasm@),
            i <= tags.len(),
            names_view(names@) == import_modules_upto(wasm@, tv, i as int),
        decreases tags.len() - i,
    {
        match tags[i] {
            PayloadTag::Imports { start, end } => {
                if start <= end && end <= wasm.len() as u64 {
                    let bytes = byte_range(wasm, start as usize, end as usize);
                    let mut found = read_import_modules(bytes.as_slice(), start);
                    let ghost before = names@;
                    let ghost more = found@;
                    names.append(&mut found);
                    proof {
                        assert(names_view(names@) =~= names_view(before) + more.map_values(|s: String| s@));
                    }
                }
            },
            _ => {},
        }
        i += 1;
    }
    let r = distinct_names(&names);
    proof {
        assert(names_view(names@) == module_import_modules(wasm@));
        lemma_dedup_names(names_view(names@));
    }
    r
}

/// The module a label names: the last input with that label.
pub open spec fn last_label(labels: Seq<Seq<char>>, ns: Seq<char>) -> Option<int>
    decreases labels.len(),
{
    if labels.len() == 0 {
        None
    } else if labels.last() == ns {
        Some(labels.len() - 1)
    } else {
        last_label(labels.drop_last(), ns)
    }
}

pub proof fn lemma_last_label_bound(labels: Seq<Seq<char>>, ns: Seq<char>)
    ensures
        last_label(labels, ns) matches Some(i) ==> 0 <= i < labels.len(),
    decreases labels.len(),
{
    if labels.len() > 0 && labels.last() != ns {
        lemma_last_label_bound(labels.drop_last(), ns);
    }
}

/// An instance as a plain value: its module and its arguments.
pub type InstanceView = (u32, Seq<(Seq<char>, u32)>);

pub open spec fn instance_view(i: CoreInstance) -> InstanceView {
    (i.module_idx, i.args@.map_values(|a: (String, u32)| (a.0@, a.1)))
}

pub open spec fn instances_view(s: Seq<CoreInstance>) -> Seq<InstanceView> {
    s.map_values(|i: CoreInstance| instance_view(i))
}

/// The position of the first instance of module `m`.
pub open spec fn find_module(insts: Seq<InstanceView>, m: u32) -> Option<int>
    decreases insts.len(),
{
    if insts.len() == 0 {
        None
    } else {
        match find_module(insts.drop_last(), m) {
            Some(p) => Some(p),
            None => if insts.last().0 == m {
                Some(insts.len() - 1)
            } else {
                None
            },
        }
    }
}

pub proof fn lemma_find_module(insts: Seq<InstanceView>, m: u32)
    ensures
        find_module(insts, m) matches Some(p) ==> 0 <= p < insts.len() && insts[p].0 == m && forall|k: int|
            0 <= k < p ==> (#[trigger] insts[k]).0 != m,
        find_module(insts, m) is None ==> forall|k: int| 0 <= k < insts.len() ==> (#[trigger] insts[k]).0 != m,
    decreases insts.len(),
{
    if insts.len() > 0 {
        let l = insts.drop_last();
        lemma_find_module(l, m);
        assert forall|k: int| 0 <= k < insts.len() - 1 implies #[trigger] insts[k] == l[k] by {}
        if find_module(l, m) is None && insts.last().0 != m {
            assert forall|k: int| 0 <= k < insts.len() implies (#[trigger] insts[k]).0 != m by {
                if k < insts.len() - 1 {
                    assert(insts[k] == l[k]);
                }
            }
        }
    }
}

/// One namespace of a module: when a label names it, the module it names is
/// given an instance if it has none yet, and that instance becomes an argument.
pub open spec fn ns_step(
    state: (Seq<InstanceView>, Seq<(Seq<char>, u32)>),
    ns: Seq<char>,
    labels: Seq<Seq<char>>,
) -> (Seq<InstanceView>, Seq<(Seq<char>, u32)>) {
    let (insts, args) = state;
    match last_label(labels, ns) {
        Some(dep) => match find_module(insts, dep as u32) {
            Some(p) => (insts, args.push((ns, p as u32))),
            None => (insts.push((dep as u32, seq![])), args.push((ns, insts.len() as u32))),
        },
        None => (insts, args),
    }
}

pub open spec fn ns_fold(insts: Seq<InstanceView>, nss: Seq<Seq<char>>, labels: Seq<Seq<char>>) -> (
    Seq<InstanceView>,
    Seq<(Seq<char>, u32)>,
)
    decreases nss.len(),
{
    if nss.len() == 0 {
        (insts, seq![])
    } else {
        ns_step(ns_fold(insts, nss.drop_last(), labels), nss.last(), labels)
    }
}

/// Module `i` with its namespaces: its arguments are gathered, then it takes
/// over the instance made for it as a dependency, or gets a new one.
pub open spec fn module_step(insts: Seq<InstanceView>, i: int, nss: Seq<Seq<char>>, labels: Seq<Seq<char>>) -> Seq<
    InstanceView,
> {
    let (after, args) = ns_fold(insts, nss, labels);
    match find_module(after, i as u32) {
        Some(p) => after.update(p, (i as u32, args)),
        None => after.push((i as u32, args)),
    }
}

/// The instances after wiring the first `k` modules.
pub open spec fn wire_upto(nss: Seq<Seq<Seq<char>>>, labels: Seq<Seq<char>>, k: int) -> Seq<InstanceView>
    decreases k,
{
    if k <= 0 {
        seq![]
    } else {
        module_step(wire_upto(nss, labels, k - 1), k - 1, nss[k - 1], labels)
    }
}

/// No two instances instantiate the same module.
pub open spec fn modules_distinct(insts: Seq<InstanceView>) -> bool {
    forall|a: int, b: int| 0 <= a < b < insts.len() ==> (#[trigger] insts[a]).0 != (#[trigger] insts[b]).0
}

/// Every instance instantiates one of the first `n` modules.
pub open spec fn modules_below(insts: Seq<InstanceView>, n: nat) -> bool {
    forall|a: int| 0 <= a < insts.len() ==> ((#[trigger] insts[a]).0 as nat) < n
}

/// Some instance instantiates module `m`.
pub open spec fn has_module(insts: Seq<InstanceView>, m: u32) -> bool {
    exists|a: int| 0 <= a < insts.len() && (#[trigger] insts[a]).0 == m
}

proof fn lemma_ns_fold_keeps(insts: Seq<InstanceView>, nss: Seq<Seq<char>>, labels: Seq<Seq<char>>)
    requires
        labels.len() <= u32::MAX,
        modules_distinct(insts),
        modules_below(insts, labels.len()),
    ensures
        modules_distinct(ns_fold(insts, nss, labels).0),
        modules_below(ns_fold(insts, nss, labels).0, labels.len()),
        forall|m: u32| has_module(insts, m) ==> #[trigger] has_module(ns_fold(insts, nss, labels).0, m),
    decreases nss.len(),
{
    if nss.len() > 0 {
        lemma_ns_fold_keeps(insts, nss.drop_last(), labels);
        let (cur, args) = ns_fold(insts, nss.drop_last(), labels);
        let ns = nss.last();
        lemma_last_label_bound(labels, ns);
        match last_label(labels, ns) {
            Some(dep) => {
                lemma_find_module(cur, dep as u32);
                match find_module(cur, dep as u32) {
                    Some(p) => {},
                    None => {
                        let next = cur.push((dep as u32, seq![]));
                        assert forall|a: int, b: int| 0 <= a < b < next.len() implies (#[trigger] next[a]).0 != (
                        #[trigger] next[b]).0 by {
                            if b < cur.len() {
                                assert(next[a] == cur[a] && next[b] == cur[b]);
                            } else {
                                assert(next[a] == cur[a]);
                            }
                        }
                        assert forall|a: int| 0 <= a < next.len() implies ((#[trigger] next[a]).0 as nat) < labels.len() by {
                            if a < cur.len() {
                                assert(next[a] == cur[a]);
                            }
                        }
                        assert forall|m: u32| has_module(insts, m) implies #[trigger] has_module(next, m) by {
                            assert(has_module(cur, m));
                            let a = choose|a: int| 0 <= a < cur.len() && (#[trigger] cur[a]).0 == m;
                            assert(next[a] == cur[a]);
                        }
                    },
                }
            },
            None => {},
        }
    }
}

/// Every input module is instantiated exactly once: the instances name
/// distinct modules, each one of the inputs, and every input has one.
pub proof fn lemma_each_module_instantiated_once(nss: Seq<Seq<Seq<char>>>, labels: Seq<Seq<char>>, k: int)
    requires
        nss.len() == labels.len(),
        labels.len() <= u32::MAX,
        0 <= k <= labels.len(),
    ensures
        modules_distinct(wire_upto(nss, labels, k)),
        modules_below(wire_upto(nss, labels, k), labels.len()),
        forall|i: u32| i < k ==> #[trigger] has_module(wire_upto(nss, labels, k), i),
    decreases k,
{
    if k > 0 {
        lemma_each_module_instantiated_once(nss, labels, k - 1);
        let prev = wire_upto(nss, labels, k - 1);
        lemma_ns_fold_keeps(prev, nss[k - 1], labels);
        let (after, args) = ns_fold(prev, nss[k - 1], labels);
        let i = (k - 1) as u32;
        lemma_find_module(after, i);
        let next = wire_upto(nss, labels, k);
        match find_module(after, i) {
            Some(p) => {
                assert(next == after.update(p, (i, args)));
                assert forall|a: int, b: int| 0 <= a < b < next.len() implies (#[trigger] next[a]).0 != (
                #[trigger] next[b]).0 by {
                    assert(next[a].0 == after[a].0 && next[b].0 == after[b].0);
                }
                assert forall|a: int| 0 <= a < next.len() implies ((#[trigger] next[a]).0 as nat) < labels.len() by {
                    assert(next[a].0 == after[a].0);
                }
                assert forall|m: u32| m < k implies #[trigger] has_module(next, m) by {
                    if m == i {
                        assert(next[p].0 == i);
                    } else {
                        assert(has_module(prev, m));
                        assert(has_module(after, m));
                        let a = choose|a: int| 0 <= a < after.len() && (#[trigger] after[a]).0 == m;
                        assert(next[a].0 == after[a].0);
                    }
                }
            },
            None => {
                assert(next == after.push((i, args)));
                assert forall|a: int, b: int| 0 <= a < b < next.len() implies (#[trigger] next[a]).0 != (
                #[trigger] next[b]).0 by {
                    if b < after.len() {
                        assert(next[a] == after[a] && next[b] == after[b]);
                    } else {
                        assert(next[a] == after[a]);
                    }
                }
                assert forall|a: int| 0 <= a < next.len() implies ((#[trigger] next[a]).0 as nat) < labels.len() by {
                    if a < after.len() {
                        assert(next[a] == after[a]);
                    }
                }
                assert forall|m: u32| m < k implies #[trigger] has_module(next, m) by {
                    if m == i {
                        assert(next[after.len() as int].0 == i);
                    } else {
                        assert(has_module(prev, m));
                        assert(has_module(after, m));
                        let a = choose|a: int| 0 <= a < after.len() && (#[trigger] after[a]).0 == m;
                        assert(next[a] == after[a]);
                    }
                }
            },
        }
    }
}

fn find_instance(insts: &Vec<CoreInstance>, m: u32) -> (r: Option<usize>)
    ensures
        match r {
            Some(p) => find_module(instances_view(insts@), m) == Some(p as int),
            None => find_module(instances_view(insts@), m) is None,
        },
{
    let ghost iv = instances_view(insts@);
    let mut k: usize = 0;
    while k < insts.len()
        invariant
            iv == instances_view(insts@),
            k <= insts.len(),
            forall|j: int| 0 <= j < k ==> (#[trigger] iv[j]).0 != m,
        decreases insts.len() - k,
    {
        if insts[k].module_idx == m {
            proof {
                lemma_find_module(iv, m);
                match find_module(iv, m) {
                    Some(p) => {
                        if p < k {
                            assert(iv[p].0 != m);
                        } else if p > k {
                            assert(iv[k as int].0 == m);
                        }
                    },
                    None => {
                        assert(iv[k as int].0 == m);
                    },
                }
            }
            return Some(k);
        }
        k += 1;
    }
    proof {
        lemma_find_module(iv, m);
        match find_module(iv, m) {
            Some(p) => {
                assert(iv[p].0 != m);
            },
            None => {},
        }
    }
    None
}

fn label_index(labels: &Vec<String>, ns: &String) -> (r: Option<usize>)
    ensures
        match r {
            Some(i) => last_label(names_view(labels@), ns@) == Some(i as int),
            None => last_label(names_view(labels@), ns@) is None,
        },
{
    let mut k: usize = labels.len();
    proof {
        assert(names_view(labels@).take(k as int) =~= names_view(labels@));
    }
    while k > 0
        invariant
            k <= labels.len(),
            last_label(names_view(labels@), ns@) == last_label(names_view(labels@).take(k as int), ns@),
        decreases k,
    {
        proof {
            assert(names_view(labels@).take(k as int).drop_last() =~= names_view(labels@).take(k - 1));
        }
        if labels[k - 1] == *ns {
            return Some(k - 1);
        }
        k -= 1;
    }
    None
}

/// Build instances from the import/export wiring: each module's namespaces
/// (`namespaces[i]`, in order) are matched to module labels; a module a label
/// names is instantiated the first time it is needed, and every module gets
/// its own instance with the arguments it needs.
pub fn wire_instances(labels: &Vec<String>, namespaces: &Vec<Vec<String>>) -> (r: Vec<CoreInstance>)
    requires
        namespaces.len() == labels.len(),
    ensures
        instances_view(r@) == wire_upto(
            namespaces@.map_values(|v: Vec<String>| names_view(v@)),
            names_view(labels@),
            labels.len() as int,
        ),
{
    let ghost nss = namespaces@.map_values(|v: Vec<String>| names_view(v@));
    let ghost lv = names_view(labels@);
    let mut insts: Vec<CoreInstance> = Vec::new();
    let mut i: usize = 0;
    while i < namespaces.len()
        invariant
            namespaces.len() == labels.len(),
            nss == namespaces@.map_values(|v: Vec<String>| names_view(v@)),
            lv == names_view(labels@),
            i <= namespaces.len(),
            instances_view(insts@) == wire_upto(nss, lv, i as int),
        decreases namespaces.len() - i,
    {
        let ghost start = instances_view(insts@);
        let nsv = &namespaces[i];
        let mut args: Vec<(String, u32)> = Vec::new();
        let mut k: usize = 0;
        while k < nsv.len()
            invariant
                nss == namespaces@.map_values(|v: Vec<String>| names_view(v@)),
                lv == names_view(labels@),
                i < namespaces.len(),
                nsv@ == namespaces@[i as int]@,
                k <= nsv.len(),
                (instances_view(insts@), args@.map_values(|a: (String, u32)| (a.0@, a.1))) == ns_fold(
                    start,
                    names_view(nsv@).take(k as int),
                    lv,
                ),
            decreases nsv.len() - k,
        {
            proof {
                assert(names_view(nsv@).take(k + 1).drop_last() =~= names_view(nsv@).take(k as int));
            }
            let ns = &nsv[k];
            let ghost old_insts = instances_view(insts@);
            let ghost old_args = args@.map_values(|a: (String, u32)| (a.0@, a.1));
            match label_index(labels, ns) {
                Some(dep) => {
                    let p = match find_instance(&insts, dep as u32) {
                        Some(p) => p,
                        None => {
                            let idx = insts.len();
                            insts.push(CoreInstance { module_idx: dep as u32, args: Vec::new() });
                            proof {
                                let e: Seq<(Seq<char>, u32)> = seq![];
                                assert(insts@[idx as int].args@.map_values(|a: (String, u32)| (a.0@, a.1)) =~= e);
                                assert(instances_view(insts@) =~= old_insts.push((dep as u32, e)));
                            }
                            idx
                        },
                    };
                    args.push((ns.clone(), p as u32));
                    proof {
                        assert(args@.map_values(|a: (String, u32)| (a.0@, a.1)) =~= old_args.push((ns@, p as u32)));
                    }
                },
                None => {},
            }
            k += 1;
        }
        proof {
            assert(names_view(nsv@).take(nsv.len() as int) =~= names_view(nsv@));
            assert(nss[i as int] == names_view(nsv@));
        }
        let ghost mid = instances_view(insts@);
        let ghost av = args@.map_values(|a: (String, u32)| (a.0@, a.1));
        proof {
            lemma_find_module(mid, i as u32);
        }
        match find_instance(&insts, i as u32) {
            Some(p) => {
                insts.set(p, CoreInstance { module_idx: i as u32, args });
                proof {
                    assert(instances_view(insts@) =~= mid.update(p as int, (i as u32, av)));
                }
            },
            None => {
                insts.push(CoreInstance { module_idx: i as u32, args });
                proof {
                    assert(instances_view(insts@) =~= mid.push((i as u32, av)));
                }
            },
        }
        i += 1;
    }
    insts
}

} // verus!
