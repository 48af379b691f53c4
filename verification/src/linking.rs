//! How the specializing merge links consumers to a shared library: which library
//! functions each consumer enters through its imports, which imports stay
//! imports of the merged module, and where each consumer import lands.

use vstd::prelude::*;
use vstd::wrapping::u32_specs::wrapping_add;

verus! {

/// Names and indices, with the names taken by their view.
pub open spec fn pairs_view(s: Seq<(String, u32)>) -> Seq<(Seq<char>, u32)> {
    s.map_values(|p: (String, u32)| (p.0@, p.1))
}

/// The position of the first entry named `name`.
pub open spec fn first_position(list: Seq<(Seq<char>, u32)>, name: Seq<char>) -> Option<int>
    decreases list.len(),
{
    if list.len() == 0 {
        None
    } else {
        match first_position(list.drop_last(), name) {
            Some(i) => Some(i),
            None => if list.last().0 == name {
                Some(list.len() - 1)
            } else {
                None
            },
        }
    }
}

pub proof fn lemma_first_position(list: Seq<(Seq<char>, u32)>, name: Seq<char>)
    ensures
        first_position(list, name) matches Some(p) ==> {
            &&& 0 <= p < list.len()
            &&& list[p].0 == name
            &&& forall|k: int| 0 <= k < p ==> (#[trigger] list[k]).0 != name
        },
        first_position(list, name) is None ==> forall|k: int| 0 <= k < list.len() ==> (#[trigger] list[k]).0 != name,
    decreases list.len(),
{
    if list.len() > 0 {
        let l = list.drop_last();
        lemma_first_position(l, name);
        assert forall|k: int| 0 <= k < list.len() - 1 implies #[trigger] list[k] == l[k] by {}
        match first_position(l, name) {
            Some(i) => {},
            None => {
                if list.last().0 != name {
                    assert forall|k: int| 0 <= k < list.len() implies (#[trigger] list[k]).0 != name by {
                        if k < list.len() - 1 {
                            assert(list[k] == l[k]);
                        }
                    }
                }
            },
        }
    }
}

/// The first entry named `name` is the one `first_position` finds.
pub proof fn lemma_first_position_of(list: Seq<(Seq<char>, u32)>, name: Seq<char>, p: int)
    requires
        0 <= p < list.len(),
        list[p].0 == name,
        forall|k: int| 0 <= k < p ==> (#[trigger] list[k]).0 != name,
    ensures
        first_position(list, name) == Some(p),
    decreases list.len(),
{
    lemma_first_position(list.drop_last(), name);
    if p < list.len() - 1 {
        assert(list.drop_last()[p] == list[p]);
        assert forall|k: int| 0 <= k < p implies (#[trigger] list.drop_last()[k]).0 != name by {
            assert(list.drop_last()[k] == list[k]);
        }
        lemma_first_position_of(list.drop_last(), name, p);
    } else {
        match first_position(list.drop_last(), name) {
            Some(i) => {
                assert(list.drop_last()[i] == list[i]);
            },
            None => {},
        }
    }
}

/// The position of the first entry of `list` named `name`.
pub fn find_named(list: &Vec<(String, u32)>, name: &String) -> (r: Option<usize>)
    ensures
        match r {
            Some(p) => first_position(pairs_view(list@), name@) == Some(p as int),
            None => first_position(pairs_view(list@), name@) is None,
        },
{
    let ghost pv = pairs_view(list@);
    let mut k: usize = 0;
    while k < list.len()
        invariant
            pv == pairs_view(list@),
            k <= list.len(),
            forall|j: int| 0 <= j < k ==> (#[trigger] pv[j]).0 != name@,
        decreases list.len() - k,
    {
        if list[k].0 == *name {
            proof {
                lemma_first_position_of(pv, name@, k as int);
            }
            return Some(k);
        }
        k += 1;
    }
    proof {
        lemma_first_position(pv, name@);
        match first_position(pv, name@) {
            Some(p) => {
                assert(pv[p].0 != name@);
            },
            None => {},
        }
    }
    None
}

/// A function import of a consumer: its module and field names and its type.
pub struct FuncImport {
    pub module: String,
    pub name: String,
    pub ty: u32,
}

/// The library functions a consumer enters: for each of its function imports,
/// in order, the first library function export of the same name, if any.
pub open spec fn entries_spec(imports: Seq<FuncImport>, lib: Seq<(Seq<char>, u32)>) -> Seq<u32>
    decreases imports.len(),
{
    if imports.len() == 0 {
        seq![]
    } else {
        let rest = entries_spec(imports.drop_last(), lib);
        match first_position(lib, imports.last().name@) {
            Some(p) => rest.push(lib[p].1),
            None => rest,
        }
    }
}

pub proof fn lemma_entries_contain(imports: Seq<FuncImport>, lib: Seq<(Seq<char>, u32)>, i: int, p: int)
    requires
        0 <= i < imports.len(),
        first_position(lib, imports[i].name@) == Some(p),
    ensures
        entries_spec(imports, lib).contains(lib[p].1),
    decreases imports.len(),
{
    if i < imports.len() - 1 {
        assert(imports.drop_last()[i] == imports[i]);
        lemma_entries_contain(imports.drop_last(), lib, i, p);
        let rest = entries_spec(imports.drop_last(), lib);
        let j = choose|j: int| 0 <= j < rest.len() && rest[j] == lib[p].1;
        match first_position(lib, imports.last().name@) {
            Some(q) => {
                assert(rest.push(lib[q].1)[j] == lib[p].1);
            },
            None => {},
        }
    } else {
        let rest = entries_spec(imports.drop_last(), lib);
        assert(rest.push(lib[p].1)[rest.len() as int] == lib[p].1);
    }
}

/// The library functions a consumer enters through its imports.
pub fn entry_functions(imports: &Vec<FuncImport>, lib: &Vec<(String, u32)>) -> (r: Vec<u32>)
    ensures
        r@ == entries_spec(imports@, pairs_view(lib@)),
{
    let mut out: Vec<u32> = Vec::new();
    let mut i: usize = 0;
    while i < imports.len()
        invariant
            i <= imports.len(),
            out@ == entries_spec(imports@.take(i as int), pairs_view(lib@)),
        decreases imports.len() - i,
    {
        proof {
            assert(imports@.take(i + 1).drop_last() =~= imports@.take(i as int));
        }
        match find_named(lib, &imports[i].name) {
            Some(p) => {
                proof {
                    lemma_first_position(pairs_view(lib@), imports@[i as int].name@);
                }
                out.push(lib[p].1);
            },
            None => {},
        }
        i += 1;
    }
    proof {
        assert(imports@.take(imports.len() as int) =~= imports@);
    }
    out
}

/// The library function exports whose function touches state, in order.
pub open spec fn st_filter(lib: Seq<(Seq<char>, u32)>, st: Seq<bool>) -> Seq<(Seq<char>, u32)>
    decreases lib.len(),
{
    if lib.len() == 0 {
        seq![]
    } else {
        let rest = st_filter(lib.drop_last(), st);
        let a = lib.last();
        if a.1 < st.len() && st[a.1 as int] {
            rest.push(a)
        } else {
            rest
        }
    }
}

proof fn lemma_st_filter_members(lib: Seq<(Seq<char>, u32)>, st: Seq<bool>, e: int)
    requires
        0 <= e < st_filter(lib, st).len(),
    ensures
        lib.contains(st_filter(lib, st)[e]),
    decreases lib.len(),
{
    let rest = st_filter(lib.drop_last(), st);
    if e < rest.len() {
        lemma_st_filter_members(lib.drop_last(), st, e);
        let k = choose|k: int| 0 <= k < lib.drop_last().len() && lib.drop_last()[k] == rest[e];
        assert(lib[k] == lib.drop_last()[k]);
    } else {
        assert(lib[lib.len() - 1] == lib.last());
    }
}

/// The first state-touching export named like the first function export of that
/// name is that export, when it touches state.
pub proof fn lemma_st_filter_first(lib: Seq<(Seq<char>, u32)>, st: Seq<bool>, x: Seq<char>, p: int) -> (e: int)
    requires
        first_position(lib, x) == Some(p),
        lib[p].1 < st.len(),
        st[lib[p].1 as int],
    ensures
        first_position(st_filter(lib, st), x) == Some(e),
        0 <= e < st_filter(lib, st).len(),
        st_filter(lib, st)[e] == lib[p],
    decreases lib.len(),
{
    lemma_first_position(lib, x);
    let l = lib.drop_last();
    let rest = st_filter(l, st);
    lemma_first_position(l, x);
    match first_position(l, x) {
        Some(q) => {
            assert(p == q);
            assert(l[q] == lib[q]);
            let e = lemma_st_filter_first(l, st, x, q);
            lemma_first_position(rest, x);
            if lib.last().1 < st.len() && st[lib.last().1 as int] {
                assert(rest.push(lib.last()).drop_last() =~= rest);
                assert(rest.push(lib.last())[e] == rest[e]);
            }
            e
        },
        None => {
            lemma_first_position(l, x);
            lemma_first_position(rest, x);
            match first_position(rest, x) {
                Some(j) => {
                    lemma_st_filter_members(l, st, j);
                    let k = choose|k: int| 0 <= k < l.len() && l[k] == rest[j];
                    assert(l[k].0 != x);
                },
                None => {},
            }
            assert(rest.push(lib.last()).drop_last() =~= rest);
            rest.len() as int
        },
    }
}

/// The library's function exports whose function touches state.
pub fn state_touching_exports(lib: &Vec<(String, u32)>, st: &Vec<bool>) -> (r: Vec<(String, u32)>)
    ensures
        pairs_view(r@) == st_filter(pairs_view(lib@), st@),
{
    let mut out: Vec<(String, u32)> = Vec::new();
    let mut i: usize = 0;
    while i < lib.len()
        invariant
            i <= lib.len(),
            pairs_view(out@) == st_filter(pairs_view(lib@).take(i as int), st@),
        decreases lib.len() - i,
    {
        proof {
            assert(pairs_view(lib@).take(i + 1).drop_last() =~= pairs_view(lib@).take(i as int));
        }
        let f = lib[i].1;
        if (f as usize) < st.len() && st[f as usize] {
            let ghost before = out@;
            out.push((lib[i].0.clone(), f));
            proof {
                assert(pairs_view(out@) =~= pairs_view(before).push((lib@[i as int].0@, f)));
            }
        }
        i += 1;
    }
    proof {
        assert(pairs_view(lib@).take(lib.len() as int) =~= pairs_view(lib@));
    }
    out
}

/// An import of a consumer that no library function export answers: it stays an
/// import of the merged module, with the type it has in the first consumer that
/// imports it.
pub struct UnresolvedImport {
    pub module: String,
    pub name: String,
    pub consumer: usize,
    pub ty: u32,
}

pub open spec fn key_matches(u: UnresolvedImport, module: Seq<char>, name: Seq<char>) -> bool {
    u.module@ == module && u.name@ == name
}

/// The position of the first kept import with this module and field name.
pub open spec fn key_position(keys: Seq<UnresolvedImport>, module: Seq<char>, name: Seq<char>) -> Option<int>
    decreases keys.len(),
{
    if keys.len() == 0 {
        None
    } else {
        match key_position(keys.drop_last(), module, name) {
            Some(i) => Some(i),
            None => if key_matches(keys.last(), module, name) {
                Some(keys.len() - 1)
            } else {
                None
            },
        }
    }
}

pub proof fn lemma_key_position(keys: Seq<UnresolvedImport>, module: Seq<char>, name: Seq<char>)
    ensures
        key_position(keys, module, name) matches Some(p) ==> 0 <= p < keys.len() && key_matches(keys[p], module, name)
            && forall|k: int| 0 <= k < p ==> !key_matches(#[trigger] keys[k], module, name),
        key_position(keys, module, name) is None ==> forall|k: int|
            0 <= k < keys.len() ==> !key_matches(#[trigger] keys[k], module, name),
    decreases keys.len(),
{
    if keys.len() > 0 {
        let l = keys.drop_last();
        lemma_key_position(l, module, name);
        assert forall|k: int| 0 <= k < keys.len() - 1 implies #[trigger] keys[k] == l[k] by {}
        match key_position(l, module, name) {
            Some(i) => {},
            None => {
                if !key_matches(keys.last(), module, name) {
                    assert forall|k: int| 0 <= k < keys.len() implies !key_matches(#[trigger] keys[k], module, name) by {
                        if k < keys.len() - 1 {
                            assert(keys[k] == l[k]);
                        }
                    }
                }
            },
        }
    }
}

proof fn lemma_key_position_of(keys: Seq<UnresolvedImport>, module: Seq<char>, name: Seq<char>, p: int)
    requires
        0 <= p < keys.len(),
        key_matches(keys[p], module, name),
        forall|k: int| 0 <= k < p ==> !key_matches(#[trigger] keys[k], module, name),
    ensures
        key_position(keys, module, name) == Some(p),
    decreases keys.len(),
{
    lemma_key_position(keys.drop_last(), module, name);
    if p < keys.len() - 1 {
        assert(keys.drop_last()[p] == keys[p]);
        assert forall|k: int| 0 <= k < p implies !key_matches(#[trigger] keys.drop_last()[k], module, name) by {
            assert(keys.drop_last()[k] == keys[k]);
        }
        lemma_key_position_of(keys.drop_last(), module, name, p);
    } else {
        match key_position(keys.drop_last(), module, name) {
            Some(i) => {
                assert(keys.drop_last()[i] == keys[i]);
            },
            None => {},
        }
    }
}

/// The position of the first kept import with this module and field name.
pub fn find_key(keys: &Vec<UnresolvedImport>, module: &String, name: &String) -> (r: Option<usize>)
    ensures
        match r {
            Some(p) => key_position(keys@, module@, name@) == Some(p as int),
            None => key_position(keys@, module@, name@) is None,
        },
{
    let mut k: usize = 0;
    while k < keys.len()
        invariant
            k <= keys.len(),
            forall|j: int| 0 <= j < k ==> !key_matches(#[trigger] keys@[j], module@, name@),
        decreases keys.len() - k,
    {
        if keys[k].module == *module && keys[k].name == *name {
            proof {
                lemma_key_position_of(keys@, module@, name@, k as int);
            }
            return Some(k);
        }
        k += 1;
    }
    proof {
        lemma_key_position(keys@, module@, name@);
        match key_position(keys@, module@, name@) {
            Some(p) => {
                assert(!key_matches(keys@[p], module@, name@));
            },
            None => {},
        }
    }
    None
}

/// Consumer `c`'s imports added to the kept ones: those that no library function
/// export answers by name and whose module and field are not kept yet.
pub open spec fn unresolved_step(
    keys: Seq<UnresolvedImport>,
    imports: Seq<FuncImport>,
    c: int,
    lib: Seq<(Seq<char>, u32)>,
) -> Seq<UnresolvedImport>
    decreases imports.len(),
{
    if imports.len() == 0 {
        keys
    } else {
        let k = unresolved_step(keys, imports.drop_last(), c, lib);
        let imp = imports.last();
        if first_position(lib, imp.name@) is None && key_position(k, imp.module@, imp.name@) is None {
            k.push(UnresolvedImport { module: imp.module, name: imp.name, consumer: c as usize, ty: imp.ty })
        } else {
            k
        }
    }
}

/// Imports that stay imports are kept once per module and field name.
pub proof fn lemma_unresolved_distinct(consumers: Seq<Seq<FuncImport>>, c: int, lib: Seq<(Seq<char>, u32)>)
    requires
        0 <= c <= consumers.len(),
    ensures
        forall|i: int, j: int|
            0 <= i < j < unresolved_upto(consumers, c, lib).len() ==> !key_matches(
                #[trigger] unresolved_upto(consumers, c, lib)[j],
                (#[trigger] unresolved_upto(consumers, c, lib)[i]).module@,
                unresolved_upto(consumers, c, lib)[i].name@,
            ),
    decreases c,
{
    if c > 0 {
        lemma_unresolved_distinct(consumers, c - 1, lib);
        lemma_step_distinct(unresolved_upto(consumers, c - 1, lib), consumers[c - 1], c - 1, lib);
    }
}

proof fn lemma_step_distinct(keys: Seq<UnresolvedImport>, imports: Seq<FuncImport>, c: int, lib: Seq<(Seq<char>, u32)>)
    requires
        forall|i: int, j: int|
            0 <= i < j < keys.len() ==> !key_matches(#[trigger] keys[j], (#[trigger] keys[i]).module@, keys[i].name@),
    ensures
        forall|i: int, j: int|
            0 <= i < j < unresolved_step(keys, imports, c, lib).len() ==> !key_matches(
                #[trigger] unresolved_step(keys, imports, c, lib)[j],
                (#[trigger] unresolved_step(keys, imports, c, lib)[i]).module@,
                unresolved_step(keys, imports, c, lib)[i].name@,
            ),
    decreases imports.len(),
{
    if imports.len() > 0 {
        lemma_step_distinct(keys, imports.drop_last(), c, lib);
        let k = unresolved_step(keys, imports.drop_last(), c, lib);
        let imp = imports.last();
        if first_position(lib, imp.name@) is None && key_position(k, imp.module@, imp.name@) is None {
            lemma_key_position(k, imp.module@, imp.name@);
            let u = UnresolvedImport { module: imp.module, name: imp.name, consumer: c as usize, ty: imp.ty };
            let t = k.push(u);
            assert forall|i: int, j: int| 0 <= i < j < t.len() implies !key_matches(
                #[trigger] t[j],
                (#[trigger] t[i]).module@,
                t[i].name@,
            ) by {
                assert(t[i] == k[i]);
                if j < k.len() {
                    assert(t[j] == k[j]);
                } else {
                    assert(!key_matches(k[i], imp.module@, imp.name@));
                }
            }
        }
    }
}

/// The imports kept by the consumers before position `c`, in order.
pub open spec fn unresolved_upto(consumers: Seq<Seq<FuncImport>>, c: int, lib: Seq<(Seq<char>, u32)>) -> Seq<UnresolvedImport>
    decreases c,
{
    if c <= 0 {
        seq![]
    } else {
        unresolved_step(unresolved_upto(consumers, c - 1, lib), consumers[c - 1], c - 1, lib)
    }
}

pub open spec fn imports_view(consumers: Seq<Vec<FuncImport>>) -> Seq<Seq<FuncImport>> {
    consumers.map_values(|v: Vec<FuncImport>| v@)
}

/// The consumer imports that stay imports of the merged module: one per module
/// and field name, in the order the consumers import them.
pub fn collect_unresolved(consumers: &Vec<Vec<FuncImport>>, lib: &Vec<(String, u32)>) -> (r: Vec<UnresolvedImport>)
    ensures
        r@ == unresolved_upto(imports_view(consumers@), consumers.len() as int, pairs_view(lib@)),
{
    let ghost cv = imports_view(consumers@);
    let mut keys: Vec<UnresolvedImport> = Vec::new();
    let mut c: usize = 0;
    while c < consumers.len()
        invariant
            cv == imports_view(consumers@),
            c <= consumers.len(),
            keys@ == unresolved_upto(cv, c as int, pairs_view(lib@)),
        decreases consumers.len() - c,
    {
        let imps = &consumers[c];
        let ghost start = keys@;
        let mut i: usize = 0;
        while i < imps.len()
            invariant
                cv == imports_view(consumers@),
                c < consumers.len(),
                imps@ == cv[c as int],
                start == unresolved_upto(cv, c as int, pairs_view(lib@)),
                i <= imps.len(),
                keys@ == unresolved_step(start, imps@.take(i as int), c as int, pairs_view(lib@)),
            decreases imps.len() - i,
        {
            proof {
                assert(imps@.take(i + 1).drop_last() =~= imps@.take(i as int));
            }
            let imp = &imps[i];
            let exported = find_named(lib, &imp.name);
            let kept = find_key(&keys, &imp.module, &imp.name);
            if exported.is_none() && kept.is_none() {
                keys.push(UnresolvedImport { module: imp.module.clone(), name: imp.name.clone(), consumer: c, ty: imp.ty });
            }
            i += 1;
        }
        proof {
            assert(imps@.take(imps.len() as int) =~= imps@);
        }
        c += 1;
    }
    keys
}

/// Shell wrapper `e` of consumer `c`: the shells come in rows of one per
/// consumer, one row per state-touching export.
pub open spec fn shell_index(shell_base: u32, n: u32, e: int, c: int) -> int {
    shell_base + e * n + c
}

/// Where consumer `c`'s import lands: at its own shell wrapper when it names a
/// state-touching export; at the shared library function when it names another
/// function export; else at the merged module's import of the same name.
pub open spec fn import_target_spec(
    imp: FuncImport,
    c: int,
    st_list: Seq<(Seq<char>, u32)>,
    lib: Seq<(Seq<char>, u32)>,
    keys: Seq<UnresolvedImport>,
    fshift: u32,
    shell_base: u32,
    n: u32,
) -> Option<u32> {
    match first_position(st_list, imp.name@) {
        Some(e) => Some(shell_index(shell_base, n, e, c) as u32),
        None => match first_position(lib, imp.name@) {
            Some(p) => Some(wrapping_add(lib[p].1, fshift)),
            None => match key_position(keys, imp.module@, imp.name@) {
                Some(k) => Some(k as u32),
                None => None,
            },
        },
    }
}

/// Where each of consumer `c`'s function imports lands.
pub fn import_remap(
    imports: &Vec<FuncImport>,
    c: u32,
    st_list: &Vec<(String, u32)>,
    lib: &Vec<(String, u32)>,
    keys: &Vec<UnresolvedImport>,
    fshift: u32,
    shell_base: u32,
    n: u32,
) -> (r: Vec<Option<u32>>)
    requires
        c < n,
        shell_base + st_list.len() * n <= u32::MAX,
        keys.len() <= u32::MAX,
    ensures
        r.len() == imports.len(),
        forall|i: int|
            0 <= i < imports.len() ==> (#[trigger] r@[i]) == import_target_spec(
                imports@[i],
                c as int,
                pairs_view(st_list@),
                pairs_view(lib@),
                keys@,
                fshift,
                shell_base,
                n,
            ),
{
    let mut out: Vec<Option<u32>> = Vec::new();
    let mut i: usize = 0;
    while i < imports.len()
        invariant
            c < n,
            shell_base + st_list.len() * n <= u32::MAX,
            keys.len() <= u32::MAX,
            i <= imports.len(),
            out.len() == i,
            forall|j: int|
                0 <= j < i ==> (#[trigger] out@[j]) == import_target_spec(
                    imports@[j],
                    c as int,
                    pairs_view(st_list@),
                    pairs_view(lib@),
                    keys@,
                    fshift,
                    shell_base,
                    n,
                ),
        decreases imports.len() - i,
    {
        let imp = &imports[i];
        let t = match find_named(st_list, &imp.name) {
            Some(e) => {
                proof {
                    lemma_first_position(pairs_view(st_list@), imp.name@);
                    assert(e * n + c < st_list.len() * n) by (nonlinear_arith)
                        requires
                            e < st_list.len(),
                            c < n,
                    ;
                }
                let row = (e as u64) * (n as u64);
                Some((shell_base as u64 + row + c as u64) as u32)
            },
            None => match find_named(lib, &imp.name) {
                Some(p) => {
                    proof {
                        lemma_first_position(pairs_view(lib@), imp.name@);
                    }
                    Some(lib[p].1.wrapping_add(fshift))
                },
                None => match find_key(keys, &imp.module, &imp.name) {
                    Some(k) => {
                        proof {
                            lemma_key_position(keys@, imp.module@, imp.name@);
                        }
                        Some(k as u32)
                    },
                    None => None,
                },
            },
        };
        out.push(t);
        i += 1;
    }
    out
}

} // verus!
