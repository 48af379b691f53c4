//! The call graph of a library module: which functions touch instance state
//! (memory or mutable globals) directly or through the functions they call,
//! and which of those a set of entry functions can reach.

use vstd::prelude::*;
use crate::counting::{count_true, lemma_count_true_bound, lemma_count_true_set, vec_contains};

verus! {

/// `f` is a defined function (index `ni` and up) whose body calls `c`.
/// `callees[k]` lists the functions called by defined function `ni + k`.
pub open spec fn calls(callees: Seq<Vec<u32>>, ni: u32, f: u32, c: u32) -> bool {
    &&& ni <= f
    &&& f - ni < callees.len()
    &&& callees[f - ni]@.contains(c)
}

/// `p` is a non-empty sequence of functions each of which calls the next.
pub open spec fn is_call_path(callees: Seq<Vec<u32>>, ni: u32, p: Seq<u32>) -> bool {
    &&& p.len() > 0
    &&& forall|i: int| 0 <= i < p.len() - 1 ==> calls(callees, ni, #[trigger] p[i], p[i + 1])
}

/// `f` is a defined function whose own body accesses memory or a mutable global.
pub open spec fn is_direct(direct: Seq<bool>, ni: u32, f: u32) -> bool {
    &&& ni <= f
    &&& f - ni < direct.len()
    &&& direct[f - ni]
}

/// `f` touches instance state: some chain of calls from `f` ends in a function
/// that accesses it directly.
pub open spec fn touches(direct: Seq<bool>, callees: Seq<Vec<u32>>, ni: u32, f: u32) -> bool {
    exists|p: Seq<u32>|
        #![trigger is_call_path(callees, ni, p)]
        is_call_path(callees, ni, p) && p[0] == f && is_direct(direct, ni, p.last())
}

/// Every function whose callee (within the first `st.len()` indices) is marked is marked too.
pub open spec fn closed_under_callers(st: Seq<bool>, callees: Seq<Vec<u32>>, ni: u32) -> bool {
    forall|f: u32, c: u32|
        #![trigger calls(callees, ni, f, c), st[f as int], st[c as int]]
        f < st.len() && c < st.len() && calls(callees, ni, f, c) && st[c as int] ==> st[f as int]
}

proof fn lemma_closed_marks_path(
    direct: Seq<bool>,
    callees: Seq<Vec<u32>>,
    ni: u32,
    st: Seq<bool>,
    p: Seq<u32>,
    i: int,
)
    requires
        direct.len() == callees.len(),
        st.len() == ni + callees.len(),
        closed_under_callers(st, callees, ni),
        forall|f: u32| f < st.len() && is_direct(direct, ni, f) ==> st[f as int],
        is_call_path(callees, ni, p),
        is_direct(direct, ni, p.last()),
        0 <= i < p.len(),
    ensures
        p[i] < st.len(),
        st[p[i] as int],
    decreases p.len() - i,
{
    if i < p.len() - 1 {
        lemma_closed_marks_path(direct, callees, ni, st, p, i + 1);
        assert(calls(callees, ni, p[i], p[i + 1]));
    }
}

/// A direct function touches state through the one-element path.
proof fn lemma_direct_touches(direct: Seq<bool>, callees: Seq<Vec<u32>>, ni: u32, f: u32)
    requires
        is_direct(direct, ni, f),
    ensures
        touches(direct, callees, ni, f),
{
    let p = seq![f];
    assert(is_call_path(callees, ni, p));
}

/// A caller of a state-touching function touches state.
proof fn lemma_caller_touches(direct: Seq<bool>, callees: Seq<Vec<u32>>, ni: u32, f: u32, c: u32)
    requires
        calls(callees, ni, f, c),
        touches(direct, callees, ni, c),
    ensures
        touches(direct, callees, ni, f),
{
    let p = choose|p: Seq<u32>|
        #![trigger is_call_path(callees, ni, p)]
        is_call_path(callees, ni, p) && p[0] == c && is_direct(direct, ni, p.last());
    let q = seq![f] + p;
    assert forall|i: int| 0 <= i < q.len() - 1 implies calls(callees, ni, #[trigger] q[i], q[i + 1]) by {
        if i > 0 {
            assert(q[i] == p[i - 1]);
            assert(q[i + 1] == p[i]);
            assert(calls(callees, ni, p[i - 1], p[(i - 1) + 1]));
        }
    }
    assert(q.last() == p.last());
    assert(is_call_path(callees, ni, q));
}

/// Marks function `fi` when one of the functions in `cs` is marked; says whether it did.
fn mark_if_callee_marked(st: &mut Vec<bool>, cs: &Vec<u32>, fi: usize) -> (marked: bool)
    requires
        fi < old(st).len(),
    ensures
        marked ==> final(st)@ == old(st)@.update(fi as int, true),
        marked ==> exists|j: int|
            0 <= j < cs@.len() && (cs@[j] as int) < old(st)@.len() && old(st)@[cs@[j] as int],
        !marked ==> final(st)@ == old(st)@,
        !marked ==> forall|j: int|
            0 <= j < cs@.len() ==> !((cs@[j] as int) < old(st)@.len() && old(st)@[cs@[j] as int]),
{
    let mut k: usize = 0;
    while k < cs.len()
        invariant
            st@ == old(st)@,
            fi < st.len(),
            k <= cs.len(),
            forall|j: int| 0 <= j < k ==> !((cs@[j] as int) < st@.len() && st@[cs@[j] as int]),
        decreases cs.len() - k,
    {
        let c = cs[k];
        if (c as usize) < st.len() && st[c as usize] {
            st.set(fi, true);
            return true;
        }
        k += 1;
    }
    false
}

/// Marks every function that touches instance state: starting from the functions
/// that access it directly, marks callers of marked functions until nothing changes.
///
/// `direct[k]` and `callees[k]` describe defined function `ni + k`; the result has
/// one flag per function index, imported ones first.
pub fn close_state_touching(direct: &Vec<bool>, callees: &Vec<Vec<u32>>, ni: u32) -> (st: Vec<bool>)
    requires
        direct.len() == callees.len(),
        ni + callees.len() <= u32::MAX,
    ensures
        st.len() == ni + callees.len(),
        forall|f: u32| f < st.len() ==> (st@[f as int] <==> touches(direct@, callees@, ni, f)),
{
    let nf: usize = ni as usize + callees.len();
    let mut st: Vec<bool> = Vec::new();
    let mut i: usize = 0;
    while i < nf
        invariant
            nf == ni + callees.len(),
            nf <= u32::MAX,
            direct.len() == callees.len(),
            i <= nf,
            st.len() == i,
            forall|j: int| 0 <= j < i ==> st@[j] == is_direct(direct@, ni, j as u32),
        decreases nf - i,
    {
        let b = if i >= ni as usize {
            direct[i - ni as usize]
        } else {
            false
        };
        st.push(b);
        i += 1;
    }
    proof {
        assert forall|f: u32| f < nf && st@[f as int] implies touches(direct@, callees@, ni, f) by {
            lemma_direct_touches(direct@, callees@, ni, f);
        }
    }
    let mut changed = true;
    while changed
        invariant
            nf == ni + callees.len(),
            nf <= u32::MAX,
            direct.len() == callees.len(),
            st.len() == nf,
            forall|f: u32| f < nf && #[trigger] st@[f as int] ==> touches(direct@, callees@, ni, f),
            forall|f: u32| f < nf && is_direct(direct@, ni, f) ==> #[trigger] st@[f as int],
            !changed ==> closed_under_callers(st@, callees@, ni),
        decreases 2 * (nf - count_true(st@)) + if changed {
            1int
        } else {
            0int
        },
    {
        let ghost before = st@;
        proof {
            lemma_count_true_bound(st@);
        }
        changed = false;
        let mut fi: usize = 0;
        while fi < nf
            invariant
                nf == ni + callees.len(),
                nf <= u32::MAX,
                direct.len() == callees.len(),
                before.len() == nf,
                st.len() == nf,
                fi <= nf,
                forall|f: u32| f < nf && #[trigger] st@[f as int] ==> touches(direct@, callees@, ni, f),
                forall|f: u32| f < nf && is_direct(direct@, ni, f) ==> #[trigger] st@[f as int],
                count_true(st@) >= count_true(before),
                changed ==> count_true(st@) > count_true(before),
                !changed ==> st@ == before,
                !changed ==> forall|f: u32, c: u32|
                    #![trigger calls(callees@, ni, f, c), st@[f as int], st@[c as int]]
                    f < fi && c < nf && calls(callees@, ni, f, c) && st@[c as int] ==> st@[f as int],
            decreases nf - fi,
        {
            let ghost fu = fi as u32;
            let ghost st0 = st@;
            if !st[fi] && fi >= ni as usize {
                let cs = &callees[fi - ni as usize];
                let marked = mark_if_callee_marked(&mut st, cs, fi);
                proof {
                    if marked {
                        let j = choose|j: int|
                            0 <= j < cs@.len() && (cs@[j] as int) < nf && st0[cs@[j] as int];
                        let c = cs@[j];
                        assert(cs@.contains(c));
                        assert(calls(callees@, ni, fu, c));
                        lemma_caller_touches(direct@, callees@, ni, fu, c);
                        lemma_count_true_set(st0, fi as int);
                        assert forall|f: u32| f < nf && is_direct(direct@, ni, f) implies #[trigger] st@[f as int] by {
                            assert(st0[f as int]);
                        }
                    }
                }
                if marked {
                    changed = true;
                }
            }
            proof {
                if !changed {
                    assert forall|f: u32, c: u32|
                        #![trigger calls(callees@, ni, f, c), st@[f as int], st@[c as int]]
                        f < fi + 1 && c < nf && calls(callees@, ni, f, c) && st@[c as int] implies st@[f as int] by {
                        if f == fu && !st@[f as int] {
                            let cs = callees@[fi - ni];
                            let j = choose|j: int| 0 <= j < cs@.len() && cs@[j] == c;
                            assert(!((cs@[j] as int) < nf && st@[cs@[j] as int]));
                        }
                    }
                }
            }
            fi += 1;
        }
        proof {
            lemma_count_true_bound(st@);
        }
    }
    proof {
        assert forall|f: u32| f < nf implies (st@[f as int] <==> touches(direct@, callees@, ni, f)) by {
            if touches(direct@, callees@, ni, f) {
                let p = choose|p: Seq<u32>|
                    #![trigger is_call_path(callees@, ni, p)]
                    is_call_path(callees@, ni, p) && p[0] == f && is_direct(direct@, ni, p.last());
                lemma_closed_marks_path(direct@, callees@, ni, st@, p, 0);
            }
        }
    }
    st
}

/// `p` is a call path whose functions after the first all touch instance state.
pub open spec fn is_touching_walk(st: Seq<bool>, callees: Seq<Vec<u32>>, ni: u32, p: Seq<u32>) -> bool {
    &&& is_call_path(callees, ni, p)
    &&& forall|i: int| 1 <= i < p.len() ==> (#[trigger] p[i] as int) < st.len() && st[p[i] as int]
}

/// `v` is one of `starts`, or a state-touching function that one of them
/// reaches through calls of state-touching functions.
pub open spec fn walk_reachable(
    st: Seq<bool>,
    callees: Seq<Vec<u32>>,
    ni: u32,
    starts: Seq<u32>,
    v: u32,
) -> bool {
    exists|p: Seq<u32>|
        #![trigger is_touching_walk(st, callees, ni, p)]
        is_touching_walk(st, callees, ni, p) && starts.contains(p[0]) && p.last() == v
}

/// `v` touches state, and is one of `starts` or reached from one of them
/// through calls of state-touching functions (a pure start is left out, but
/// the state-touching functions it calls are not).
pub open spec fn reachable_from(
    st: Seq<bool>,
    callees: Seq<Vec<u32>>,
    ni: u32,
    starts: Seq<u32>,
    v: u32,
) -> bool {
    &&& walk_reachable(st, callees, ni, starts, v)
    &&& (v as int) < st.len()
    &&& st[v as int]
}

pub proof fn lemma_start_reachable(st: Seq<bool>, callees: Seq<Vec<u32>>, ni: u32, starts: Seq<u32>, s: u32)
    requires
        starts.contains(s),
        (s as int) < st.len(),
        st[s as int],
    ensures
        reachable_from(st, callees, ni, starts, s),
{
    lemma_start_walk(st, callees, ni, starts, s);
}

proof fn lemma_start_walk(st: Seq<bool>, callees: Seq<Vec<u32>>, ni: u32, starts: Seq<u32>, s: u32)
    requires
        starts.contains(s),
    ensures
        walk_reachable(st, callees, ni, starts, s),
{
    let p = seq![s];
    assert(is_touching_walk(st, callees, ni, p));
}

proof fn lemma_extend_reachable(
    st: Seq<bool>,
    callees: Seq<Vec<u32>>,
    ni: u32,
    starts: Seq<u32>,
    f: u32,
    c: u32,
)
    requires
        walk_reachable(st, callees, ni, starts, f),
        calls(callees, ni, f, c),
        (c as int) < st.len(),
        st[c as int],
    ensures
        walk_reachable(st, callees, ni, starts, c),
{
    let p = choose|p: Seq<u32>|
        #![trigger is_touching_walk(st, callees, ni, p)]
        is_touching_walk(st, callees, ni, p) && starts.contains(p[0]) && p.last() == f;
    let q = p.push(c);
    assert forall|i: int| 0 <= i < q.len() - 1 implies calls(callees, ni, #[trigger] q[i], q[i + 1]) by {
        if i < p.len() - 1 {
            assert(q[i] == p[i] && q[i + 1] == p[i + 1]);
        }
    }
    assert forall|i: int| 1 <= i < q.len() implies (#[trigger] q[i] as int) < st.len() && st[q[i] as int] by {
        if i < p.len() {
            assert(q[i] == p[i]);
        }
    }
    assert(is_touching_walk(st, callees, ni, q));
}

/// Every function of a walk from a visited function is visited, when the visited
/// functions hold all their state-touching callees.
proof fn lemma_closed_visits_walk(
    st: Seq<bool>,
    callees: Seq<Vec<u32>>,
    ni: u32,
    visited: Seq<u32>,
    p: Seq<u32>,
    i: int,
)
    requires
        forall|x: u32, c: u32|
            #![trigger visited.contains(x), calls(callees, ni, x, c)]
            visited.contains(x) && calls(callees, ni, x, c) && (c as int) < st.len() && st[c as int]
                ==> visited.contains(c),
        is_touching_walk(st, callees, ni, p),
        visited.contains(p[0]),
        0 <= i < p.len(),
    ensures
        visited.contains(p[i]),
    decreases i,
{
    if i > 0 {
        lemma_closed_visits_walk(st, callees, ni, visited, p, i - 1);
        assert(calls(callees, ni, p[i - 1], p[(i - 1) + 1]));
        assert((p[i] as int) < st.len() && st[p[i] as int]);
    }
}

/// Collects the state-touching functions reachable from `starts`: the starts
/// that touch state, and every state-touching function a start reaches through
/// state-touching callees. Pure functions stay out (they are shared).
pub fn reachable_state_touching(starts: &Vec<u32>, st: &Vec<bool>, callees: &Vec<Vec<u32>>, ni: u32) -> (r: Vec<u32>)
    requires
        st.len() == ni + callees.len(),
        st.len() <= u32::MAX,
    ensures
        r@.no_duplicates(),
        forall|v: u32| r@.contains(v) <==> reachable_from(st@, callees@, ni, starts@, v),
{
    let nf = st.len();
    let mut seen: Vec<bool> = Vec::new();
    while seen.len() < nf
        invariant
            seen.len() <= nf,
            forall|j: int| 0 <= j < seen.len() ==> !seen@[j],
        decreases nf - seen.len(),
    {
        seen.push(false);
    }
    let mut stack: Vec<u32> = Vec::new();
    let mut i: usize = 0;
    while i < starts.len()
        invariant
            i <= starts.len(),
            stack@ == starts@.take(i as int),
        decreases starts.len() - i,
    {
        stack.push(starts[i]);
        i += 1;
        proof {
            assert(starts@.take(i as int) =~= starts@.take(i - 1).push(starts@[i - 1]));
        }
    }
    proof {
        assert(starts@.take(starts.len() as int) =~= starts@);
        assert forall|x: u32| stack@.contains(x) implies walk_reachable(st@, callees@, ni, starts@, x) by {
            lemma_start_walk(st@, callees@, ni, starts@, x);
        }
    }
    let mut visited: Vec<u32> = Vec::new();
    loop
        invariant
            nf == st.len(),
            nf == ni + callees.len(),
            nf <= u32::MAX,
            seen.len() == nf,
            forall|x: u32| (x as int) < nf ==> (seen@[x as int] <==> visited@.contains(x)),
            visited@.no_duplicates(),
            forall|x: u32| visited@.contains(x) ==> walk_reachable(st@, callees@, ni, starts@, x),
            forall|x: u32| stack@.contains(x) ==> walk_reachable(st@, callees@, ni, starts@, x),
            forall|x: u32| starts@.contains(x) ==> visited@.contains(x) || stack@.contains(x),
            forall|x: u32, c: u32|
                #![trigger visited@.contains(x), calls(callees@, ni, x, c)]
                visited@.contains(x) && calls(callees@, ni, x, c) && (c as int) < nf && st@[c as int]
                    ==> visited@.contains(c) || stack@.contains(c),
        ensures
            stack@.len() == 0,
            seen.len() == nf,
            visited@.no_duplicates(),
            forall|x: u32| visited@.contains(x) ==> walk_reachable(st@, callees@, ni, starts@, x),
            forall|x: u32| starts@.contains(x) ==> visited@.contains(x),
            forall|x: u32, c: u32|
                #![trigger visited@.contains(x), calls(callees@, ni, x, c)]
                visited@.contains(x) && calls(callees@, ni, x, c) && (c as int) < nf && st@[c as int]
                    ==> visited@.contains(c),
        decreases nf - count_true(seen@), stack.len(),
    {
        proof {
            lemma_count_true_bound(seen@);
        }
        let ghost old_stack = stack@;
        let ghost old_visited = visited@;
        match stack.pop() {
            None => {
                break;
            },
            Some(f) => {
                proof {
                    assert(old_stack =~= stack@.push(f));
                    assert forall|x: u32| old_stack.contains(x) && x != f implies stack@.contains(x) by {
                        let j = choose|j: int| 0 <= j < old_stack.len() && old_stack[j] == x;
                        assert(stack@[j] == x);
                    }
                    assert forall|x: u32| stack@.contains(x) implies old_stack.contains(x) by {
                        let j = choose|j: int| 0 <= j < stack@.len() && stack@[j] == x;
                        assert(old_stack[j] == x);
                    }
                    assert(old_stack.contains(f)) by {
                        assert(old_stack[old_stack.len() - 1] == f);
                    }
                    assert(walk_reachable(st@, callees@, ni, starts@, f));
                    assert forall|x: u32| stack@.contains(x) implies walk_reachable(st@, callees@, ni, starts@, x) by {
                        assert(old_stack.contains(x));
                    }
                }
                if (f as usize) < nf {
                    if !seen[f as usize] {
                        proof {
                            lemma_count_true_set(seen@, f as int);
                        }
                        seen.set(f as usize, true);
                        visited.push(f);
                        proof {
                            assert forall|x: u32| visited@.contains(x) <==> (old_visited.contains(x) || x == f) by {
                                if visited@.contains(x) {
                                    let j = choose|j: int| 0 <= j < visited@.len() && visited@[j] == x;
                                    if j < old_visited.len() {
                                        assert(old_visited[j] == x);
                                    }
                                }
                                if old_visited.contains(x) {
                                    let j = choose|j: int| 0 <= j < old_visited.len() && old_visited[j] == x;
                                    assert(visited@[j] == x);
                                }
                                assert(visited@[visited@.len() - 1] == f);
                            }
                        }
                        if f >= ni {
                            let cs = &callees[(f - ni) as usize];
                            let mut k: usize = 0;
                            while k < cs.len()
                                invariant
                                    nf == st.len(),
                                    nf == ni + callees.len(),
                                    f >= ni,
                                    (f as int) < nf,
                                    cs == callees@[f - ni],
                                    k <= cs.len(),
                                    seen.len() == nf,
                                    forall|x: u32| (x as int) < nf ==> (seen@[x as int] <==> visited@.contains(x)),
                                    visited@.contains(f),
                                    forall|x: u32| stack@.contains(x) ==> walk_reachable(st@, callees@, ni, starts@, x),
                                    forall|x: u32| old_stack.contains(x) && x != f ==> stack@.contains(x),
                                    walk_reachable(st@, callees@, ni, starts@, f),
                                    forall|j: int|
                                        0 <= j < k && (cs@[j] as int) < nf && st@[cs@[j] as int]
                                            ==> visited@.contains(cs@[j]) || stack@.contains(cs@[j]),
                                decreases cs.len() - k,
                            {
                                let c = cs[k];
                                let ghost before = stack@;
                                if (c as usize) < nf && st[c as usize] && !seen[c as usize] {
                                    proof {
                                        assert(cs@.contains(c)) by {
                                            assert(cs@[k as int] == c);
                                        }
                                        lemma_extend_reachable(st@, callees@, ni, starts@, f, c);
                                    }
                                    stack.push(c);
                                    proof {
                                        assert forall|x: u32| before.contains(x) implies stack@.contains(x) by {
                                            let j = choose|j: int| 0 <= j < before.len() && before[j] == x;
                                            assert(stack@[j] == x);
                                        }
                                        assert(stack@[stack@.len() - 1] == c);
                                        assert forall|x: u32| stack@.contains(x) implies walk_reachable(st@, callees@, ni, starts@, x) by {
                                            let j = choose|j: int| 0 <= j < stack@.len() && stack@[j] == x;
                                            if j < before.len() {
                                                assert(before[j] == x);
                                                assert(before.contains(x));
                                            }
                                        }
                                    }
                                }
                                k += 1;
                            }
                            proof {
                                assert forall|x: u32, c: u32|
                                    #![trigger visited@.contains(x), calls(callees@, ni, x, c)]
                                    visited@.contains(x) && calls(callees@, ni, x, c) && (c as int) < nf && st@[c as int]
                                        implies visited@.contains(c) || stack@.contains(c) by {
                                    if x == f {
                                        let j = choose|j: int| 0 <= j < cs@.len() && cs@[j] == c;
                                    } else {
                                        assert(old_visited.contains(x));
                                        if old_stack.contains(c) && c != f {
                                            assert(stack@.contains(c));
                                        }
                                    }
                                }
                            }
                        } else {
                            proof {
                                assert forall|x: u32, c: u32|
                                    #![trigger visited@.contains(x), calls(callees@, ni, x, c)]
                                    visited@.contains(x) && calls(callees@, ni, x, c) && (c as int) < nf && st@[c as int]
                                        implies visited@.contains(c) || stack@.contains(c) by {
                                    if x != f {
                                        assert(old_visited.contains(x));
                                        if old_stack.contains(c) && c != f {
                                            assert(stack@.contains(c));
                                        }
                                    }
                                }
                            }
                        }
                        proof {
                            assert(visited@.no_duplicates()) by {
                                assert(!old_visited.contains(f));
                                assert forall|a: int, b: int| 0 <= a < b < visited@.len() implies visited@[a] != visited@[b] by {
                                    if b == visited@.len() - 1 {
                                        assert(old_visited[a] == visited@[a]);
                                    } else {
                                        assert(old_visited[a] == visited@[a] && old_visited[b] == visited@[b]);
                                    }
                                }
                            }
                        }
                    } else {
                        proof {
                            assert forall|x: u32, c: u32|
                                #![trigger visited@.contains(x), calls(callees@, ni, x, c)]
                                visited@.contains(x) && calls(callees@, ni, x, c) && (c as int) < nf && st@[c as int]
                                    implies visited@.contains(c) || stack@.contains(c) by {
                                if old_stack.contains(c) && c != f {
                                    assert(stack@.contains(c));
                                }
                            }
                        }
                    }
                } else {
                    if !vec_contains(&visited, f) {
                        visited.push(f);
                        proof {
                            assert forall|x: u32| visited@.contains(x) <==> (old_visited.contains(x) || x == f) by {
                                if visited@.contains(x) {
                                    let j = choose|j: int| 0 <= j < visited@.len() && visited@[j] == x;
                                    if j < old_visited.len() {
                                        assert(old_visited[j] == x);
                                    }
                                }
                                if old_visited.contains(x) {
                                    let j = choose|j: int| 0 <= j < old_visited.len() && old_visited[j] == x;
                                    assert(visited@[j] == x);
                                }
                                assert(visited@[visited@.len() - 1] == f);
                            }
                            assert(visited@.no_duplicates()) by {
                                assert forall|a: int, b: int| 0 <= a < b < visited@.len() implies visited@[a] != visited@[b] by {
                                    if b == visited@.len() - 1 {
                                        assert(old_visited[a] == visited@[a]);
                                    } else {
                                        assert(old_visited[a] == visited@[a] && old_visited[b] == visited@[b]);
                                    }
                                }
                            }
                            assert forall|x: u32, c: u32|
                                #![trigger visited@.contains(x), calls(callees@, ni, x, c)]
                                visited@.contains(x) && calls(callees@, ni, x, c) && (c as int) < nf && st@[c as int]
                                    implies visited@.contains(c) || stack@.contains(c) by {
                                if x != f {
                                    assert(old_visited.contains(x));
                                    if old_stack.contains(c) && c != f {
                                        assert(stack@.contains(c));
                                    }
                                    if c == f {
                                        assert((f as int) < nf);
                                    }
                                }
                            }
                        }
                    } else {
                        proof {
                            assert forall|x: u32, c: u32|
                                #![trigger visited@.contains(x), calls(callees@, ni, x, c)]
                                visited@.contains(x) && calls(callees@, ni, x, c) && (c as int) < nf && st@[c as int]
                                    implies visited@.contains(c) || stack@.contains(c) by {
                                if old_stack.contains(c) && c != f {
                                    assert(stack@.contains(c));
                                }
                            }
                        }
                    }
                }
                proof {
                    lemma_count_true_bound(seen@);
                    assert forall|x: u32| visited@.contains(x) implies walk_reachable(st@, callees@, ni, starts@, x) by {
                        if x != f {
                            assert(old_visited.contains(x));
                        }
                    }
                }
            },
        }
    }
    proof {
        assert forall|v: u32| walk_reachable(st@, callees@, ni, starts@, v) implies visited@.contains(v) by {
            let p = choose|p: Seq<u32>|
                #![trigger is_touching_walk(st@, callees@, ni, p)]
                is_touching_walk(st@, callees@, ni, p) && starts@.contains(p[0]) && p.last() == v;
            lemma_closed_visits_walk(st@, callees@, ni, visited@, p, p.len() - 1);
        }
    }
    // Pure starts (and starts outside the module) are traced but not kept.
    let mut kept: Vec<u32> = Vec::new();
    let mut k: usize = 0;
    while k < visited.len()
        invariant
            k <= visited.len(),
            nf == st.len(),
            visited@.no_duplicates(),
            forall|x: u32| visited@.contains(x) <==> walk_reachable(st@, callees@, ni, starts@, x),
            kept@.no_duplicates(),
            forall|x: u32| kept@.contains(x) <==> (visited@.take(k as int).contains(x) && (x as int) < nf && st@[x as int]),
        decreases visited.len() - k,
    {
        let x = visited[k];
        let ghost before = kept@;
        if (x as usize) < nf && st[x as usize] {
            proof {
                assert(!before.contains(x)) by {
                    if before.contains(x) {
                        let j = choose|j: int| 0 <= j < k && #[trigger] visited@.take(k as int)[j] == x;
                        assert(visited@[j] == visited@[k as int]);
                    }
                }
            }
            kept.push(x);
            proof {
                assert forall|a: int, b: int| 0 <= a < b < kept@.len() implies kept@[a] != kept@[b] by {
                    if b == kept@.len() - 1 {
                        assert(kept@[a] == before[a]);
                        assert(before.contains(before[a]));
                    } else {
                        assert(kept@[a] == before[a] && kept@[b] == before[b]);
                    }
                }
            }
        }
        proof {
            assert forall|y: u32| kept@.contains(y) <==> (visited@.take(k + 1).contains(y) && (y as int) < nf && st@[y as int]) by {
                if kept@.contains(y) {
                    let j = choose|j: int| 0 <= j < kept@.len() && kept@[j] == y;
                    if j < before.len() {
                        assert(before[j] == y);
                        assert(before.contains(y));
                        let m = choose|m: int| 0 <= m < k && #[trigger] visited@.take(k as int)[m] == y;
                        assert(visited@.take(k + 1)[m] == y);
                    } else {
                        assert(visited@.take(k + 1)[k as int] == y);
                    }
                }
                if visited@.take(k + 1).contains(y) && (y as int) < nf && st@[y as int] {
                    let m = choose|m: int| 0 <= m < k + 1 && #[trigger] visited@.take(k + 1)[m] == y;
                    if m < k {
                        assert(visited@.take(k as int)[m] == y);
                        assert(before.contains(y));
                        let j = choose|j: int| 0 <= j < before.len() && before[j] == y;
                        assert(kept@[j] == y);
                    } else {
                        assert(kept@[kept@.len() - 1] == y);
                    }
                }
            }
        }
        k += 1;
    }
    proof {
        assert(visited@.take(visited.len() as int) =~= visited@);
    }
    kept
}

} // verus!
