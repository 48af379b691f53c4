//! Index layout of the specializing merge: where each consumer's specialized
//! copies, each consumer's slots of a library global, and each consumer's copy
//! of a library memory land.

use vstd::prelude::*;
use crate::counting::count_true;

verus! {

/// The number of `true` entries among the first `i` of `s`.
pub open spec fn count_prefix(s: Seq<bool>, i: int) -> nat {
    count_true(s.take(i))
}

pub proof fn lemma_count_prefix_step(s: Seq<bool>, i: int)
    requires
        0 <= i < s.len(),
    ensures
        count_prefix(s, i + 1) == count_prefix(s, i) + if s[i] {
            1nat
        } else {
            0nat
        },
{
    assert(s.take(i + 1).drop_last() =~= s.take(i));
}

pub proof fn lemma_count_prefix_monotone(s: Seq<bool>, i: int, j: int)
    requires
        0 <= i <= j <= s.len(),
    ensures
        count_prefix(s, i) <= count_prefix(s, j),
    decreases j - i,
{
    if i < j {
        lemma_count_prefix_monotone(s, i, j - 1);
        lemma_count_prefix_step(s, j - 1);
    }
}

pub proof fn lemma_count_prefix_full(s: Seq<bool>)
    ensures
        count_prefix(s, s.len() as int) == count_true(s),
{
    assert(s.take(s.len() as int) =~= s);
}

/// A marked entry counts strictly before every later position.
pub proof fn lemma_count_prefix_strict(s: Seq<bool>, i: int, j: int)
    requires
        0 <= i < j <= s.len(),
        s[i],
    ensures
        count_prefix(s, i) < count_prefix(s, j),
{
    lemma_count_prefix_step(s, i);
    lemma_count_prefix_monotone(s, i + 1, j);
}

/// The number of copies made for the consumers before position `c`.
pub open spec fn copies_upto(needed: Seq<Seq<bool>>, c: int) -> nat
    decreases c,
{
    if c <= 0 {
        0
    } else {
        copies_upto(needed, c - 1) + count_true(needed[c - 1])
    }
}

pub proof fn lemma_copies_upto_monotone(needed: Seq<Seq<bool>>, c: int, d: int)
    requires
        0 <= c <= d,
    ensures
        copies_upto(needed, c) <= copies_upto(needed, d),
    decreases d - c,
{
    if c < d {
        lemma_copies_upto_monotone(needed, c, d - 1);
    }
}

/// Copies are laid out consumer by consumer, each consumer's in the order of
/// the library functions: the index of consumer `c`'s copy of function `f`.
pub open spec fn copy_index(needed: Seq<Seq<bool>>, base: u32, c: int, f: int) -> int {
    base + copies_upto(needed, c) + count_prefix(needed[c], f)
}

/// Every needed pair's copy lies below the end of the copies.
pub proof fn lemma_copy_index_bound(needed: Seq<Seq<bool>>, base: u32, c: int, f: int)
    requires
        0 <= c < needed.len(),
        0 <= f < needed[c].len(),
        needed[c][f],
    ensures
        base <= copy_index(needed, base, c, f) < base + copies_upto(needed, needed.len() as int),
{
    lemma_count_prefix_strict(needed[c], f, needed[c].len() as int);
    lemma_count_prefix_full(needed[c]);
    lemma_copies_upto_monotone(needed, c + 1, needed.len() as int);
}

/// One copy per needed pair: distinct (consumer, function) pairs that are both
/// needed get distinct copies, each inside the block of copies.
pub proof fn lemma_copies_distinct(needed: Seq<Seq<bool>>, base: u32, c1: int, f1: int, c2: int, f2: int)
    requires
        0 <= c1 < needed.len(),
        0 <= c2 < needed.len(),
        0 <= f1 < needed[c1].len(),
        0 <= f2 < needed[c2].len(),
        needed[c1][f1],
        needed[c2][f2],
        c1 != c2 || f1 != f2,
    ensures
        copy_index(needed, base, c1, f1) != copy_index(needed, base, c2, f2),
        base <= copy_index(needed, base, c1, f1) < base + copies_upto(needed, needed.len() as int),
{
    lemma_copy_index_bound(needed, base, c1, f1);
    lemma_copy_index_bound(needed, base, c2, f2);
    if c1 == c2 {
        if f1 < f2 {
            lemma_count_prefix_strict(needed[c1], f1, f2);
        } else {
            lemma_count_prefix_strict(needed[c1], f2, f1);
        }
    } else {
        let (ca, fa, cb, fb) = if c1 < c2 {
            (c1, f1, c2, f2)
        } else {
            (c2, f2, c1, f1)
        };
        lemma_count_prefix_strict(needed[ca], fa, needed[ca].len() as int);
        lemma_count_prefix_full(needed[ca]);
        lemma_copies_upto_monotone(needed, ca + 1, cb);
        assert(copy_index(needed, base, ca, fa) < copy_index(needed, base, cb, fb));
    }
}

/// Lays out the specialized copies from `base` on: per consumer, per library
/// function, the index of the consumer's copy, if it needs one; and the index
/// after the last copy. `None` when the copies do not fit below `u32::MAX`.
pub fn copy_layout(needed: &Vec<Vec<bool>>, base: u32) -> (r: Option<(Vec<Vec<Option<u32>>>, u32)>)
    ensures
        r is None <==> base + copies_upto(needed@.map_values(|v: Vec<bool>| v@), needed.len() as int) > u32::MAX,
        r matches Some((targets, next)) ==> {
            let nd = needed@.map_values(|v: Vec<bool>| v@);
            &&& next == base + copies_upto(nd, needed.len() as int)
            &&& targets.len() == needed.len()
            &&& forall|c: int| 0 <= c < needed.len() ==> (#[trigger] targets@[c]).len() == needed@[c].len()
            &&& forall|c: int, f: int|
                0 <= c < needed.len() && 0 <= f < needed@[c].len() ==> (#[trigger] targets@[c]@[f]) == if needed@[c]@[f] {
                    Some(copy_index(nd, base, c, f) as u32)
                } else {
                    None
                }
        },
{
    let ghost nd = needed@.map_values(|v: Vec<bool>| v@);
    let mut targets: Vec<Vec<Option<u32>>> = Vec::new();
    let mut next: u64 = base as u64;
    let mut c: usize = 0;
    while c < needed.len()
        invariant
            nd == needed@.map_values(|v: Vec<bool>| v@),
            c <= needed.len(),
            targets.len() == c,
            next == base + copies_upto(nd, c as int),
            next <= u32::MAX,
            forall|d: int| 0 <= d < c ==> (#[trigger] targets@[d]).len() == needed@[d].len(),
            forall|d: int, f: int|
                0 <= d < c && 0 <= f < needed@[d].len() ==> (#[trigger] targets@[d]@[f]) == if needed@[d]@[f] {
                    Some(copy_index(nd, base, d, f) as u32)
                } else {
                    None
                },
        decreases needed.len() - c,
    {
        let row = &needed[c];
        let mut t: Vec<Option<u32>> = Vec::new();
        let mut f: usize = 0;
        while f < row.len()
            invariant
                nd == needed@.map_values(|v: Vec<bool>| v@),
                c < needed.len(),
                row@ == nd[c as int],
                f <= row.len(),
                t.len() == f,
                next == base + copies_upto(nd, c as int) + count_prefix(nd[c as int], f as int),
                next <= u32::MAX,
                forall|g: int| 0 <= g < f ==> (#[trigger] t@[g]) == if row@[g] {
                    Some(copy_index(nd, base, c as int, g) as u32)
                } else {
                    None
                },
            decreases row.len() - f,
        {
            proof {
                lemma_count_prefix_step(nd[c as int], f as int);
            }
            if row[f] {
                if next == u32::MAX as u64 {
                    proof {
                        lemma_count_prefix_monotone(nd[c as int], f as int + 1, row.len() as int);
                        lemma_count_prefix_full(nd[c as int]);
                        lemma_copies_upto_monotone(nd, c as int + 1, needed.len() as int);
                    }
                    return None;
                }
                t.push(Some(next as u32));
                next = next + 1;
            } else {
                t.push(None);
            }
            f += 1;
        }
        proof {
            lemma_count_prefix_full(nd[c as int]);
        }
        targets.push(t);
        c += 1;
    }
    Some((targets, next as u32))
}

/// The number of slots taken by the globals before position `g`: a mutable
/// global takes one per consumer, an immutable one a single slot.
pub open spec fn slots_upto(mutable: Seq<bool>, n: u32, g: int) -> nat
    decreases g,
{
    if g <= 0 {
        0
    } else {
        slots_upto(mutable, n, g - 1) + if mutable[g - 1] {
            n as nat
        } else {
            1nat
        }
    }
}

pub proof fn lemma_slots_upto_monotone(mutable: Seq<bool>, n: u32, g: int, h: int)
    requires
        0 <= g <= h,
    ensures
        slots_upto(mutable, n, g) <= slots_upto(mutable, n, h),
    decreases h - g,
{
    if g < h {
        lemma_slots_upto_monotone(mutable, n, g, h - 1);
    }
}

/// Per-consumer globals: consumer `c`'s copy of mutable global `g` is slot
/// `slots_upto(g) + c`. Distinct (global, consumer) pairs get distinct slots,
/// all below the total, and no slot of a mutable global is the slot of another
/// global.
pub proof fn lemma_global_slots_distinct(mutable: Seq<bool>, n: u32, g1: int, c1: int, g2: int, c2: int)
    requires
        0 <= g1 < mutable.len(),
        0 <= g2 < mutable.len(),
        0 <= c1 < (if mutable[g1] { n as int } else { 1 }),
        0 <= c2 < (if mutable[g2] { n as int } else { 1 }),
        g1 != g2 || c1 != c2,
    ensures
        slots_upto(mutable, n, g1) + c1 != slots_upto(mutable, n, g2) + c2,
        slots_upto(mutable, n, g1) + c1 < slots_upto(mutable, n, mutable.len() as int),
{
    lemma_slots_upto_monotone(mutable, n, g1 + 1, mutable.len() as int);
    if g1 < g2 {
        lemma_slots_upto_monotone(mutable, n, g1 + 1, g2);
    } else if g2 < g1 {
        lemma_slots_upto_monotone(mutable, n, g2 + 1, g1);
    }
}

/// The first slot of each library global, and the number of slots; `None`
/// when they do not fit in `u32`.
pub fn global_layout(mutable: &Vec<bool>, n: u32) -> (r: Option<(Vec<u32>, u32)>)
    ensures
        r is None <==> slots_upto(mutable@, n, mutable.len() as int) > u32::MAX,
        r matches Some((base, total)) ==> {
            &&& base.len() == mutable.len()
            &&& total == slots_upto(mutable@, n, mutable.len() as int)
            &&& forall|g: int| 0 <= g < mutable.len() ==> (#[trigger] base@[g]) == slots_upto(mutable@, n, g)
        },
{
    let mut base: Vec<u32> = Vec::new();
    let mut next: u64 = 0;
    let mut g: usize = 0;
    while g < mutable.len()
        invariant
            g <= mutable.len(),
            base.len() == g,
            next == slots_upto(mutable@, n, g as int),
            next <= u32::MAX,
            forall|h: int| 0 <= h < g ==> (#[trigger] base@[h]) == slots_upto(mutable@, n, h),
        decreases mutable.len() - g,
    {
        base.push(next as u32);
        let w: u64 = if mutable[g] {
            n as u64
        } else {
            1
        };
        if next + w > u32::MAX as u64 {
            proof {
                lemma_slots_upto_monotone(mutable@, n, g as int + 1, mutable.len() as int);
            }
            return None;
        }
        next = next + w;
        g += 1;
    }
    Some((base, next as u32))
}

/// Slot `a * n + b` of a block of `n`-wide rows: the data of instance `b` of
/// library memory `a`, or shell wrapper `a` of consumer `b`. Distinct pairs
/// land in distinct slots, all below `rows * n`.
pub proof fn lemma_row_slots_distinct(a1: int, b1: int, a2: int, b2: int, n: int, rows: int)
    requires
        0 <= a1 < rows,
        0 <= a2 < rows,
        0 <= b1 < n,
        0 <= b2 < n,
        a1 != a2 || b1 != b2,
    ensures
        a1 * n + b1 != a2 * n + b2,
        a1 * n + b1 < rows * n,
{
    if a1 < a2 {
        assert(a1 * n + n <= a2 * n) by (nonlinear_arith)
            requires
                a1 < a2,
                0 <= n,
        ;
    } else if a2 < a1 {
        assert(a2 * n + n <= a1 * n) by (nonlinear_arith)
            requires
                a2 < a1,
                0 <= n,
        ;
    }
    assert(a1 * n + n <= rows * n) by (nonlinear_arith)
        requires
            a1 < rows,
            0 <= n,
    ;
}

} // verus!
