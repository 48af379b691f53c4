//! How the specializing merge rewrites one instruction of a function body: the
//! instructions it writes in its place, as plain values.

use vstd::prelude::*;
use vstd::wrapping::u32_specs::wrapping_add;
use crate::analyze::accesses_state;
use crate::ops::{mem_op_name_offset, mem_op_spec, store_class, store_class_spec, MemOpKind, OpSummary, StoreClass};

verus! {

/// An instruction without a memory argument that the merge writes itself.
#[derive(PartialEq, Eq, Structural, Clone, Copy, Debug)]
pub enum Plain {
    LocalGet(u32),
    LocalSet(u32),
    I32Const(i32),
    I32Add,
    GlobalGet(u32),
    GlobalSet(u32),
    Call(u32),
    End,
}

/// One instruction written into a rewritten body.
#[derive(PartialEq, Eq, Structural, Clone, Copy, Debug)]
pub enum Emit {
    /// The instruction being rewritten, re-encoded unchanged.
    Keep,
    Plain(Plain),
    /// A memory instruction on `memory`, with static offset 0 and the natural
    /// alignment of its access; `memory.copy` copies within `memory`.
    Memory { kind: MemOpKind, memory: u32 },
    /// A memory instruction on `memory` with static offset `offset` and the
    /// natural alignment of its access.
    MemoryAt { kind: MemOpKind, memory: u32, offset: u64 },
    /// `memory.copy` from memory `src` to memory `dst`.
    CopyBetween { dst: u32, src: u32 },
}

/// Instance `inst`'s copy of library memory `m`: the merged memories are laid
/// out one row of `n` copies per library memory (32-bit wrapping arithmetic).
pub open spec fn instance_memory(m: u32, n: u32, inst: u32) -> u32 {
    wrapping_add(vstd::wrapping::u32_specs::wrapping_mul(m, n), inst)
}

/// A library body is copied once, its calls moved past the `fshift` functions
/// imported in front of the library's own, and its accesses to a library
/// global laid out in `global_base` moved to the global's first slot.
pub open spec fn lib_op_spec(op: OpSummary, fshift: u32, global_base: Seq<u32>) -> Seq<Emit> {
    match op {
        OpSummary::Call(f) => if fshift > 0 {
            seq![Emit::Plain(Plain::Call(wrapping_add(f, fshift)))]
        } else {
            seq![Emit::Keep]
        },
        OpSummary::GlobalGet(g) => if g < global_base.len() {
            seq![Emit::Plain(Plain::GlobalGet(global_base[g as int]))]
        } else {
            seq![Emit::Keep]
        },
        OpSummary::GlobalSet(g) => if g < global_base.len() {
            seq![Emit::Plain(Plain::GlobalSet(global_base[g as int]))]
        } else {
            seq![Emit::Keep]
        },
        _ => seq![Emit::Keep],
    }
}

pub fn lib_op(op: OpSummary, fshift: u32, global_base: &Vec<u32>) -> (r: Vec<Emit>)
    ensures
        r@ == lib_op_spec(op, fshift, global_base@),
{
    match op {
        OpSummary::Call(f) => if fshift > 0 {
            vec![Emit::Plain(Plain::Call(f.wrapping_add(fshift)))]
        } else {
            vec![Emit::Keep]
        },
        OpSummary::GlobalGet(g) => if (g as usize) < global_base.len() {
            vec![Emit::Plain(Plain::GlobalGet(global_base[g as usize]))]
        } else {
            vec![Emit::Keep]
        },
        OpSummary::GlobalSet(g) => if (g as usize) < global_base.len() {
            vec![Emit::Plain(Plain::GlobalSet(global_base[g as usize]))]
        } else {
            vec![Emit::Keep]
        },
        _ => vec![Emit::Keep],
    }
}

/// What a specialized copy for one consumer is rewritten with.
pub struct SpecializeCtx {
    /// The consumer's position among the consumers: the memory its copies use
    /// and the copy of each mutable global they use.
    pub inst: u32,
    /// The number of functions imported in front of the library's own.
    pub fshift: u32,
    /// The index of the first of four scratch locals (`i32`, `i64`, `f32`,
    /// `f64`) appended to the body's locals.
    pub temp_base: u32,
    /// The library's mutable globals.
    pub mutable: Vec<u32>,
    /// Per library global: its first slot in the merged global space.
    pub global_base: Vec<u32>,
    /// Per library function: the index of this consumer's specialized copy of
    /// it, if it has one.
    pub targets: Vec<Option<u32>>,
}

/// The scratch local that holds a store's operand of class `c`.
pub open spec fn temp_local(temp_base: u32, c: StoreClass) -> u32 {
    match c {
        StoreClass::I32 => temp_base,
        StoreClass::I64 => wrapping_add(temp_base, 1),
        StoreClass::F32 => wrapping_add(temp_base, 2),
        StoreClass::F64 => wrapping_add(temp_base, 3),
    }
}

/// A nonzero static offset is added to the address on the stack instead: for a
/// store, the operand above the address is parked in a scratch local first.
pub open spec fn offset_fixup(kind: MemOpKind, offset: u64, temp_base: u32) -> Seq<Emit> {
    if offset == 0 {
        seq![]
    } else {
        match store_class_spec(kind) {
            Some(c) => seq![
                Emit::Plain(Plain::LocalSet(temp_local(temp_base, c))),
                Emit::Plain(Plain::I32Const(offset as i32)),
                Emit::Plain(Plain::I32Add),
                Emit::Plain(Plain::LocalGet(temp_local(temp_base, c))),
            ],
            None => seq![Emit::Plain(Plain::I32Const(offset as i32)), Emit::Plain(Plain::I32Add)],
        }
    }
}

/// Where a call from a specialized copy goes: to this consumer's copy of the
/// callee if it has one, else to the shared library function.
pub open spec fn call_target(targets: Seq<Option<u32>>, fshift: u32, f: u32) -> u32 {
    if f < targets.len() && targets[f as int] is Some {
        targets[f as int]->0
    } else {
        wrapping_add(f, fshift)
    }
}

/// Where consumer `inst`'s copy accesses global `g`: a mutable global at its
/// slot for the consumer, any other global of the layout at its one slot; a
/// global outside the layout is kept (`Some(None)`), unless it is mutable
/// (`None`: it has no slot).
pub open spec fn global_slot_spec(g: u32, inst: u32, mutable: Seq<u32>, global_base: Seq<u32>) -> Option<Option<u32>> {
    if g < global_base.len() {
        if mutable.contains(g) {
            Some(Some(wrapping_add(global_base[g as int], inst)))
        } else {
            Some(Some(global_base[g as int]))
        }
    } else if mutable.contains(g) {
        None
    } else {
        Some(None)
    }
}

/// The rewrite of one instruction of a specialized copy; `None` when it
/// accesses a mutable global that has no slot in the global layout.
pub open spec fn specialize_op_spec(
    op: OpSummary,
    inst: u32,
    fshift: u32,
    temp_base: u32,
    mutable: Seq<u32>,
    global_base: Seq<u32>,
    targets: Seq<Option<u32>>,
) -> Option<Seq<Emit>> {
    match mem_op_spec(op) {
        Some((kind, offset)) => Some(offset_fixup(kind, offset, temp_base).push(Emit::Memory { kind, memory: inst })),
        None => match op {
            OpSummary::GlobalGet(g) => match global_slot_spec(g, inst, mutable, global_base) {
                Some(Some(slot)) => Some(seq![Emit::Plain(Plain::GlobalGet(slot))]),
                Some(None) => Some(seq![Emit::Keep]),
                None => None,
            },
            OpSummary::GlobalSet(g) => match global_slot_spec(g, inst, mutable, global_base) {
                Some(Some(slot)) => Some(seq![Emit::Plain(Plain::GlobalSet(slot))]),
                Some(None) => Some(seq![Emit::Keep]),
                None => None,
            },
            OpSummary::Call(f) => Some(seq![Emit::Plain(Plain::Call(call_target(targets, fshift, f)))]),
            _ => Some(seq![Emit::Keep]),
        },
    }
}

impl SpecializeCtx {
    pub open spec fn rewrite(&self, op: OpSummary) -> Option<Seq<Emit>> {
        specialize_op_spec(op, self.inst, self.fshift, self.temp_base, self.mutable@, self.global_base@, self.targets@)
    }
}

fn temp_local_of(temp_base: u32, c: StoreClass) -> (r: u32)
    ensures
        r == temp_local(temp_base, c),
{
    match c {
        StoreClass::I32 => temp_base,
        StoreClass::I64 => temp_base.wrapping_add(1),
        StoreClass::F32 => temp_base.wrapping_add(2),
        StoreClass::F64 => temp_base.wrapping_add(3),
    }
}

fn global_slot(ctx: &SpecializeCtx, g: u32) -> (r: Option<Option<u32>>)
    ensures
        r == global_slot_spec(g, ctx.inst, ctx.mutable@, ctx.global_base@),
{
    let m = crate::counting::vec_contains(&ctx.mutable, g);
    if (g as usize) < ctx.global_base.len() {
        if m {
            Some(Some(ctx.global_base[g as usize].wrapping_add(ctx.inst)))
        } else {
            Some(Some(ctx.global_base[g as usize]))
        }
    } else if m {
        None
    } else {
        Some(None)
    }
}

/// Rewrites one instruction of a specialized copy.
pub fn specialize_op(op: OpSummary, ctx: &SpecializeCtx) -> (r: Option<Vec<Emit>>)
    ensures
        r matches Some(v) ==> ctx.rewrite(op) == Some(v@),
        r is None <==> ctx.rewrite(op) is None,
{
    match mem_op_name_offset(&op) {
        Some((kind, offset)) => {
            let mut v: Vec<Emit> = Vec::new();
            if offset != 0 {
                match store_class(kind) {
                    Some(c) => {
                        let t = temp_local_of(ctx.temp_base, c);
                        v.push(Emit::Plain(Plain::LocalSet(t)));
                        v.push(Emit::Plain(Plain::I32Const(offset as i32)));
                        v.push(Emit::Plain(Plain::I32Add));
                        v.push(Emit::Plain(Plain::LocalGet(t)));
                    },
                    None => {
                        v.push(Emit::Plain(Plain::I32Const(offset as i32)));
                        v.push(Emit::Plain(Plain::I32Add));
                    },
                }
            }
            v.push(Emit::Memory { kind, memory: ctx.inst });
            proof {
                assert(v@ =~= offset_fixup(kind, offset, ctx.temp_base).push(Emit::Memory { kind, memory: ctx.inst }));
            }
            Some(v)
        },
        None => match op {
            OpSummary::GlobalGet(g) => match global_slot(ctx, g) {
                Some(Some(s)) => Some(vec![Emit::Plain(Plain::GlobalGet(s))]),
                Some(None) => Some(vec![Emit::Keep]),
                None => None,
            },
            OpSummary::GlobalSet(g) => match global_slot(ctx, g) {
                Some(Some(s)) => Some(vec![Emit::Plain(Plain::GlobalSet(s))]),
                Some(None) => Some(vec![Emit::Keep]),
                None => None,
            },
            OpSummary::Call(f) => {
                let t = if (f as usize) < ctx.targets.len() {
                    match ctx.targets[f as usize] {
                        Some(t) => t,
                        None => f.wrapping_add(ctx.fshift),
                    }
                } else {
                    f.wrapping_add(ctx.fshift)
                };
                Some(vec![Emit::Plain(Plain::Call(t))])
            },
            _ => Some(vec![Emit::Keep]),
        },
    }
}

/// The global a `global.get` or `global.set` accesses.
pub open spec fn global_of(e: Emit) -> Option<u32> {
    match e {
        Emit::Plain(Plain::GlobalGet(g)) => Some(g),
        Emit::Plain(Plain::GlobalSet(g)) => Some(g),
        _ => None,
    }
}

/// The global that a `global.get` or `global.set` names.
pub open spec fn op_global(op: OpSummary) -> Option<u32> {
    match op {
        OpSummary::GlobalGet(g) => Some(g),
        OpSummary::GlobalSet(g) => Some(g),
        _ => None,
    }
}

/// Isolation of a specialized copy: every memory instruction it writes uses the
/// consumer's own memory; every global access it writes goes to the slot of
/// the global it rewrites (for a mutable global, the consumer's own slot); and
/// an instruction kept unchanged accesses neither a memory nor a mutable global.
pub proof fn lemma_specialized_copy_isolated(
    op: OpSummary,
    inst: u32,
    fshift: u32,
    temp_base: u32,
    mutable: Seq<u32>,
    global_base: Seq<u32>,
    targets: Seq<Option<u32>>,
)
    ensures
        specialize_op_spec(op, inst, fshift, temp_base, mutable, global_base, targets) matches Some(s) ==> {
            &&& forall|i: int| 0 <= i < s.len() ==> (#[trigger] s[i]) is Keep || s[i] is Plain || s[i] is Memory
            &&& forall|i: int| 0 <= i < s.len() && (#[trigger] s[i]) is Memory ==> s[i]->Memory_memory == inst
            &&& forall|i: int| 0 <= i < s.len() && (#[trigger] s[i]) == Emit::Keep ==> !accesses_state(op, mutable)
            &&& forall|i: int|
                0 <= i < s.len() && (#[trigger] global_of(s[i])) is Some ==> (op_global(op) matches Some(g)
                    && global_slot_spec(g, inst, mutable, global_base) == Some(global_of(s[i])))
        },
{
    match specialize_op_spec(op, inst, fshift, temp_base, mutable, global_base, targets) {
        Some(s) => {
            match mem_op_spec(op) {
                Some((kind, offset)) => {
                    assert forall|i: int| 0 <= i < s.len() && (#[trigger] s[i]) is Memory implies s[i]->Memory_memory == inst by {
                        if i < s.len() - 1 {
                            assert(s[i] == offset_fixup(kind, offset, temp_base)[i]);
                        }
                    }
                    assert forall|i: int| 0 <= i < s.len() implies (#[trigger] s[i]) is Keep || s[i] is Plain || s[i] is Memory by {
                        if i < s.len() - 1 {
                            assert(s[i] == offset_fixup(kind, offset, temp_base)[i]);
                        }
                    }
                    assert forall|i: int| 0 <= i < s.len() && (#[trigger] global_of(s[i])) is Some implies (op_global(op) matches Some(g)
                        && global_slot_spec(g, inst, mutable, global_base) == Some(global_of(s[i]))) by {
                        if i < s.len() - 1 {
                            assert(s[i] == offset_fixup(kind, offset, temp_base)[i]);
                        }
                    }
                    assert forall|i: int| 0 <= i < s.len() && (#[trigger] s[i]) == Emit::Keep implies !accesses_state(op, mutable) by {
                        if i < s.len() - 1 {
                            assert(s[i] == offset_fixup(kind, offset, temp_base)[i]);
                        }
                    }
                },
                None => {},
            }
        },
        None => {},
    }
}

/// A consumer body keeps its instructions, its calls redirected and its
/// memory instructions moved to the consumer's own memories: a call of its
/// `i`-th imported function goes to `remap[i]`, a call of its own `k`-th
/// function to `base + k`, and an access to its memory `m` (the library's
/// memory `m`, which it imports) to instance `inst`'s copy of it among `n`.
pub open spec fn consumer_op_spec(
    op: OpSummary,
    remap: Seq<Option<u32>>,
    imported: u32,
    base: u32,
    n: u32,
    inst: u32,
) -> Seq<Emit> {
    match op {
        OpSummary::Call(f) => if f < remap.len() && remap[f as int] is Some {
            seq![Emit::Plain(Plain::Call(remap[f as int]->0))]
        } else if f >= imported {
            let k = (f - imported) as u32;
            seq![Emit::Plain(Plain::Call(wrapping_add(base, k)))]
        } else {
            seq![Emit::Plain(Plain::Call(f))]
        },
        OpSummary::Access { kind, memory, offset } => seq![
            Emit::MemoryAt { kind, memory: instance_memory(memory, n, inst), offset },
        ],
        OpSummary::Copy { dst_mem, src_mem } => seq![
            Emit::CopyBetween { dst: instance_memory(dst_mem, n, inst), src: instance_memory(src_mem, n, inst) },
        ],
        _ => seq![Emit::Keep],
    }
}

fn instance_memory_of(m: u32, n: u32, inst: u32) -> (r: u32)
    ensures
        r == instance_memory(m, n, inst),
{
    m.wrapping_mul(n).wrapping_add(inst)
}

pub fn consumer_op(op: OpSummary, remap: &Vec<Option<u32>>, imported: u32, base: u32, n: u32, inst: u32) -> (r: Vec<Emit>)
    ensures
        r@ == consumer_op_spec(op, remap@, imported, base, n, inst),
{
    match op {
        OpSummary::Call(f) => {
            let mapped = if (f as usize) < remap.len() {
                remap[f as usize]
            } else {
                None
            };
            match mapped {
                Some(t) => vec![Emit::Plain(Plain::Call(t))],
                None => if f >= imported {
                    let k = f - imported;
                    vec![Emit::Plain(Plain::Call(base.wrapping_add(k)))]
                } else {
                    vec![Emit::Plain(Plain::Call(f))]
                },
            }
        },
        OpSummary::Access { kind, memory, offset } => vec![
            Emit::MemoryAt { kind, memory: instance_memory_of(memory, n, inst), offset },
        ],
        OpSummary::Copy { dst_mem, src_mem } => vec![
            Emit::CopyBetween { dst: instance_memory_of(dst_mem, n, inst), src: instance_memory_of(src_mem, n, inst) },
        ],
        _ => vec![Emit::Keep],
    }
}

/// The body of a shell wrapper: its parameters passed on to `target`.
pub open spec fn shell_body_spec(params: u32, target: u32) -> Seq<Emit> {
    Seq::new(params as nat, |p: int| Emit::Plain(Plain::LocalGet(p as u32))).push(
        Emit::Plain(Plain::Call(target)),
    ).push(Emit::Plain(Plain::End))
}

pub fn shell_body(params: u32, target: u32) -> (r: Vec<Emit>)
    ensures
        r@ == shell_body_spec(params, target),
{
    let mut v: Vec<Emit> = Vec::new();
    let mut p: u32 = 0;
    while p < params
        invariant
            p <= params,
            v@ == Seq::new(p as nat, |q: int| Emit::Plain(Plain::LocalGet(q as u32))),
        decreases params - p,
    {
        v.push(Emit::Plain(Plain::LocalGet(p)));
        p += 1;
        proof {
            assert(v@ =~= Seq::new(p as nat, |q: int| Emit::Plain(Plain::LocalGet(q as u32))));
        }
    }
    v.push(Emit::Plain(Plain::Call(target)));
    v.push(Emit::Plain(Plain::End));
    v
}

} // verus!
