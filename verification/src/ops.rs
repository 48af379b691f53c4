//! The instructions the library looks at: memory accesses, global accesses,
//! calls and constants.

use vstd::prelude::*;

verus! {

/// The instructions that read or write a linear memory.
#[derive(PartialEq, Eq, Structural, Clone, Copy, Debug)]
pub enum MemOpKind {
    I32Load,
    I64Load,
    F32Load,
    F64Load,
    I32Load8S,
    I32Load8U,
    I32Load16S,
    I32Load16U,
    I64Load8S,
    I64Load8U,
    I64Load16S,
    I64Load16U,
    I64Load32S,
    I64Load32U,
    I32Store,
    I64Store,
    F32Store,
    F64Store,
    I32Store8,
    I32Store16,
    I64Store8,
    I64Store16,
    I64Store32,
    MemorySize,
    MemoryGrow,
    MemoryFill,
    MemoryCopy,
}

/// What the library reads of one instruction.
#[derive(PartialEq, Eq, Structural, Clone, Copy, Debug)]
pub enum OpSummary {
    /// A memory instruction on one memory; `offset` is the static offset of a
    /// load or store, 0 for `memory.size`, `memory.grow` and `memory.fill`.
    Access { kind: MemOpKind, memory: u32, offset: u64 },
    /// `memory.copy` between two memories.
    Copy { dst_mem: u32, src_mem: u32 },
    GlobalGet(u32),
    GlobalSet(u32),
    Call(u32),
    I32Const(i32),
    I64Const(i64),
    End,
    Other,
}

/// The memory instructions without a memory argument.
pub open spec fn is_bulk_kind(k: MemOpKind) -> bool {
    k == MemOpKind::MemorySize || k == MemOpKind::MemoryGrow || k == MemOpKind::MemoryFill || k == MemOpKind::MemoryCopy
}

/// A summary as `summarize` makes them: `memory.copy` is always a `Copy`, and
/// `memory.size`, `memory.grow` and `memory.fill` have offset 0.
pub open spec fn summary_wf(op: OpSummary) -> bool {
    match op {
        OpSummary::Access { kind, offset, .. } => kind != MemOpKind::MemoryCopy && (is_bulk_kind(kind) ==> offset == 0),
        _ => true,
    }
}

/// The text name of a memory instruction.
pub open spec fn kind_name(k: MemOpKind) -> Seq<char> {
    match k {
        MemOpKind::I32Load => "i32.load"@,
        MemOpKind::I64Load => "i64.load"@,
        MemOpKind::F32Load => "f32.load"@,
        MemOpKind::F64Load => "f64.load"@,
        MemOpKind::I32Load8S => "i32.load8_s"@,
        MemOpKind::I32Load8U => "i32.load8_u"@,
        MemOpKind::I32Load16S => "i32.load16_s"@,
        MemOpKind::I32Load16U => "i32.load16_u"@,
        MemOpKind::I64Load8S => "i64.load8_s"@,
        MemOpKind::I64Load8U => "i64.load8_u"@,
        MemOpKind::I64Load16S => "i64.load16_s"@,
        MemOpKind::I64Load16U => "i64.load16_u"@,
        MemOpKind::I64Load32S => "i64.load32_s"@,
        MemOpKind::I64Load32U => "i64.load32_u"@,
        MemOpKind::I32Store => "i32.store"@,
        MemOpKind::I64Store => "i64.store"@,
        MemOpKind::F32Store => "f32.store"@,
        MemOpKind::F64Store => "f64.store"@,
        MemOpKind::I32Store8 => "i32.store8"@,
        MemOpKind::I32Store16 => "i32.store16"@,
        MemOpKind::I64Store8 => "i64.store8"@,
        MemOpKind::I64Store16 => "i64.store16"@,
        MemOpKind::I64Store32 => "i64.store32"@,
        MemOpKind::MemorySize => "memory.size"@,
        MemOpKind::MemoryGrow => "memory.grow"@,
        MemOpKind::MemoryFill => "memory.fill"@,
        MemOpKind::MemoryCopy => "memory.copy"@,
    }
}

/// The text name of a memory instruction.
pub fn kind_name_string(k: MemOpKind) -> (s: String)
    ensures
        s@ == kind_name(k),
{
    let t: &str = match k {
        MemOpKind::I32Load => "i32.load",
        MemOpKind::I64Load => "i64.load",
        MemOpKind::F32Load => "f32.load",
        MemOpKind::F64Load => "f64.load",
        MemOpKind::I32Load8S => "i32.load8_s",
        MemOpKind::I32Load8U => "i32.load8_u",
        MemOpKind::I32Load16S => "i32.load16_s",
        MemOpKind::I32Load16U => "i32.load16_u",
        MemOpKind::I64Load8S => "i64.load8_s",
        MemOpKind::I64Load8U => "i64.load8_u",
        MemOpKind::I64Load16S => "i64.load16_s",
        MemOpKind::I64Load16U => "i64.load16_u",
        MemOpKind::I64Load32S => "i64.load32_s",
        MemOpKind::I64Load32U => "i64.load32_u",
        MemOpKind::I32Store => "i32.store",
        MemOpKind::I64Store => "i64.store",
        MemOpKind::F32Store => "f32.store",
        MemOpKind::F64Store => "f64.store",
        MemOpKind::I32Store8 => "i32.store8",
        MemOpKind::I32Store16 => "i32.store16",
        MemOpKind::I64Store8 => "i64.store8",
        MemOpKind::I64Store16 => "i64.store16",
        MemOpKind::I64Store32 => "i64.store32",
        MemOpKind::MemorySize => "memory.size",
        MemOpKind::MemoryGrow => "memory.grow",
        MemOpKind::MemoryFill => "memory.fill",
        MemOpKind::MemoryCopy => "memory.copy",
    };
    String::from_str(t)
}

/// The memory indices an instruction accesses, each with the name reported for it:
/// one for most memory instructions, two for `memory.copy`, none for the rest.
pub open spec fn memory_indices(op: OpSummary) -> Seq<(u32, Seq<char>)> {
    match op {
        OpSummary::Access { kind, memory, .. } => seq![(memory, kind_name(kind))],
        OpSummary::Copy { dst_mem, src_mem } => seq![
            (dst_mem, "memory.copy (dst)"@),
            (src_mem, "memory.copy (src)"@),
        ],
        _ => seq![],
    }
}

pub open spec fn index_views(s: Seq<(u32, String)>) -> Seq<(u32, Seq<char>)> {
    s.map_values(|x: (u32, String)| (x.0, x.1@))
}

/// Extract memory indices from a memory instruction (most have one, memory.copy has two).
pub fn extract_memory_indices(op: &OpSummary) -> (r: Vec<(u32, String)>)
    ensures
        index_views(r@) == memory_indices(*op),
{
    match op {
        OpSummary::Access { kind, memory, .. } => {
            let v = vec![(*memory, kind_name_string(*kind))];
            proof {
                assert(index_views(v@) =~= memory_indices(*op));
            }
            v
        },
        OpSummary::Copy { dst_mem, src_mem } => {
            let v = vec![
                (*dst_mem, String::from_str("memory.copy (dst)")),
                (*src_mem, String::from_str("memory.copy (src)")),
            ];
            proof {
                assert(index_views(v@) =~= memory_indices(*op));
            }
            v
        },
        _ => {
            let v: Vec<(u32, String)> = Vec::new();
            proof {
                assert(index_views(v@) =~= memory_indices(*op));
            }
            v
        },
    }
}

/// The memory instruction of `op` and its static offset.
pub open spec fn mem_op_spec(op: OpSummary) -> Option<(MemOpKind, u64)> {
    match op {
        OpSummary::Access { kind, offset, .. } => Some((kind, offset)),
        OpSummary::Copy { .. } => Some((MemOpKind::MemoryCopy, 0)),
        _ => None,
    }
}

/// The memory instruction of `op` and its static offset (0 for the
/// instructions without a memory argument).
pub fn mem_op_name_offset(op: &OpSummary) -> (r: Option<(MemOpKind, u64)>)
    ensures
        r == mem_op_spec(*op),
        summary_wf(*op) ==> (r matches Some((k, off)) ==> (is_bulk_kind(k) ==> off == 0)),
{
    match op {
        OpSummary::Access { kind, offset, .. } => Some((*kind, *offset)),
        OpSummary::Copy { .. } => Some((MemOpKind::MemoryCopy, 0)),
        _ => None,
    }
}

/// The value type of the operand a store writes, for the stores: its name
/// starts with `i32.store`, `i64.store`, `f32.store` or `f64.store`.
#[derive(PartialEq, Eq, Structural, Clone, Copy, Debug)]
pub enum StoreClass {
    I32,
    I64,
    F32,
    F64,
}

pub open spec fn store_class_spec(k: MemOpKind) -> Option<StoreClass> {
    match k {
        MemOpKind::I32Store | MemOpKind::I32Store8 | MemOpKind::I32Store16 => Some(StoreClass::I32),
        MemOpKind::I64Store | MemOpKind::I64Store8 | MemOpKind::I64Store16 | MemOpKind::I64Store32 => Some(StoreClass::I64),
        MemOpKind::F32Store => Some(StoreClass::F32),
        MemOpKind::F64Store => Some(StoreClass::F64),
        _ => None,
    }
}

pub fn store_class(k: MemOpKind) -> (r: Option<StoreClass>)
    ensures
        r == store_class_spec(k),
{
    match k {
        MemOpKind::I32Store | MemOpKind::I32Store8 | MemOpKind::I32Store16 => Some(StoreClass::I32),
        MemOpKind::I64Store | MemOpKind::I64Store8 | MemOpKind::I64Store16 | MemOpKind::I64Store32 => Some(StoreClass::I64),
        MemOpKind::F32Store => Some(StoreClass::F32),
        MemOpKind::F64Store => Some(StoreClass::F64),
        _ => None,
    }
}

/// The alignment exponent written for a re-emitted memory instruction: the
/// natural alignment of its access width (0 for the instructions without one).
pub open spec fn natural_align(k: MemOpKind) -> u32 {
    match k {
        MemOpKind::I32Load | MemOpKind::F32Load | MemOpKind::I64Load32S | MemOpKind::I64Load32U
        | MemOpKind::I32Store | MemOpKind::F32Store | MemOpKind::I64Store32 => 2,
        MemOpKind::I64Load | MemOpKind::F64Load | MemOpKind::I64Store | MemOpKind::F64Store => 3,
        MemOpKind::I32Load16S | MemOpKind::I32Load16U | MemOpKind::I64Load16S | MemOpKind::I64Load16U
        | MemOpKind::I32Store16 | MemOpKind::I64Store16 => 1,
        _ => 0,
    }
}

pub fn natural_align_of(k: MemOpKind) -> (r: u32)
    ensures
        r == natural_align(k),
{
    match k {
        MemOpKind::I32Load | MemOpKind::F32Load | MemOpKind::I64Load32S | MemOpKind::I64Load32U
        | MemOpKind::I32Store | MemOpKind::F32Store | MemOpKind::I64Store32 => 2,
        MemOpKind::I64Load | MemOpKind::F64Load | MemOpKind::I64Store | MemOpKind::F64Store => 3,
        MemOpKind::I32Load16S | MemOpKind::I32Load16U | MemOpKind::I64Load16S | MemOpKind::I64Load16U
        | MemOpKind::I32Store16 | MemOpKind::I64Store16 => 1,
        _ => 0,
    }
}

/// Reads what the library needs of one `wasmparser::Operator`.
pub fn summarize(op: &wasmparser::Operator) -> (r: OpSummary)
    ensures
        summary_wf(r),
{
    let access = match crate::bindings::load_access_a(op) {
        Some(a) => Some(a),
        None => match crate::bindings::load_access_b(op) {
            Some(a) => Some(a),
            None => crate::bindings::store_access(op),
        },
    };
    match access {
        Some((kind, m)) => {
            return match crate::bindings::memarg_memory(&m) {
                Some((memory, offset)) => OpSummary::Access { kind, memory, offset },
                None => OpSummary::Other,
            };
        },
        None => {},
    }
    match crate::bindings::bulk_memory_access(op) {
        Some((MemOpKind::MemoryCopy, dst_mem, src_mem)) => return OpSummary::Copy { dst_mem, src_mem },
        Some((kind, memory, _)) => return OpSummary::Access { kind, memory, offset: 0 },
        None => {},
    }
    crate::bindings::plain_op(op)
}

} // verus!
