//! Specialize merge: analyze the library, specialize state-touching functions
//! per consumer with baked-in memory/global indices, share pure functions.
//! Zero dispatch overhead, no separate rewrite step needed.

use vstd::prelude::*;
use vstd::string::StringExecFns;
use crate::analyze::{analyze_lib, LibAnalysis};
use crate::callgraph::reachable_from;
use crate::bindings::{
    parse_fails, payload_tags, PayloadTag,
    body_locals, body_operators, const_expr_ops, data_items, data_parts, element_items_strict, error_text,
    export_entry, export_items, func_param_count, func_types_strict, global_init, global_items, global_type, read_import, import_items,
    memory_desc, memory_items, parse_payloads, section_of, table_items, table_limits, u32_items, Section,
};
use crate::component::Component;
use crate::encode::{
    add_body, add_code_section, add_data_section, add_data_segment, add_element, add_element_section, add_export,
    add_export_section, add_func_type, add_function_section, add_global, add_global_section, add_import,
    add_import_section, add_memory, add_memory_section, add_table, add_table_section, add_type_section, bulk_instruction,
    declare_function, enc_const, enc_memarg, enc_memory_type, enc_table_type, funcref, enc_val_type, finish_module,
    kept_instruction, load_instruction_a, load_instruction_b, new_function, plain_instruction, push_instruction,
    scalar_val_type, store_instruction, ImportDesc,
};
use crate::linking::FuncImport;
use crate::model::{export_sort, ExportEntry, ExternKind, ImportEntry, ImportType, MemoryDesc, TableDesc};
use crate::ops::{natural_align_of, summarize, MemOpKind, OpSummary, StoreClass};
use crate::plan::PlannedExport;
use crate::rewrite::{instance_memory, consumer_op, lib_op, shell_body, specialize_op, Emit, SpecializeCtx};
use crate::sharing::{
    consumers_exports_upto, lib_exports_spec, plan_consumer_exports, plan_lib_exports, plan_sharing, SharingInputs,
    SpecializePlan,
};
use crate::linking::pairs_view;
use crate::plan::export_views;
use crate::text::{concat3, decimal, decimal_string};

verus! {

/// The initializer of a global or the offset of a data segment, as the merge
/// re-emits it.
#[derive(PartialEq, Eq, Structural, Clone, Copy, Debug)]
pub enum ConstInit {
    I32(i32),
    I64(i64),
}

/// The first `i32.const` or `i64.const` of a constant expression, before its
/// `end`; `i32.const 0` when there is none.
pub open spec fn const_init_spec(ops: Seq<OpSummary>) -> ConstInit
    decreases ops.len(),
{
    if ops.len() == 0 {
        ConstInit::I32(0)
    } else {
        match ops[0] {
            OpSummary::I32Const(v) => ConstInit::I32(v),
            OpSummary::I64Const(v) => ConstInit::I64(v),
            OpSummary::End => ConstInit::I32(0),
            _ => const_init_spec(ops.drop_first()),
        }
    }
}

pub fn const_init(ops: &Vec<OpSummary>) -> (r: ConstInit)
    ensures
        r == const_init_spec(ops@),
{
    let mut k: usize = 0;
    proof {
        assert(ops@.skip(0) =~= ops@);
    }
    while k < ops.len()
        invariant
            k <= ops.len(),
            const_init_spec(ops@) == const_init_spec(ops@.skip(k as int)),
        decreases ops.len() - k,
    {
        proof {
            assert(ops@.skip(k as int)[0] == ops@[k as int]);
            assert(ops@.skip(k as int).drop_first() =~= ops@.skip(k + 1));
        }
        match ops[k] {
            OpSummary::I32Const(v) => return ConstInit::I32(v),
            OpSummary::I64Const(v) => return ConstInit::I64(v),
            OpSummary::End => return ConstInit::I32(0),
            _ => {},
        }
        k += 1;
    }
    ConstInit::I32(0)
}

/// The initializer kept of a constant expression: its instructions are read up
/// to the first that does not parse.
pub fn convert_const_expr(e: &wasmparser::ConstExpr) -> ConstInit {
    let ops = const_expr_ops(e);
    let mut sums: Vec<OpSummary> = Vec::new();
    let mut k: usize = 0;
    while k < ops.len()
        decreases ops.len() - k,
    {
        match &ops[k] {
            Ok(op) => sums.push(summarize(op)),
            Err(_) => break,
        }
        k += 1;
    }
    const_init(&sums)
}

/// A global of the library.
pub struct GlobalDef {
    pub ty: wasmparser::ValType,
    pub mutable: bool,
    pub shared: bool,
    pub init: ConstInit,
}

/// A data segment of the library: active ones name their memory and offset.
pub struct DataDef {
    pub active: Option<(u32, ConstInit)>,
    pub bytes: Vec<u8>,
}

/// The sections of the library that the merged module is built from.
pub struct LibSections<'a> {
    pub types: Vec<wasmparser::FuncType>,
    /// Per type: its number of parameters.
    pub type_params: Vec<usize>,
    pub imports: Vec<ImportEntry>,
    /// The type of each function the function section declares.
    pub func_types: Vec<u32>,
    pub globals: Vec<GlobalDef>,
    pub memories: Vec<MemoryDesc>,
    pub tables: Vec<TableDesc>,
    pub exports: Vec<ExportEntry>,
    pub data: Vec<DataDef>,
    pub bodies: Vec<wasmparser::FunctionBody<'a>>,
    pub elements: Vec<wasmparser::Element<'a>>,
}

/// Reads the sections of the library; the first parse error comes back as its
/// text, and so does a type that is not a plain function type.
#[verifier::loop_isolation(false)]
pub fn scan_lib_sections<'a>(wasm: &'a [u8]) -> (r: Result<LibSections<'a>, String>)
    ensures
        parse_fails(wasm@) ==> r is Err,
        r matches Ok(s) ==> s.type_params.len() == s.types.len(),
{
    let mut s = LibSections {
        types: Vec::new(),
        type_params: Vec::new(),
        imports: Vec::new(),
        func_types: Vec::new(),
        globals: Vec::new(),
        memories: Vec::new(),
        tables: Vec::new(),
        exports: Vec::new(),
        data: Vec::new(),
        bodies: Vec::new(),
        elements: Vec::new(),
    };
    let (payloads, tags) = parse_payloads(wasm);
    let mut i: usize = 0;
    while i < payloads.len()
        invariant
            i <= payloads.len(),
            tags@ == payload_tags(wasm@),
            tags.len() == payloads.len(),
            forall|j: int| 0 <= j < payloads.len() ==> (payloads@[j] is Err <==> #[trigger] tags@[j] == PayloadTag::Failed),
            forall|j: int| 0 <= j < i ==> #[trigger] tags@[j] != PayloadTag::Failed,
            s.type_params.len() == s.types.len(),
        decreases payloads.len() - i,
    {
        match &payloads[i] {
            Err(e) => return Err(error_text(e)),
            Ok(p) => match section_of(p) {
                Section::Types(reader) => {
                    let mut items = match func_types_strict(reader) {
                        Ok(v) => v,
                        Err(e) => return Err(error_text(&e)),
                    };
                    let mut k: usize = 0;
                    while k < items.len()
                        invariant
                            k <= items.len(),
                            s.type_params.len() == s.types.len() + k,
                        decreases items.len() - k,
                    {
                        s.type_params.push(func_param_count(&items[k]));
                        k += 1;
                    }
                    s.types.append(&mut items);
                },
                Section::Imports(reader) => {
                    let items = import_items(reader);
                    let mut k: usize = 0;
                    while k < items.len()
                        invariant
                            s.type_params.len() == s.types.len(),
                        decreases items.len() - k,
                    {
                        match &items[k] {
                            Err(e) => return Err(error_text(e)),
                            Ok(imp) => s.imports.push(read_import(imp)),
                        }
                        k += 1;
                    }
                },
                Section::Functions(reader) => {
                    let items = u32_items(reader);
                    let mut k: usize = 0;
                    while k < items.len()
                        invariant
                            s.type_params.len() == s.types.len(),
                        decreases items.len() - k,
                    {
                        match &items[k] {
                            Err(e) => return Err(error_text(e)),
                            Ok(t) => s.func_types.push(*t),
                        }
                        k += 1;
                    }
                },
                Section::Globals(reader) => {
                    let items = global_items(reader);
                    let mut k: usize = 0;
                    while k < items.len()
                        invariant
                            s.type_params.len() == s.types.len(),
                        decreases items.len() - k,
                    {
                        match &items[k] {
                            Err(e) => return Err(error_text(e)),
                            Ok(g) => {
                                let (ty, mutable, shared) = global_type(g);
                                let init = convert_const_expr(&global_init(g));
                                s.globals.push(GlobalDef { ty, mutable, shared, init });
                            },
                        }
                        k += 1;
                    }
                },
                Section::Memories(reader) => {
                    let items = memory_items(reader);
                    let mut k: usize = 0;
                    while k < items.len()
                        invariant
                            s.type_params.len() == s.types.len(),
                        decreases items.len() - k,
                    {
                        match &items[k] {
                            Err(e) => return Err(error_text(e)),
                            Ok(m) => s.memories.push(memory_desc(m)),
                        }
                        k += 1;
                    }
                },
                Section::Tables(reader) => {
                    let items = table_items(reader);
                    let mut k: usize = 0;
                    while k < items.len()
                        invariant
                            s.type_params.len() == s.types.len(),
                        decreases items.len() - k,
                    {
                        match &items[k] {
                            Err(e) => return Err(error_text(e)),
                            Ok(t) => s.tables.push(table_limits(t)),
                        }
                        k += 1;
                    }
                },
                Section::Exports(reader) => {
                    let items = export_items(reader);
                    let mut k: usize = 0;
                    while k < items.len()
                        invariant
                            s.type_params.len() == s.types.len(),
                        decreases items.len() - k,
                    {
                        match &items[k] {
                            Err(e) => return Err(error_text(e)),
                            Ok(e) => s.exports.push(export_entry(e)),
                        }
                        k += 1;
                    }
                },
                Section::Data(reader) => {
                    let items = data_items(reader);
                    let mut k: usize = 0;
                    while k < items.len()
                        invariant
                            s.type_params.len() == s.types.len(),
                        decreases items.len() - k,
                    {
                        match &items[k] {
                            Err(e) => return Err(error_text(e)),
                            Ok(d) => {
                                let (kind, bytes) = data_parts(d);
                                let active = match kind {
                                    Some((mi, off)) => Some((mi, convert_const_expr(&off))),
                                    None => None,
                                };
                                s.data.push(DataDef { active, bytes });
                            },
                        }
                        k += 1;
                    }
                },
                Section::Elements(reader) => {
                    let mut items = match element_items_strict(reader) {
                        Ok(v) => v,
                        Err(e) => return Err(error_text(&e)),
                    };
                    s.elements.append(&mut items);
                },
                Section::CodeEntry(body) => s.bodies.push(body),
                _ => {},
            },
        }
        i += 1;
    }
    Ok(s)
}

/// What the merge reads of a consumer.
pub struct ConsumerScan<'a> {
    pub types: Vec<wasmparser::FuncType>,
    /// The type of each function its function section declares (entries that
    /// do not parse are passed over).
    pub func_types: Vec<u32>,
    /// Its exports (entries that do not parse are passed over).
    pub exports: Vec<ExportEntry>,
    pub bodies: Vec<wasmparser::FunctionBody<'a>>,
}

/// Reads a consumer, and its function imports in order; the first error in its
/// sections, its types or its imports comes back as its text.
#[verifier::loop_isolation(false)]
pub fn scan_consumer<'a>(wasm: &'a [u8]) -> (r: Result<(ConsumerScan<'a>, Vec<FuncImport>), String>)
    ensures
        parse_fails(wasm@) ==> r is Err,
{
    let mut imports: Vec<FuncImport> = Vec::new();
    let mut s = ConsumerScan {
        types: Vec::new(),
        func_types: Vec::new(),
        exports: Vec::new(),
        bodies: Vec::new(),
    };
    let (payloads, tags) = parse_payloads(wasm);
    let mut i: usize = 0;
    while i < payloads.len()
        invariant
            i <= payloads.len(),
            tags@ == payload_tags(wasm@),
            tags.len() == payloads.len(),
            forall|j: int| 0 <= j < payloads.len() ==> (payloads@[j] is Err <==> #[trigger] tags@[j] == PayloadTag::Failed),
            forall|j: int| 0 <= j < i ==> #[trigger] tags@[j] != PayloadTag::Failed,
        decreases payloads.len() - i,
    {
        match &payloads[i] {
            Err(e) => return Err(error_text(e)),
            Ok(p) => match section_of(p) {
                Section::Types(reader) => {
                    let mut items = match func_types_strict(reader) {
                        Ok(v) => v,
                        Err(e) => return Err(error_text(&e)),
                    };
                    s.types.append(&mut items);
                },
                Section::Imports(reader) => {
                    let items = import_items(reader);
                    let mut k: usize = 0;
                    while k < items.len()
                        decreases items.len() - k,
                    {
                        match &items[k] {
                            Err(e) => return Err(error_text(e)),
                            Ok(imp) => {
                                let entry = read_import(imp);
                                match entry.ty {
                                    ImportType::Func(ty) => imports.push(
                                        FuncImport { module: entry.module, name: entry.field, ty },
                                    ),
                                    _ => {},
                                }
                            },
                        }
                        k += 1;
                    }
                },
                Section::Functions(reader) => {
                    let items = u32_items(reader);
                    let mut k: usize = 0;
                    while k < items.len()
                        decreases items.len() - k,
                    {
                        match &items[k] {
                            Ok(t) => s.func_types.push(*t),
                            Err(_) => {},
                        }
                        k += 1;
                    }
                },
                Section::Exports(reader) => {
                    let items = export_items(reader);
                    let mut k: usize = 0;
                    while k < items.len()
                        decreases items.len() - k,
                    {
                        match &items[k] {
                            Ok(e) => s.exports.push(export_entry(e)),
                            Err(_) => {},
                        }
                        k += 1;
                    }
                },
                Section::CodeEntry(body) => s.bodies.push(body),
                _ => {},
            },
        }
        i += 1;
    }
    Ok((s, imports))
}

/// The local declarations of a body, converted for the encoder.
fn read_locals(body: &wasmparser::FunctionBody) -> Result<Vec<(u32, wasm_encoder::ValType)>, String> {
    let groups = match body_locals(body) {
        Ok(g) => g,
        Err(e) => return Err(error_text(&e)),
    };
    let mut out: Vec<(u32, wasm_encoder::ValType)> = Vec::new();
    let mut k: usize = 0;
    while k < groups.len()
        decreases groups.len() - k,
    {
        match &groups[k] {
            Err(e) => return Err(error_text(e)),
            Ok((count, ty)) => match enc_val_type(*ty) {
                Ok(t) => out.push((*count, t)),
                Err(e) => return Err(e),
            },
        }
        k += 1;
    }
    Ok(out)
}

/// The number of locals a body declares (32-bit wrapping sum).
fn declared_locals(body: &wasmparser::FunctionBody) -> Result<u32, String> {
    let groups = match body_locals(body) {
        Ok(g) => g,
        Err(e) => return Err(error_text(&e)),
    };
    let mut total: u32 = 0;
    let mut k: usize = 0;
    while k < groups.len()
        decreases groups.len() - k,
    {
        match &groups[k] {
            Err(e) => return Err(error_text(e)),
            Ok((count, _)) => total = total.wrapping_add(*count),
        }
        k += 1;
    }
    Ok(total)
}

/// The instructions of a body; the first that does not parse fails the read.
fn read_ops<'a>(body: &wasmparser::FunctionBody<'a>) -> Result<Vec<wasmparser::Operator<'a>>, String> {
    let mut items = match body_operators(body) {
        Ok(v) => v,
        Err(e) => return Err(error_text(&e)),
    };
    let mut k: usize = 0;
    while k < items.len()
        decreases items.len() - k,
    {
        match &items[k] {
            Err(e) => return Err(error_text(e)),
            Ok(_) => {},
        }
        k += 1;
    }
    let mut reversed: Vec<wasmparser::Operator<'a>> = Vec::new();
    while items.len() > 0
        decreases items.len(),
    {
        match items.pop() {
            Some(Ok(op)) => reversed.push(op),
            _ => {},
        }
    }
    let mut out: Vec<wasmparser::Operator<'a>> = Vec::new();
    while reversed.len() > 0
        decreases reversed.len(),
    {
        match reversed.pop() {
            Some(op) => out.push(op),
            None => {},
        }
    }
    Ok(out)
}

/// Writes a memory instruction on memory `m`, with static offset `offset` and
/// the natural alignment of its access (`memory.copy` copies from `src`).
fn write_memory(f: &mut wasm_encoder::Function, kind: MemOpKind, m: u32, src: u32, offset: u64) {
    let ma = enc_memarg(offset, natural_align_of(kind), m);
    let i = match load_instruction_a(kind, ma) {
        Some(i) => Some(i),
        None => match load_instruction_b(kind, ma) {
            Some(i) => Some(i),
            None => match store_instruction(kind, ma) {
                Some(i) => Some(i),
                None => bulk_instruction(kind, m, src),
            },
        },
    };
    match i {
        Some(i) => push_instruction(f, &i),
        None => {},
    }
}

/// Writes the instructions planned for `op`.
fn write_emits(f: &mut wasm_encoder::Function, emits: &Vec<Emit>, op: &wasmparser::Operator) -> Result<(), String> {
    let mut k: usize = 0;
    while k < emits.len()
        decreases emits.len() - k,
    {
        match emits[k] {
            Emit::Keep => match kept_instruction(op) {
                Ok(i) => push_instruction(f, &i),
                Err(e) => return Err(e),
            },
            Emit::Plain(p) => push_instruction(f, &plain_instruction(p)),
            Emit::Memory { kind, memory } => write_memory(f, kind, memory, memory, 0),
            Emit::MemoryAt { kind, memory, offset } => write_memory(f, kind, memory, memory, offset),
            Emit::CopyBetween { dst, src } => write_memory(f, MemOpKind::MemoryCopy, dst, src, 0),
        }
        k += 1;
    }
    Ok(())
}

/// Copies a library body, its calls moved past the `fshift` functions imported
/// in front of the library's and its global accesses moved to the globals'
/// first slots.
fn emit_lib_body(code: &mut wasm_encoder::CodeSection, body: &wasmparser::FunctionBody, fshift: u32, global_base: &Vec<u32>)
    -> Result<(), String>
{
    let locals = match read_locals(body) {
        Ok(l) => l,
        Err(e) => return Err(e),
    };
    let mut f = new_function(locals);
    let ops = match read_ops(body) {
        Ok(o) => o,
        Err(e) => return Err(e),
    };
    let mut k: usize = 0;
    while k < ops.len()
        decreases ops.len() - k,
    {
        let emits = lib_op(summarize(&ops[k]), fshift, global_base);
        match write_emits(&mut f, &emits, &ops[k]) {
            Ok(()) => {},
            Err(e) => return Err(e),
        }
        k += 1;
    }
    add_body(code, &f);
    Ok(())
}

/// Writes one specialized copy: the body's locals and four scratch locals
/// (`i32`, `i64`, `f32`, `f64`), each instruction rewritten by `ctx`.
fn emit_specialized_body(code: &mut wasm_encoder::CodeSection, body: &wasmparser::FunctionBody, ctx: &SpecializeCtx)
    -> Result<(), String>
{
    let mut locals = match read_locals(body) {
        Ok(l) => l,
        Err(e) => return Err(e),
    };
    locals.push((1, scalar_val_type(StoreClass::I32)));
    locals.push((1, scalar_val_type(StoreClass::I64)));
    locals.push((1, scalar_val_type(StoreClass::F32)));
    locals.push((1, scalar_val_type(StoreClass::F64)));
    let mut f = new_function(locals);
    let ops = match read_ops(body) {
        Ok(o) => o,
        Err(e) => return Err(e),
    };
    let mut k: usize = 0;
    while k < ops.len()
        decreases ops.len() - k,
    {
        let emits = match specialize_op(summarize(&ops[k]), ctx) {
            Some(v) => v,
            None => return Err(String::from_str("a mutable global has no slot in the global layout")),
        };
        match write_emits(&mut f, &emits, &ops[k]) {
            Ok(()) => {},
            Err(e) => return Err(e),
        }
        k += 1;
    }
    add_body(code, &f);
    Ok(())
}

/// Copies a consumer body, its calls redirected as `remap`, `imported` and
/// `base` say and its memory instructions moved to instance `inst`'s copies of
/// the memories (of `n`).
fn emit_consumer_body(
    code: &mut wasm_encoder::CodeSection,
    body: &wasmparser::FunctionBody,
    remap: &Vec<Option<u32>>,
    imported: u32,
    base: u32,
    n: u32,
    inst: u32,
) -> Result<(), String> {
    let locals = match read_locals(body) {
        Ok(l) => l,
        Err(e) => return Err(e),
    };
    let mut f = new_function(locals);
    let ops = match read_ops(body) {
        Ok(o) => o,
        Err(e) => return Err(e),
    };
    let mut k: usize = 0;
    while k < ops.len()
        decreases ops.len() - k,
    {
        let emits = consumer_op(summarize(&ops[k]), remap, imported, base, n, inst);
        match write_emits(&mut f, &emits, &ops[k]) {
            Ok(()) => {},
            Err(e) => return Err(e),
        }
        k += 1;
    }
    add_body(code, &f);
    Ok(())
}

/// Writes a shell wrapper: its parameters passed on to `target`.
fn emit_shell(code: &mut wasm_encoder::CodeSection, params: u32, target: u32) {
    let mut f = new_function(Vec::new());
    let emits = shell_body(params, target);
    let mut k: usize = 0;
    while k < emits.len()
        decreases emits.len() - k,
    {
        match emits[k] {
            Emit::Plain(p) => push_instruction(&mut f, &plain_instruction(p)),
            _ => {},
        }
        k += 1;
    }
    add_body(code, &f);
}

/// Where shell wrapper `e` of consumer `c` calls.
fn shell_target_of(plan: &SpecializePlan, e: usize, c: usize) -> (r: u32)
    requires
        e < plan.st_exports.len(),
        c < plan.targets.len(),
    ensures
        r == plan.shell_target(e as int, c as int),
{
    let f = plan.st_exports[e].1;
    if (f as usize) < plan.targets[c].len() {
        match plan.targets[c][f as usize] {
            Some(t) => t,
            None => f.wrapping_add(plan.fshift),
        }
    } else {
        f.wrapping_add(plan.fshift)
    }
}

/// Everything the merged module is built from.
pub struct SpecializeInput<'a> {
    pub a: LibAnalysis,
    pub lib: LibSections<'a>,
    pub consumers: Vec<ConsumerScan<'a>>,
    pub inp: SharingInputs,
}

impl<'a> SpecializeInput<'a> {
    /// The plan's inputs describe the scanned sections.
    pub open spec fn wf(&self) -> bool {
        &&& self.a.wf()
        &&& self.inp.wf()
        &&& self.consumers.len() == self.inp.imports.len()
        &&& forall|c: int|
            0 <= c < self.consumers.len() ==> self.inp.type_counts@[c] == (#[trigger] self.consumers@[c]).types.len()
        &&& forall|c: int|
            0 <= c < self.consumers.len() ==> self.inp.func_counts@[c] == (#[trigger] self.consumers@[c]).func_types.len()
        &&& self.lib.type_params.len() == self.lib.types.len()
        &&& self.inp.lib_defined == self.lib.func_types.len()
        &&& self.inp.lib_types == self.lib.types.len()
    }
}

/// Whether the exports of module `mi` are kept: all modules' are when no
/// module is named, else only those of the named one.
pub open spec fn module_kept(from: Option<usize>, mi: usize) -> bool {
    from is None || from == Some(mi)
}

/// Per consumer: whether its exports are kept.
pub fn kept_consumers(from: Option<usize>, consumer_indices: &Vec<usize>) -> (r: Vec<bool>)
    ensures
        r.len() == consumer_indices.len(),
        forall|c: int| 0 <= c < r.len() ==> (#[trigger] r@[c]) == module_kept(from, consumer_indices@[c]),
{
    let mut r: Vec<bool> = Vec::new();
    let mut c: usize = 0;
    while c < consumer_indices.len()
        invariant
            c <= consumer_indices.len(),
            r.len() == c,
            forall|d: int| 0 <= d < c ==> (#[trigger] r@[d]) == module_kept(from, consumer_indices@[d]),
        decreases consumer_indices.len() - c,
    {
        let k = match from {
            None => true,
            Some(m) => m == consumer_indices[c],
        };
        r.push(k);
        c += 1;
    }
    r
}

/// The exports of the merged module: the library's if they are kept, then
/// those of each kept consumer.
pub open spec fn specialized_exports_spec(x: SpecializeInput, plan: SpecializePlan, keep_lib: bool, keep: Seq<bool>)
    -> Option<Seq<(Seq<char>, ExternKind, u32)>>
{
    let lib = if keep_lib {
        lib_exports_spec(x.lib.exports@, pairs_view(plan.st_exports@), plan.fshift, plan.shell_base, plan.n)
    } else {
        Some(seq![])
    };
    match lib {
        Some(l) => Some(l + consumers_exports_upto(
            x.consumers@.map_values(|s: ConsumerScan| s.exports@),
            x.inp.imports@.map_values(|v: Vec<FuncImport>| v.len() as u32),
            plan.func_bases@,
            keep,
            plan.n as int,
        )),
        None => None,
    }
}

/// The exports of the merged module; `None` when a kept state-touching library
/// export needs a shell wrapper and there is no consumer.
pub fn plan_all_exports(x: &SpecializeInput, plan: &SpecializePlan, keep_lib: bool, keep: &Vec<bool>)
    -> (r: Option<Vec<PlannedExport>>)
    requires
        x.wf(),
        plan.valid(x.a, x.inp),
        keep.len() == x.consumers.len(),
    ensures
        match r {
            Some(v) => specialized_exports_spec(*x, *plan, keep_lib, keep@) == Some(export_views(v@)),
            None => specialized_exports_spec(*x, *plan, keep_lib, keep@) is None,
        },
{
    let mut out = if keep_lib {
        match plan_lib_exports(&x.lib.exports, plan) {
            Some(v) => v,
            None => return None,
        }
    } else {
        Vec::new()
    };
    let ghost cons = x.consumers@.map_values(|s: ConsumerScan| s.exports@);
    let ghost imported = x.inp.imports@.map_values(|v: Vec<FuncImport>| v.len() as u32);
    let ghost lib_part = export_views(out@);
    proof {
        if !keep_lib {
            assert(lib_part =~= seq![]);
        }
    }
    let mut c: usize = 0;
    while c < x.consumers.len()
        invariant
            x.wf(),
            plan.valid(x.a, x.inp),
            keep.len() == x.consumers.len(),
            cons == x.consumers@.map_values(|s: ConsumerScan| s.exports@),
            imported == x.inp.imports@.map_values(|v: Vec<FuncImport>| v.len() as u32),
            c <= x.consumers.len(),
            export_views(out@) == lib_part + consumers_exports_upto(cons, imported, plan.func_bases@, keep@, c as int),
        decreases x.consumers.len() - c,
    {
        if keep[c] {
            let imported_c = x.inp.imports[c].len() as u32;
            let mut part = plan_consumer_exports(&x.consumers[c].exports, c as u32, imported_c, plan.func_bases[c]);
            let ghost before = out@;
            let ghost old_part = part@;
            out.append(&mut part);
            proof {
                assert(export_views(out@) =~= export_views(before) + export_views(old_part));
            }
        }
        c += 1;
    }
    Some(out)
}

/// The position of the first occurrence of `v` in `s`, which holds it at `k`.
fn first_index(s: &Vec<usize>, k: usize) -> (r: usize)
    requires
        k < s.len(),
    ensures
        r <= k,
        s@[r as int] == s@[k as int],
        forall|j: int| 0 <= j < r ==> s@[j] != s@[k as int],
{
    let mut i: usize = 0;
    while i < k
        invariant
            i <= k < s.len(),
            forall|j: int| 0 <= j < i ==> s@[j] != s@[k as int],
        decreases k - i,
    {
        if s[i] == s[k] {
            return i;
        }
        i += 1;
    }
    k
}

/// The type section: the library's types, then the types of the imports that
/// stay imports, then each consumer's types.
fn build_types(x: &SpecializeInput, plan: &SpecializePlan) -> Result<wasm_encoder::TypeSection, String>
    requires
        x.wf(),
        plan.valid(x.a, x.inp),
{
    let mut sec = wasm_encoder::TypeSection::new();
    let mut k: usize = 0;
    while k < x.lib.types.len()
        decreases x.lib.types.len() - k,
    {
        match add_func_type(&mut sec, &x.lib.types[k]) {
            Ok(()) => {},
            Err(e) => return Err(e),
        }
        k += 1;
    }
    let mut k: usize = 0;
    while k < plan.keys.len()
        invariant
            x.wf(),
            plan.valid(x.a, x.inp),
        decreases plan.keys.len() - k,
    {
        let c = plan.keys[k].consumer;
        let t = plan.keys[k].ty as usize;
        match add_func_type(&mut sec, &x.consumers[c].types[t]) {
            Ok(()) => {},
            Err(e) => return Err(e),
        }
        k += 1;
    }
    let mut c: usize = 0;
    while c < x.consumers.len()
        decreases x.consumers.len() - c,
    {
        let types = &x.consumers[c].types;
        let mut k: usize = 0;
        while k < types.len()
            decreases types.len() - k,
        {
            match add_func_type(&mut sec, &types[k]) {
                Ok(()) => {},
                Err(e) => return Err(e),
            }
            k += 1;
        }
        c += 1;
    }
    Ok(sec)
}

/// The type index of shell wrapper row `e`: the library's declared type of
/// the exported function.
fn shell_type(x: &SpecializeInput, plan: &SpecializePlan, e: usize) -> (r: Result<u32, String>)
    requires
        e < plan.st_exports.len(),
    ensures
        ({
            let fi = plan.st_exports@[e as int].1;
            let ni = x.a.num_imported_functions;
            if fi < ni || fi - ni >= x.lib.func_types.len() {
                r matches Err(msg) && msg@ == "exported function "@ + decimal(fi as nat) + " has no declared type"@
            } else {
                r == Ok::<u32, String>(x.lib.func_types@[fi - ni])
            }
        }),
{
    let fi = plan.st_exports[e].1;
    let ni = x.a.num_imported_functions;
    if fi < ni || (fi - ni) as usize >= x.lib.func_types.len() {
        return Err(concat3("exported function ", decimal_string(fi as u64).as_str(), " has no declared type"));
    }
    Ok(x.lib.func_types[(fi - ni) as usize])
}

/// Every library function that some consumer gets a copy of has a recorded type.
pub open spec fn copies_typed(x: SpecializeInput, plan: SpecializePlan) -> bool {
    forall|c: int, f: int|
        0 <= c < plan.needed.len() && 0 <= f < x.a.num_functions && #[trigger] plan.needed@[c]@[f]
            ==> f < x.a.func_type_indices.len()
}

/// The function behind state-touching export row `e` is one the library declares.
pub open spec fn shell_typed(x: SpecializeInput, plan: SpecializePlan, e: int) -> bool {
    let fi = plan.st_exports@[e].1;
    x.a.num_imported_functions <= fi && fi - x.a.num_imported_functions < x.lib.func_types.len()
}

/// Every state-touching export row has a declared type.
pub open spec fn shells_typed(x: SpecializeInput, plan: SpecializePlan) -> bool {
    forall|e: int| 0 <= e < plan.st_exports.len() ==> #[trigger] shell_typed(x, plan, e)
}

/// The function section: the library's functions, the specialized copies
/// (consumer by consumer, each in library order), the shell wrappers (one row
/// per state-touching export, one wrapper per consumer) and each consumer's
/// functions with their types moved to the consumer's type block.
fn build_functions(x: &SpecializeInput, plan: &SpecializePlan, consumer_indices: &Vec<usize>)
    -> (r: Result<wasm_encoder::FunctionSection, String>)
    requires
        x.wf(),
        plan.valid(x.a, x.inp),
        consumer_indices.len() == x.consumers.len(),
    ensures
        r is Ok <==> copies_typed(*x, *plan) && shells_typed(*x, *plan),
{
    let mut sec = wasm_encoder::FunctionSection::new();
    let mut k: usize = 0;
    while k < x.lib.func_types.len()
        decreases x.lib.func_types.len() - k,
    {
        declare_function(&mut sec, x.lib.func_types[k]);
        k += 1;
    }
    let nf = x.a.num_functions as usize;
    let mut c: usize = 0;
    while c < plan.needed.len()
        invariant
            x.wf(),
            plan.valid(x.a, x.inp),
            nf == x.a.num_functions,
            c <= plan.needed.len(),
            forall|c2: int, f2: int|
                0 <= c2 < c && 0 <= f2 < nf && #[trigger] plan.needed@[c2]@[f2] ==> f2 < x.a.func_type_indices.len(),
        decreases plan.needed.len() - c,
    {
        let mut f: usize = 0;
        while f < nf
            invariant
                x.wf(),
                plan.valid(x.a, x.inp),
                nf == x.a.num_functions,
                c < plan.needed.len(),
                f <= nf,
                forall|c2: int, f2: int|
                    0 <= c2 < c && 0 <= f2 < nf && #[trigger] plan.needed@[c2]@[f2] ==> f2 < x.a.func_type_indices.len(),
                forall|f2: int| 0 <= f2 < f && #[trigger] plan.needed@[c as int]@[f2] ==> f2 < x.a.func_type_indices.len(),
            decreases nf - f,
        {
            if plan.needed[c][f] {
                if f >= x.a.func_type_indices.len() {
                    proof {
                        assert(plan.needed@[c as int]@[f as int]);
                    }
                    return Err(concat3("function ", decimal_string(f as u64).as_str(), " has no declared type"));
                }
                declare_function(&mut sec, x.a.func_type_indices[f]);
            }
            f += 1;
        }
        c += 1;
    }
    assert(copies_typed(*x, *plan));
    let mut e: usize = 0;
    while e < plan.st_exports.len()
        invariant
            x.wf(),
            plan.valid(x.a, x.inp),
            copies_typed(*x, *plan),
            e <= plan.st_exports.len(),
            forall|e2: int| 0 <= e2 < e ==> #[trigger] shell_typed(*x, *plan, e2),
        decreases plan.st_exports.len() - e,
    {
        let ty = match shell_type(x, plan, e) {
            Ok(t) => t,
            Err(err) => {
                proof {
                    assert(!shell_typed(*x, *plan, e as int));
                }
                return Err(err);
            },
        };
        let mut c: u32 = 0;
        while c < plan.n
            decreases plan.n - c,
        {
            declare_function(&mut sec, ty);
            c += 1;
        }
        e += 1;
    }
    let mut c: usize = 0;
    while c < x.consumers.len()
        invariant
            x.wf(),
            plan.valid(x.a, x.inp),
            consumer_indices.len() == x.consumers.len(),
            copies_typed(*x, *plan),
            shells_typed(*x, *plan),
        decreases x.consumers.len() - c,
    {
        let pos = first_index(consumer_indices, c);
        let off = plan.type_offsets[pos];
        let fts = &x.consumers[c].func_types;
        let mut k: usize = 0;
        while k < fts.len()
            decreases fts.len() - k,
        {
            declare_function(&mut sec, off.wrapping_add(fts[k]));
            k += 1;
        }
        c += 1;
    }
    Ok(sec)
}

/// Library function `f`, copied for some consumer, has a body and a type
/// whose parameter count is known.
pub open spec fn copy_has_body(x: SpecializeInput, f: int) -> bool {
    &&& f - x.a.num_imported_functions < x.lib.bodies.len()
    &&& f < x.a.func_type_indices.len()
    &&& x.a.func_type_indices@[f] < x.lib.type_params.len()
}

/// Every library function that some consumer gets a copy of has a body to
/// specialize.
pub open spec fn copies_have_bodies(x: SpecializeInput, plan: SpecializePlan) -> bool {
    forall|c: int, f: int|
        0 <= c < plan.needed.len() && 0 <= f < x.a.num_functions && #[trigger] plan.needed@[c]@[f]
            ==> copy_has_body(x, f)
}

/// The declared type of the function behind export row `e` has a known
/// parameter count.
pub open spec fn shell_has_params(x: SpecializeInput, plan: SpecializePlan, e: int) -> bool {
    &&& shell_typed(x, plan, e)
    &&& x.lib.func_types@[plan.st_exports@[e].1 - x.a.num_imported_functions] < x.lib.type_params.len()
}

/// Every state-touching export row has a shell wrapper type with a known
/// parameter count.
pub open spec fn shells_have_params(x: SpecializeInput, plan: SpecializePlan) -> bool {
    forall|e: int| 0 <= e < plan.st_exports.len() ==> #[trigger] shell_has_params(x, plan, e)
}

/// The code section, in the order of the function section.
fn build_code(x: &SpecializeInput, plan: &SpecializePlan) -> (r: Result<wasm_encoder::CodeSection, String>)
    requires
        x.wf(),
        plan.valid(x.a, x.inp),
    ensures
        r is Ok ==> copies_have_bodies(*x, *plan) && shells_have_params(*x, *plan),
{
    let mut code = wasm_encoder::CodeSection::new();
    let mut k: usize = 0;
    while k < x.lib.bodies.len()
        decreases x.lib.bodies.len() - k,
    {
        match emit_lib_body(&mut code, &x.lib.bodies[k], plan.fshift, &plan.global_base) {
            Ok(()) => {},
            Err(e) => return Err(e),
        }
        k += 1;
    }
    let ni = x.a.num_imported_functions;
    let nf = x.a.num_functions;
    let mut c: usize = 0;
    while c < plan.needed.len()
        invariant
            x.wf(),
            plan.valid(x.a, x.inp),
            ni == x.a.num_imported_functions,
            nf == x.a.num_functions,
            c <= plan.needed.len(),
            forall|c2: int, f2: int|
                0 <= c2 < c && 0 <= f2 < nf && #[trigger] plan.needed@[c2]@[f2] ==> copy_has_body(*x, f2),
        decreases plan.needed.len() - c,
    {
        let mut ctx = SpecializeCtx {
            inst: c as u32,
            fshift: plan.fshift,
            temp_base: 0,
            mutable: x.a.mutable_globals.clone(),
            global_base: plan.global_base.clone(),
            targets: plan.targets[c].clone(),
        };
        let mut f: u32 = 0;
        while f < nf
            invariant
                x.wf(),
                plan.valid(x.a, x.inp),
                ni == x.a.num_imported_functions,
                nf == x.a.num_functions,
                c < plan.needed.len(),
                f <= nf,
                forall|c2: int, f2: int|
                    0 <= c2 < c && 0 <= f2 < nf && #[trigger] plan.needed@[c2]@[f2] ==> copy_has_body(*x, f2),
                forall|f2: int| 0 <= f2 < f && #[trigger] plan.needed@[c as int]@[f2] ==> copy_has_body(*x, f2),
            decreases nf - f,
        {
            if plan.needed[c][f as usize] {
                proof {
                    assert(reachable_from(x.a.state_touching@, x.a.callees@, ni, plan.entries@[c as int]@, f));
                }
                let bi = (f - ni) as usize;
                if bi >= x.lib.bodies.len() || f as usize >= x.a.func_type_indices.len() {
                    return Err(concat3("function ", decimal_string(f as u64).as_str(), " has no body to specialize"));
                }
                let oti = x.a.func_type_indices[f as usize] as usize;
                if oti >= x.lib.type_params.len() {
                    return Err(concat3("function ", decimal_string(f as u64).as_str(), " has a type index out of range"));
                }
                let declared = match declared_locals(&x.lib.bodies[bi]) {
                    Ok(d) => d,
                    Err(e) => return Err(e),
                };
                ctx.temp_base = (x.lib.type_params[oti] as u32).wrapping_add(declared);
                match emit_specialized_body(&mut code, &x.lib.bodies[bi], &ctx) {
                    Ok(()) => {},
                    Err(e) => return Err(e),
                }
            }
            f += 1;
        }
        c += 1;
    }
    assert(copies_have_bodies(*x, *plan));
    let mut e: usize = 0;
    while e < plan.st_exports.len()
        invariant
            x.wf(),
            plan.valid(x.a, x.inp),
            copies_have_bodies(*x, *plan),
            e <= plan.st_exports.len(),
            forall|e2: int| 0 <= e2 < e ==> #[trigger] shell_has_params(*x, *plan, e2),
        decreases plan.st_exports.len() - e,
    {
        let ty = match shell_type(x, plan, e) {
            Ok(t) => t as usize,
            Err(err) => return Err(err),
        };
        if ty >= x.lib.type_params.len() {
            return Err(String::from_str("an exported function has a type index out of range"));
        }
        assert(shell_has_params(*x, *plan, e as int));
        let params = x.lib.type_params[ty] as u32;
        let mut c: usize = 0;
        while c < plan.n as usize
            invariant
                x.wf(),
                plan.valid(x.a, x.inp),
                e < plan.st_exports.len(),
                copies_have_bodies(*x, *plan),
                forall|e2: int| 0 <= e2 <= e ==> #[trigger] shell_has_params(*x, *plan, e2),
            decreases plan.n - c,
        {
            emit_shell(&mut code, params, shell_target_of(plan, e, c));
            c += 1;
        }
        e += 1;
    }
    let mut c: usize = 0;
    while c < x.consumers.len()
        invariant
            x.wf(),
            plan.valid(x.a, x.inp),
            copies_have_bodies(*x, *plan),
            shells_have_params(*x, *plan),
        decreases x.consumers.len() - c,
    {
        let imported = x.inp.imports[c].len() as u32;
        let bodies = &x.consumers[c].bodies;
        let mut k: usize = 0;
        while k < bodies.len()
            invariant
                x.wf(),
                plan.valid(x.a, x.inp),
                c < x.consumers.len(),
                copies_have_bodies(*x, *plan),
                shells_have_params(*x, *plan),
            decreases bodies.len() - k,
        {
            match emit_consumer_body(&mut code, &bodies[k], &plan.remaps[c], imported, plan.func_bases[c], plan.n, c as u32) {
                Ok(()) => {},
                Err(e) => return Err(e),
            }
            k += 1;
        }
        c += 1;
    }
    Ok(code)
}

/// The import section: the consumer imports that stay imports (typed from
/// the block after the library's types), then the library's function and
/// global imports (its memory imports are dropped: each consumer brings its
/// own copies).
fn build_imports(x: &SpecializeInput, plan: &SpecializePlan) -> Result<wasm_encoder::ImportSection, String>
    requires
        x.wf(),
        plan.valid(x.a, x.inp),
{
    let mut sec = wasm_encoder::ImportSection::new();
    let base = x.lib.types.len() as u32;
    let mut k: usize = 0;
    while k < plan.keys.len()
        invariant
            x.wf(),
            plan.valid(x.a, x.inp),
            base == x.lib.types.len(),
        decreases plan.keys.len() - k,
    {
        let u = &plan.keys[k];
        add_import(&mut sec, u.module.as_str(), u.name.as_str(), ImportDesc::Function(base + k as u32));
        k += 1;
    }
    let mut k: usize = 0;
    while k < x.lib.imports.len()
        decreases x.lib.imports.len() - k,
    {
        let imp = &x.lib.imports[k];
        match imp.ty {
            ImportType::Func(ti) => add_import(&mut sec, imp.module.as_str(), imp.field.as_str(), ImportDesc::Function(ti)),
            ImportType::Global { ty, mutable, shared } => {
                match enc_val_type(ty) {
                    Ok(v) => add_import(&mut sec, imp.module.as_str(), imp.field.as_str(), ImportDesc::Global(v, mutable, shared)),
                    Err(e) => return Err(e),
                }
            },
            _ => {},
        }
        k += 1;
    }
    Ok(sec)
}

/// Specialize merge: merge consumers + library with per-instance specialization.
///
/// `lib_idx`: index of the library module in `component.modules`
/// `consumer_indices`: indices of consumer modules
/// `exports_from`: which module's exports to keep (its index in
/// `component.modules`); every module's when `None`.
///
/// The layout is `sharing::plan_sharing`'s, each instruction is rewritten as
/// the `rewrite` module says, and the exports are `plan_all_exports`'.
pub fn specialize_merge(
    component: &Component,
    lib_idx: usize,
    consumer_indices: &Vec<usize>,
    exports_from: Option<usize>,
) -> (r: Result<Vec<u8>, String>)
    requires
        lib_idx < component.modules.len(),
        consumer_indices.len() <= u32::MAX,
        forall|i: int| 0 <= i < consumer_indices.len() ==> #[trigger] consumer_indices@[i] < component.modules.len(),
    ensures
        parse_fails(component.modules@[lib_idx as int].wasm@) ==> r is Err,
        (exists|i: int|
            0 <= i < consumer_indices.len() && parse_fails(
                #[trigger] component.modules@[consumer_indices@[i] as int].wasm@,
            )) ==> r is Err,
{
    let lib_wasm = component.modules[lib_idx].wasm.as_slice();
    let a = match analyze_lib(lib_wasm) {
        Ok(a) => a,
        Err(e) => return Err(e),
    };
    let lib = match scan_lib_sections(lib_wasm) {
        Ok(l) => l,
        Err(e) => return Err(e),
    };
    let mut consumers: Vec<ConsumerScan> = Vec::new();
    let mut imports: Vec<Vec<FuncImport>> = Vec::new();
    let mut type_counts: Vec<usize> = Vec::new();
    let mut func_counts: Vec<usize> = Vec::new();
    let mut c: usize = 0;
    while c < consumer_indices.len()
        invariant
            forall|i: int| 0 <= i < consumer_indices.len() ==> #[trigger] consumer_indices@[i] < component.modules.len(),
            c <= consumer_indices.len(),
            consumers.len() == c,
            imports.len() == c,
            type_counts.len() == c,
            func_counts.len() == c,
            forall|d: int| 0 <= d < c ==> type_counts@[d] == (#[trigger] consumers@[d]).types.len(),
            forall|d: int| 0 <= d < c ==> func_counts@[d] == (#[trigger] consumers@[d]).func_types.len(),
            forall|d: int| 0 <= d < c ==> !parse_fails(#[trigger] component.modules@[consumer_indices@[d] as int].wasm@),
            !parse_fails(component.modules@[lib_idx as int].wasm@),
        decreases consumer_indices.len() - c,
    {
        let ci = consumer_indices[c];
        match scan_consumer(component.modules[ci].wasm.as_slice()) {
            Ok((scan, imps)) => {
                type_counts.push(scan.types.len());
                func_counts.push(scan.func_types.len());
                consumers.push(scan);
                imports.push(imps);
            },
            Err(e) => return Err(e),
        }
        c += 1;
    }
    if lib.func_types.len() > u32::MAX as usize {
        return Err(String::from_str("the library declares too many functions"));
    }
    let mut global_mutable: Vec<bool> = Vec::new();
    let mut g: usize = 0;
    while g < lib.globals.len()
        decreases lib.globals.len() - g,
    {
        global_mutable.push(lib.globals[g].mutable);
        g += 1;
    }
    let inp = SharingInputs {
        lib_defined: lib.func_types.len() as u32,
        lib_types: lib.types.len(),
        global_mutable,
        imports,
        type_counts,
        func_counts,
    };
    let x = SpecializeInput { a, lib, consumers, inp };
    let plan = match plan_sharing(&x.a, &x.inp) {
        Ok(p) => p,
        Err(e) => return Err(e),
    };
    let n = plan.n;

    let type_sec = match build_types(&x, &plan) {
        Ok(t) => t,
        Err(e) => return Err(e),
    };
    let func_sec = match build_functions(&x, &plan, consumer_indices) {
        Ok(f) => f,
        Err(e) => return Err(e),
    };
    let code_sec = match build_code(&x, &plan) {
        Ok(c) => c,
        Err(e) => return Err(e),
    };
    let keep_lib = match exports_from {
        None => true,
        Some(m) => m == lib_idx,
    };
    let keep = kept_consumers(exports_from, consumer_indices);
    let exports = match plan_all_exports(&x, &plan, keep_lib, &keep) {
        Some(v) => v,
        None => return Err(String::from_str("a state-touching export needs a shell wrapper but there is no consumer")),
    };
    let mut export_sec = wasm_encoder::ExportSection::new();
    let mut k: usize = 0;
    while k < exports.len()
        decreases exports.len() - k,
    {
        add_export(&mut export_sec, exports[k].name.as_str(), export_sort(exports[k].kind), exports[k].index);
        k += 1;
    }
    let import_sec = match build_imports(&x, &plan) {
        Ok(s) => s,
        Err(e) => return Err(e),
    };

    let mut module = wasm_encoder::Module::new();
    add_type_section(&mut module, &type_sec);
    add_import_section(&mut module, &import_sec);
    add_function_section(&mut module, &func_sec);
    if x.lib.tables.len() > 0 {
        let mut t = wasm_encoder::TableSection::new();
        let mut k: usize = 0;
        while k < x.lib.tables.len()
            decreases x.lib.tables.len() - k,
        {
            // The library's tables are written with funcref elements, unshared.
            add_table(&mut t, enc_table_type(x.lib.tables[k], funcref(), false));
            k += 1;
        }
        add_table_section(&mut module, &t);
    }
    let mut mem_sec = wasm_encoder::MemorySection::new();
    let mut k: usize = 0;
    while k < x.lib.memories.len()
        decreases x.lib.memories.len() - k,
    {
        let mut inst: u32 = 0;
        while inst < n
            invariant
                k < x.lib.memories.len(),
            decreases n - inst,
        {
            add_memory(&mut mem_sec, enc_memory_type(x.lib.memories[k]));
            inst += 1;
        }
        k += 1;
    }
    add_memory_section(&mut module, &mem_sec);
    let mut global_sec = wasm_encoder::GlobalSection::new();
    let mut k: usize = 0;
    while k < x.lib.globals.len()
        decreases x.lib.globals.len() - k,
    {
        let gd = &x.lib.globals[k];
        let v = match enc_val_type(gd.ty) {
            Ok(v) => v,
            Err(e) => return Err(e),
        };
        let ce = enc_const(gd.init);
        if gd.mutable {
            let mut inst: u32 = 0;
            while inst < n
                decreases n - inst,
            {
                add_global(&mut global_sec, v, true, gd.shared, &ce);
                inst += 1;
            }
        } else {
            add_global(&mut global_sec, v, false, gd.shared, &ce);
        }
        k += 1;
    }
    add_global_section(&mut module, &global_sec);
    add_export_section(&mut module, &export_sec);
    if x.lib.elements.len() > 0 {
        let mut es = wasm_encoder::ElementSection::new();
        let mut k: usize = 0;
        while k < x.lib.elements.len()
            decreases x.lib.elements.len() - k,
        {
            match add_element(&mut es, &x.lib.elements[k]) {
                Ok(()) => {},
                Err(e) => return Err(e),
            }
            k += 1;
        }
        add_element_section(&mut module, &es);
    }
    add_code_section(&mut module, &code_sec);
    if x.lib.data.len() > 0 {
        let mut ds = wasm_encoder::DataSection::new();
        let segments = plan_data_segments(&x.lib.data, n);
        let mut j: usize = 0;
        while j < segments.len()
            invariant
                forall|i: int| 0 <= i < segments@.len() ==> (#[trigger] segments@[i]).0 < x.lib.data@.len(),
            decreases segments.len() - j,
        {
            let (k, target) = segments[j];
            let d = &x.lib.data[k];
            match (target, d.active) {
                (Some(m), Some((_, off))) => {
                    let o = enc_const(off);
                    add_data_segment(&mut ds, Some((m, &o)), &d.bytes);
                },
                _ => add_data_segment(&mut ds, None, &d.bytes),
            }
            j += 1;
        }
        add_data_section(&mut module, &ds);
    }
    Ok(finish_module(module))
}

/// Consumer `i`'s copy of library data segment `k`'s memory among `n`
/// consumers: memory `m * n + i` (32-bit wrapping) for a segment active in
/// memory `m`; `None` for a passive segment.
pub open spec fn active_copy(data: Seq<DataDef>, k: int, n: u32, i: u32) -> Option<u32> {
    match data[k].active {
        Some((m, _)) => Some(vstd::wrapping::u32_specs::wrapping_add(vstd::wrapping::u32_specs::wrapping_mul(m, n), i)),
        None => None,
    }
}

/// The data segments the merged module is written with, in order: for each
/// library segment (its position in `data`), one copy per consumer when it is
/// active, aimed at that consumer's copy of its memory, and one passive copy
/// when it is passive.
pub fn plan_data_segments(data: &Vec<DataDef>, n: u32) -> (r: Vec<(usize, Option<u32>)>)
    ensures
        forall|j: int|
            0 <= j < r@.len() ==> (#[trigger] r@[j]).0 < data@.len() && (if data@[r@[j].0 as int].active is Some {
                exists|i: u32| i < n && r@[j].1 == #[trigger] active_copy(data@, r@[j].0 as int, n, i)
            } else {
                r@[j].1 is None
            }),
        forall|k: int, i: u32|
            0 <= k < data@.len() && i < n && (#[trigger] active_copy(data@, k, n, i)) is Some ==> exists|j: int|
                0 <= j < r@.len() && #[trigger] r@[j] == (k as usize, active_copy(data@, k, n, i)),
        forall|k: int|
            0 <= k < data@.len() && (#[trigger] data@[k].active) is None ==> exists|j: int|
                0 <= j < r@.len() && r@[j] == (k as usize, None::<u32>),
{
    let mut r: Vec<(usize, Option<u32>)> = Vec::new();
    let mut k: usize = 0;
    while k < data.len()
        invariant
            k <= data.len(),
            forall|j: int|
                0 <= j < r@.len() ==> (#[trigger] r@[j]).0 < k && (if data@[r@[j].0 as int].active is Some {
                    exists|i: u32| i < n && r@[j].1 == #[trigger] active_copy(data@, r@[j].0 as int, n, i)
                } else {
                    r@[j].1 is None
                }),
            forall|k2: int, i: u32|
                0 <= k2 < k && i < n && (#[trigger] active_copy(data@, k2, n, i)) is Some ==> exists|j: int|
                    0 <= j < r@.len() && #[trigger] r@[j] == (k2 as usize, active_copy(data@, k2, n, i)),
            forall|k2: int|
                0 <= k2 < k && (#[trigger] data@[k2].active) is None ==> exists|j: int|
                    0 <= j < r@.len() && r@[j] == (k2 as usize, None::<u32>),
        decreases data.len() - k,
    {
        match data[k].active {
            Some((mi, _)) => {
                let mut inst: u32 = 0;
                while inst < n
                    invariant
                        k < data.len(),
                        data@[k as int].active matches Some((m, _)) && m == mi,
                        inst <= n,
                        forall|j: int|
                            0 <= j < r@.len() ==> (#[trigger] r@[j]).0 <= k && (if data@[r@[j].0 as int].active is Some {
                                exists|i: u32| i < n && r@[j].1 == #[trigger] active_copy(data@, r@[j].0 as int, n, i)
                            } else {
                                r@[j].1 is None
                            }),
                        forall|k2: int, i: u32|
                            0 <= k2 < k && i < n && (#[trigger] active_copy(data@, k2, n, i)) is Some ==> exists|j: int|
                                0 <= j < r@.len() && #[trigger] r@[j] == (k2 as usize, active_copy(data@, k2, n, i)),
                        forall|i: u32|
                            i < inst ==> exists|j: int|
                                0 <= j < r@.len() && #[trigger] r@[j] == (k, #[trigger] active_copy(data@, k as int, n, i)),
                        forall|k2: int|
                            0 <= k2 < k && (#[trigger] data@[k2].active) is None ==> exists|j: int|
                                0 <= j < r@.len() && r@[j] == (k2 as usize, None::<u32>),
                    decreases n - inst,
                {
                    let ghost before = r@;
                    let t = data_memory(mi, n, inst);
                    proof {
                        assert(Some(t) == active_copy(data@, k as int, n, inst));
                    }
                    r.push((k, Some(t)));
                    proof {
                        assert(r@[r@.len() - 1] == (k, active_copy(data@, k as int, n, inst)));
                        assert forall|j: int| 0 <= j < before.len() implies r@[j] == #[trigger] before[j] by {}
                    }
                    inst += 1;
                }
                proof {
                    assert forall|k2: int, i: u32|
                        0 <= k2 < k + 1 && i < n && (#[trigger] active_copy(data@, k2, n, i)) is Some implies exists|j: int|
                            0 <= j < r@.len() && #[trigger] r@[j] == (k2 as usize, active_copy(data@, k2, n, i)) by {
                        if k2 == k as int {
                            assert(exists|j: int| 0 <= j < r@.len() && #[trigger] r@[j] == (k, active_copy(data@, k as int, n, i)));
                        }
                    }
                    assert forall|k2: int|
                        0 <= k2 < k + 1 && (#[trigger] data@[k2].active) is None implies exists|j: int|
                            0 <= j < r@.len() && r@[j] == (k2 as usize, None::<u32>) by {}
                }
            },
            None => {
                let ghost before = r@;
                r.push((k, None));
                proof {
                    assert forall|j: int| 0 <= j < before.len() implies r@[j] == #[trigger] before[j] by {}
                    assert(r@[r@.len() - 1] == (k, None::<u32>));
                    assert forall|k2: int|
                        0 <= k2 < k + 1 && (#[trigger] data@[k2].active) is None implies exists|j: int|
                            0 <= j < r@.len() && r@[j] == (k2 as usize, None::<u32>) by {
                        if k2 == k as int {
                            assert(r@[r@.len() - 1] == (k2 as usize, None::<u32>));
                        }
                    }
                }
            },
        }
        k += 1;
    }
    r
}

/// Instance `inst`'s copy of library memory `mi`: the memories are laid out one
/// row of `n` copies per library memory (32-bit wrapping arithmetic).
pub fn data_memory(mi: u32, n: u32, inst: u32) -> (r: u32)
    ensures
        r == instance_memory(mi, n, inst),
{
    mi.wrapping_mul(n).wrapping_add(inst)
}

} // verus!
