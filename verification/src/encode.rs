//! Declarations of the `wasm_encoder` types the library builds a module with, and
//! the calls that add items to them.
//!
//! The builders are opaque to Verus: these bindings say nothing of what a builder
//! holds after a call. What the library hands to each call (which index, which
//! name, which section in which order) is decided and verified in the modules
//! that call them.

use vstd::prelude::*;
use wasm_encoder::reencode::Reencode;
use crate::model::{ExportSort, MemoryDesc, TableDesc};
use crate::ops::{MemOpKind, MemOpKind as K, StoreClass};
use crate::rewrite::Plain;
use crate::specialize::ConstInit;
use wasm_encoder::Instruction as I;
use crate::plan::Remapper;

verus! {

#[verifier::external_type_specification]
#[verifier::external_body]
pub struct ExModule(wasm_encoder::Module);

#[verifier::external_type_specification]
#[verifier::external_body]
pub struct ExTypeSection(wasm_encoder::TypeSection);

#[verifier::external_type_specification]
#[verifier::external_body]
pub struct ExImportSection(wasm_encoder::ImportSection);

#[verifier::external_type_specification]
#[verifier::external_body]
pub struct ExFunctionSection(wasm_encoder::FunctionSection);

#[verifier::external_type_specification]
#[verifier::external_body]
pub struct ExTableSection(wasm_encoder::TableSection);

#[verifier::external_type_specification]
#[verifier::external_body]
pub struct ExMemorySection(wasm_encoder::MemorySection);

#[verifier::external_type_specification]
#[verifier::external_body]
pub struct ExGlobalSection(wasm_encoder::GlobalSection);

#[verifier::external_type_specification]
#[verifier::external_body]
pub struct ExExportSection(wasm_encoder::ExportSection);

#[verifier::external_type_specification]
#[verifier::external_body]
pub struct ExElementSection(wasm_encoder::ElementSection);

#[verifier::external_type_specification]
#[verifier::external_body]
pub struct ExCodeSection(wasm_encoder::CodeSection);

#[verifier::external_type_specification]
#[verifier::external_body]
pub struct ExDataSection(wasm_encoder::DataSection);

#[verifier::external_type_specification]
#[verifier::external_body]
#[verifier::reject_recursive_types(E)]
pub struct ExReencodeError<E>(wasm_encoder::reencode::Error<E>);

pub assume_specification[ wasm_encoder::Module::new ]() -> wasm_encoder::Module;

pub assume_specification[ wasm_encoder::TypeSection::new ]() -> wasm_encoder::TypeSection;

pub assume_specification[ wasm_encoder::ImportSection::new ]() -> wasm_encoder::ImportSection;

pub assume_specification[ wasm_encoder::FunctionSection::new ]() -> wasm_encoder::FunctionSection;

pub assume_specification[ wasm_encoder::TableSection::new ]() -> wasm_encoder::TableSection;

pub assume_specification[ wasm_encoder::MemorySection::new ]() -> wasm_encoder::MemorySection;

pub assume_specification[ wasm_encoder::GlobalSection::new ]() -> wasm_encoder::GlobalSection;

pub assume_specification[ wasm_encoder::ExportSection::new ]() -> wasm_encoder::ExportSection;

pub assume_specification[ wasm_encoder::ElementSection::new ]() -> wasm_encoder::ElementSection;

pub assume_specification[ wasm_encoder::CodeSection::new ]() -> wasm_encoder::CodeSection;

pub assume_specification[ wasm_encoder::DataSection::new ]() -> wasm_encoder::DataSection;

/// `Module::section` with a `TypeSection`: appends it, encoded, to the module.
#[verifier::external_body]
pub(crate) fn add_type_section(m: &mut wasm_encoder::Module, s: &wasm_encoder::TypeSection) {
    m.section(s);
}

/// `Module::section` with a `ImportSection`: appends it, encoded, to the module.
#[verifier::external_body]
pub(crate) fn add_import_section(m: &mut wasm_encoder::Module, s: &wasm_encoder::ImportSection) {
    m.section(s);
}

/// `Module::section` with a `FunctionSection`: appends it, encoded, to the module.
#[verifier::external_body]
pub(crate) fn add_function_section(m: &mut wasm_encoder::Module, s: &wasm_encoder::FunctionSection) {
    m.section(s);
}

/// `Module::section` with a `TableSection`: appends it, encoded, to the module.
#[verifier::external_body]
pub(crate) fn add_table_section(m: &mut wasm_encoder::Module, s: &wasm_encoder::TableSection) {
    m.section(s);
}

/// `Module::section` with a `MemorySection`: appends it, encoded, to the module.
#[verifier::external_body]
pub(crate) fn add_memory_section(m: &mut wasm_encoder::Module, s: &wasm_encoder::MemorySection) {
    m.section(s);
}

/// `Module::section` with a `GlobalSection`: appends it, encoded, to the module.
#[verifier::external_body]
pub(crate) fn add_global_section(m: &mut wasm_encoder::Module, s: &wasm_encoder::GlobalSection) {
    m.section(s);
}

/// `Module::section` with a `ExportSection`: appends it, encoded, to the module.
#[verifier::external_body]
pub(crate) fn add_export_section(m: &mut wasm_encoder::Module, s: &wasm_encoder::ExportSection) {
    m.section(s);
}

/// `Module::section` with a `ElementSection`: appends it, encoded, to the module.
#[verifier::external_body]
pub(crate) fn add_element_section(m: &mut wasm_encoder::Module, s: &wasm_encoder::ElementSection) {
    m.section(s);
}

/// `Module::section` with a `CodeSection`: appends it, encoded, to the module.
#[verifier::external_body]
pub(crate) fn add_code_section(m: &mut wasm_encoder::Module, s: &wasm_encoder::CodeSection) {
    m.section(s);
}

/// `Module::section` with a `DataSection`: appends it, encoded, to the module.
#[verifier::external_body]
pub(crate) fn add_data_section(m: &mut wasm_encoder::Module, s: &wasm_encoder::DataSection) {
    m.section(s);
}

/// `Module::finish`: the bytes of the module.
#[verifier::external_body]
pub(crate) fn finish_module(m: wasm_encoder::Module) -> Vec<u8> {
    m.finish()
}

/// `ElementSection::is_empty`.
#[verifier::external_body]
pub(crate) fn element_section_is_empty(s: &wasm_encoder::ElementSection) -> bool {
    s.is_empty()
}

/// `ExportSection::export`, with the sort converted to `wasm_encoder::ExportKind`
/// (variant for variant).
#[verifier::external_body]
pub(crate) fn add_export(s: &mut wasm_encoder::ExportSection, name: &str, sort: ExportSort, index: u32) {
    let k = match sort {
        ExportSort::Func => wasm_encoder::ExportKind::Func,
        ExportSort::Table => wasm_encoder::ExportKind::Table,
        ExportSort::Memory => wasm_encoder::ExportKind::Memory,
        ExportSort::Global => wasm_encoder::ExportKind::Global,
        ExportSort::Tag => wasm_encoder::ExportKind::Tag,
    };
    s.export(name, k, index);
}

/// What an import brings in, in the encoder's terms.
pub enum ImportDesc {
    Function(u32),
    Memory(wasm_encoder::MemoryType),
    Table(wasm_encoder::TableType),
    Global(wasm_encoder::ValType, bool, bool),
}

/// `ImportSection::import` of the entity `ty` describes (a global's two flags:
/// mutable, then shared).
#[verifier::external_body]
pub(crate) fn add_import(s: &mut wasm_encoder::ImportSection, module: &str, field: &str, ty: ImportDesc) {
    let e = match ty {
        ImportDesc::Function(t) => wasm_encoder::EntityType::Function(t),
        ImportDesc::Memory(m) => wasm_encoder::EntityType::Memory(m),
        ImportDesc::Table(t) => wasm_encoder::EntityType::Table(t),
        ImportDesc::Global(val_type, mutable, shared) => {
            wasm_encoder::EntityType::Global(wasm_encoder::GlobalType { val_type, mutable, shared })
        },
    };
    s.import(module, field, e);
}

/// A `wasm_encoder::MemoryType` with the limits of `m`.
#[verifier::external_body]
pub(crate) fn enc_memory_type(m: MemoryDesc) -> wasm_encoder::MemoryType {
    wasm_encoder::MemoryType {
        minimum: m.initial, maximum: m.maximum, memory64: m.memory64, shared: m.shared, page_size_log2: m.page_size_log2,
    }
}

#[verifier::external_type_specification]
#[verifier::external_body]
pub struct ExEncRefType(wasm_encoder::RefType);

/// `wasm_encoder::RefType::FUNCREF`, the nullable reference to any function.
#[verifier::external_body]
pub(crate) fn funcref() -> wasm_encoder::RefType {
    wasm_encoder::RefType::FUNCREF
}

/// A `wasm_encoder::TableType` with the limits of `t`, elements of
/// `element_type`, shared as `shared` says.
#[verifier::external_body]
pub(crate) fn enc_table_type(t: TableDesc, element_type: wasm_encoder::RefType, shared: bool) -> wasm_encoder::TableType {
    wasm_encoder::TableType { element_type, table64: t.table64, minimum: t.initial, maximum: t.maximum, shared }
}

/// `Reencode::parse_type_section` through the index maps of `r`.
#[verifier::external_body]
pub(crate) fn reencode_types(r: &mut Remapper, out: &mut wasm_encoder::TypeSection, s: wasmparser::SectionLimited<'_, wasmparser::RecGroup>)
    -> Result<(), String>
{
    r.parse_type_section(out, s).map_err(|e| e.to_string())
}

/// `Reencode::parse_function_section` through the index maps of `r`.
#[verifier::external_body]
pub(crate) fn reencode_functions(r: &mut Remapper, out: &mut wasm_encoder::FunctionSection, s: wasmparser::SectionLimited<'_, u32>)
    -> Result<(), String>
{
    r.parse_function_section(out, s).map_err(|e| e.to_string())
}

/// `Reencode::parse_memory_section` through the index maps of `r`.
#[verifier::external_body]
pub(crate) fn reencode_memories(r: &mut Remapper, out: &mut wasm_encoder::MemorySection, s: wasmparser::SectionLimited<'_, wasmparser::MemoryType>)
    -> Result<(), String>
{
    r.parse_memory_section(out, s).map_err(|e| e.to_string())
}

/// `Reencode::parse_table_section` through the index maps of `r`.
#[verifier::external_body]
pub(crate) fn reencode_tables(r: &mut Remapper, out: &mut wasm_encoder::TableSection, s: wasmparser::SectionLimited<'_, wasmparser::Table<'_>>)
    -> Result<(), String>
{
    r.parse_table_section(out, s).map_err(|e| e.to_string())
}

/// `Reencode::parse_global_section` through the index maps of `r`.
#[verifier::external_body]
pub(crate) fn reencode_globals(r: &mut Remapper, out: &mut wasm_encoder::GlobalSection, s: wasmparser::SectionLimited<'_, wasmparser::Global<'_>>)
    -> Result<(), String>
{
    r.parse_global_section(out, s).map_err(|e| e.to_string())
}

/// `Reencode::parse_function_body` through the index maps of `r`.
#[verifier::external_body]
pub(crate) fn reencode_body(r: &mut Remapper, out: &mut wasm_encoder::CodeSection, b: wasmparser::FunctionBody<'_>) -> Result<(), String> {
    r.parse_function_body(out, b).map_err(|e| e.to_string())
}

/// `Reencode::parse_data_section` through the index maps of `r`.
#[verifier::external_body]
pub(crate) fn reencode_data(r: &mut Remapper, out: &mut wasm_encoder::DataSection, s: wasmparser::SectionLimited<'_, wasmparser::Data<'_>>)
    -> Result<(), String>
{
    r.parse_data_section(out, s).map_err(|e| e.to_string())
}

/// `Reencode::parse_element_section` through the index maps of `r`.
#[verifier::external_body]
pub(crate) fn reencode_elements(r: &mut Remapper, out: &mut wasm_encoder::ElementSection, s: wasmparser::SectionLimited<'_, wasmparser::Element<'_>>)
    -> Result<(), String>
{
    r.parse_element_section(out, s).map_err(|e| e.to_string())
}

#[verifier::external_type_specification]
#[verifier::external_body]
pub struct ExFunction(wasm_encoder::Function);

#[verifier::external_type_specification]
#[verifier::external_body]
pub struct ExEncValType(wasm_encoder::ValType);

#[verifier::external_type_specification]
#[verifier::external_body]
pub struct ExEncMemArg(wasm_encoder::MemArg);

#[verifier::external_type_specification]
#[verifier::external_body]
pub struct ExEncConstExpr(wasm_encoder::ConstExpr);

#[verifier::external_type_specification]
#[verifier::external_body]
pub struct ExInstruction<'a>(wasm_encoder::Instruction<'a>);

#[verifier::external_type_specification]
#[verifier::external_body]
pub struct ExEncMemoryType(wasm_encoder::MemoryType);

#[verifier::external_type_specification]
#[verifier::external_body]
pub struct ExEncTableType(wasm_encoder::TableType);

/// `RoundtripReencoder::val_type`: the encoder's value type for a parsed one;
/// the conversion's error comes back as text.
#[verifier::external_body]
pub(crate) fn enc_val_type(t: wasmparser::ValType) -> Result<wasm_encoder::ValType, String> {
    wasm_encoder::reencode::RoundtripReencoder.val_type(t).map_err(|e| e.to_string())
}

/// The encoder's value type of a store operand class.
#[verifier::external_body]
pub(crate) fn scalar_val_type(c: StoreClass) -> wasm_encoder::ValType {
    match c {
        StoreClass::I32 => wasm_encoder::ValType::I32,
        StoreClass::I64 => wasm_encoder::ValType::I64,
        StoreClass::F32 => wasm_encoder::ValType::F32,
        StoreClass::F64 => wasm_encoder::ValType::F64,
    }
}

/// `Function::new` with the given local declarations.
#[verifier::external_body]
pub(crate) fn new_function(locals: Vec<(u32, wasm_encoder::ValType)>) -> wasm_encoder::Function {
    wasm_encoder::Function::new(locals)
}

/// `Function::instruction`: appends `i` to the body.
#[verifier::external_body]
pub(crate) fn push_instruction(f: &mut wasm_encoder::Function, i: &wasm_encoder::Instruction) {
    f.instruction(i);
}

/// The encoder's instruction that `p` names.
#[verifier::external_body]
pub(crate) fn plain_instruction(p: Plain) -> wasm_encoder::Instruction<'static> {
    match p {
        Plain::LocalGet(x) => I::LocalGet(x),
        Plain::LocalSet(x) => I::LocalSet(x),
        Plain::I32Const(v) => I::I32Const(v),
        Plain::I32Add => I::I32Add,
        Plain::GlobalGet(x) => I::GlobalGet(x),
        Plain::GlobalSet(x) => I::GlobalSet(x),
        Plain::Call(x) => I::Call(x),
        Plain::End => I::End,
    }
}

/// A `wasm_encoder::MemArg` on linear memory `memory_index`, without the
/// memory ordering that only atomic instructions carry.
#[verifier::external_body]
pub(crate) fn enc_memarg(offset: u64, align: u32, memory_index: u32) -> wasm_encoder::MemArg {
    wasm_encoder::MemArg { offset, align, target: wasm_encoder::MemArgTarget::Memory(memory_index), ordering: None }
}

/// The encoder's instruction for seven of the loads; `None` for other kinds.
#[verifier::external_body]
pub(crate) fn load_instruction_a(k: MemOpKind, m: wasm_encoder::MemArg) -> Option<wasm_encoder::Instruction<'static>> {
    match k {
        K::I32Load => Some(I::I32Load(m)),
        K::I64Load => Some(I::I64Load(m)),
        K::F32Load => Some(I::F32Load(m)),
        K::F64Load => Some(I::F64Load(m)),
        K::I32Load8S => Some(I::I32Load8S(m)),
        K::I32Load8U => Some(I::I32Load8U(m)),
        K::I32Load16S => Some(I::I32Load16S(m)),
        _ => None,
    }
}

/// The encoder's instruction for the other seven loads; `None` for other kinds.
#[verifier::external_body]
pub(crate) fn load_instruction_b(k: MemOpKind, m: wasm_encoder::MemArg) -> Option<wasm_encoder::Instruction<'static>> {
    match k {
        K::I32Load16U => Some(I::I32Load16U(m)),
        K::I64Load8S => Some(I::I64Load8S(m)),
        K::I64Load8U => Some(I::I64Load8U(m)),
        K::I64Load16S => Some(I::I64Load16S(m)),
        K::I64Load16U => Some(I::I64Load16U(m)),
        K::I64Load32S => Some(I::I64Load32S(m)),
        K::I64Load32U => Some(I::I64Load32U(m)),
        _ => None,
    }
}

/// The encoder's instruction for a store; `None` for other kinds.
#[verifier::external_body]
pub(crate) fn store_instruction(k: MemOpKind, m: wasm_encoder::MemArg) -> Option<wasm_encoder::Instruction<'static>> {
    match k {
        K::I32Store => Some(I::I32Store(m)),
        K::I64Store => Some(I::I64Store(m)),
        K::F32Store => Some(I::F32Store(m)),
        K::F64Store => Some(I::F64Store(m)),
        K::I32Store8 => Some(I::I32Store8(m)),
        K::I32Store16 => Some(I::I32Store16(m)),
        K::I64Store8 => Some(I::I64Store8(m)),
        K::I64Store16 => Some(I::I64Store16(m)),
        K::I64Store32 => Some(I::I64Store32(m)),
        _ => None,
    }
}

/// The encoder's `memory.size`, `memory.grow` or `memory.fill` on memory `m`,
/// or `memory.copy` from memory `src` to memory `m`; `None` for other kinds.
#[verifier::external_body]
pub(crate) fn bulk_instruction(k: MemOpKind, m: u32, src: u32) -> Option<wasm_encoder::Instruction<'static>> {
    match k {
        K::MemorySize => Some(I::MemorySize(m)),
        K::MemoryGrow => Some(I::MemoryGrow(m)),
        K::MemoryFill => Some(I::MemoryFill(m)),
        K::MemoryCopy => Some(I::MemoryCopy { src_mem: src, dst_mem: m }),
        _ => None,
    }
}

/// `RoundtripReencoder::instruction`: the parsed instruction in the encoder's
/// terms, unchanged; the conversion's error comes back as text.
#[verifier::external_body]
pub(crate) fn kept_instruction<'a>(op: &wasmparser::Operator<'a>) -> Result<wasm_encoder::Instruction<'a>, String> {
    wasm_encoder::reencode::RoundtripReencoder.instruction(op.clone()).map_err(|e| e.to_string())
}

/// `CodeSection::function`: appends the body.
#[verifier::external_body]
pub(crate) fn add_body(code: &mut wasm_encoder::CodeSection, f: &wasm_encoder::Function) {
    code.function(f);
}

/// `RoundtripReencoder::func_type`, then `TypeSection::ty().func_type`; the
/// conversion's error comes back as text.
#[verifier::external_body]
pub(crate) fn add_func_type(sec: &mut wasm_encoder::TypeSection, ft: &wasmparser::FuncType) -> Result<(), String> {
    let t = wasm_encoder::reencode::RoundtripReencoder.func_type(ft.clone()).map_err(|e| e.to_string())?;
    sec.ty().func_type(&t);
    Ok(())
}

/// `FunctionSection::function`: declares a function of type `ty`.
#[verifier::external_body]
pub(crate) fn declare_function(sec: &mut wasm_encoder::FunctionSection, ty: u32) {
    sec.function(ty);
}

/// `TableSection::table`: declares a table of type `t`.
#[verifier::external_body]
pub(crate) fn add_table(sec: &mut wasm_encoder::TableSection, t: wasm_encoder::TableType) {
    sec.table(t);
}

/// `MemorySection::memory`: declares a memory of type `m`.
#[verifier::external_body]
pub(crate) fn add_memory(sec: &mut wasm_encoder::MemorySection, m: wasm_encoder::MemoryType) {
    sec.memory(m);
}

/// The encoder's constant expression for `c`.
#[verifier::external_body]
pub(crate) fn enc_const(c: ConstInit) -> wasm_encoder::ConstExpr {
    match c {
        ConstInit::I32(v) => wasm_encoder::ConstExpr::i32_const(v),
        ConstInit::I64(v) => wasm_encoder::ConstExpr::i64_const(v),
    }
}

/// `GlobalSection::global` with this type and initializer.
#[verifier::external_body]
pub(crate) fn add_global(sec: &mut wasm_encoder::GlobalSection, val_type: wasm_encoder::ValType, mutable: bool, shared: bool, init: &wasm_encoder::ConstExpr) {
    sec.global(wasm_encoder::GlobalType { val_type, mutable, shared }, init);
}

/// `RoundtripReencoder::parse_element`: appends the segment unchanged; the
/// conversion's error comes back as text.
#[verifier::external_body]
pub(crate) fn add_element(sec: &mut wasm_encoder::ElementSection, e: &wasmparser::Element) -> Result<(), String> {
    wasm_encoder::reencode::RoundtripReencoder.parse_element(sec, e.clone()).map_err(|e| e.to_string())
}

/// `DataSection::segment` with a segment of `bytes`: active in memory
/// `active.0` at offset `active.1`, or passive.
#[verifier::external_body]
pub(crate) fn add_data_segment(sec: &mut wasm_encoder::DataSection, active: Option<(u32, &wasm_encoder::ConstExpr)>, bytes: &Vec<u8>) {
    let mode = match active {
        Some((memory_index, offset)) => wasm_encoder::DataSegmentMode::Active { memory_index, offset },
        None => wasm_encoder::DataSegmentMode::Passive,
    };
    sec.segment(wasm_encoder::DataSegment { mode, data: bytes.clone() });
}

} // verus!
