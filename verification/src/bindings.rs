//! Declarations of the `wasmparser` types the library reads, and the calls into
//! `wasmparser` that turn module bytes into plain library values.
//!
//! The parsed values are opaque to Verus: a binding that returns one says nothing
//! of it, and a binding that converts one into a plain value cannot tie the plain
//! value to the bytes it came from. The one exception is the kind of each
//! payload of a parse (`payload_tags`), a function of the bytes alone. What the
//! library does with the plain values is verified in the modules that call these
//! bindings.

use vstd::prelude::*;
use wasmparser::{Operator as O, Payload as P};
use wasmparser::TypeRef as T;
use crate::ops::{is_bulk_kind, summary_wf, MemOpKind, MemOpKind as K, OpSummary};
use crate::model::{ExportEntry, ExternKind, ImportEntry, ImportType, MemoryDesc, TableDesc};

verus! {

#[verifier::external_type_specification]
#[verifier::external_body]
pub struct ExPayload<'a>(wasmparser::Payload<'a>);

#[verifier::external_type_specification]
#[verifier::external_body]
pub struct ExParseError(wasmparser::BinaryReaderError);

#[verifier::external_type_specification]
#[verifier::external_body]
#[verifier::reject_recursive_types(T)]
pub struct ExSectionLimited<'a, T>(wasmparser::SectionLimited<'a, T>);

#[verifier::external_type_specification]
#[verifier::external_body]
pub struct ExRecGroup(wasmparser::RecGroup);

#[verifier::external_type_specification]
#[verifier::external_body]
pub struct ExFuncType(wasmparser::FuncType);

#[verifier::external_type_specification]
#[verifier::external_body]
pub struct ExValType(wasmparser::ValType);

#[verifier::external_type_specification]
#[verifier::external_body]
pub struct ExImports<'a>(wasmparser::Imports<'a>);

#[verifier::external_type_specification]
#[verifier::external_body]
pub struct ExImport<'a>(wasmparser::Import<'a>);

#[verifier::external_type_specification]
#[verifier::external_body]
pub struct ExExport<'a>(wasmparser::Export<'a>);

#[verifier::external_type_specification]
#[verifier::external_body]
pub struct ExFunctionBody<'a>(wasmparser::FunctionBody<'a>);

#[verifier::external_type_specification]
#[verifier::external_body]
pub struct ExOperator<'a>(wasmparser::Operator<'a>);

#[verifier::external_type_specification]
#[verifier::external_body]
pub struct ExTable<'a>(wasmparser::Table<'a>);

#[verifier::external_type_specification]
#[verifier::external_body]
pub struct ExMemArg(wasmparser::MemArg);

#[verifier::external_type_specification]
#[verifier::external_body]
pub struct ExTypeRef(wasmparser::TypeRef);

#[verifier::external_type_specification]
#[verifier::external_body]
pub struct ExMemoryType(wasmparser::MemoryType);

#[verifier::external_type_specification]
#[verifier::external_body]
pub struct ExGlobal<'a>(wasmparser::Global<'a>);

#[verifier::external_type_specification]
#[verifier::external_body]
pub struct ExConstExpr<'a>(wasmparser::ConstExpr<'a>);

#[verifier::external_type_specification]
#[verifier::external_body]
pub struct ExData<'a>(wasmparser::Data<'a>);

#[verifier::external_type_specification]
#[verifier::external_body]
pub struct ExElement<'a>(wasmparser::Element<'a>);

/// The sections of a module that the library tells apart; the readers inside
/// are handed back to other bindings.
pub enum Section<'a> {
    Types(wasmparser::SectionLimited<'a, wasmparser::RecGroup>),
    Imports(wasmparser::SectionLimited<'a, wasmparser::Imports<'a>>),
    Functions(wasmparser::SectionLimited<'a, u32>),
    Tables(wasmparser::SectionLimited<'a, wasmparser::Table<'a>>),
    Memories(wasmparser::SectionLimited<'a, wasmparser::MemoryType>),
    Globals(wasmparser::SectionLimited<'a, wasmparser::Global<'a>>),
    Exports(wasmparser::SectionLimited<'a, wasmparser::Export<'a>>),
    Elements(wasmparser::SectionLimited<'a, wasmparser::Element<'a>>),
    Data(wasmparser::SectionLimited<'a, wasmparser::Data<'a>>),
    CodeEntry(wasmparser::FunctionBody<'a>),
    Other,
}

/// What a payload of the parse is, as far as the library tells payloads apart
/// by kind alone; `Failed` stands for an item that is a parse error.
#[derive(PartialEq, Eq, Structural, Clone, Copy, Debug)]
pub enum PayloadTag {
    Failed,
    /// A nested component begins.
    Nested,
    /// A core module, at this byte range of the input (not checked against it).
    Module { start: u64, end: u64 },
    /// A module or component ends.
    End,
    /// A core instance section, at this byte range of the input.
    Instances { start: u64, end: u64 },
    /// An import section, at this byte range of the input.
    Imports { start: u64, end: u64 },
    Other,
}

/// The tags of the items that `wasmparser::Parser::parse_all` yields on `wasm`
/// (offset 0), in order.
pub uninterp spec fn payload_tags(wasm: Seq<u8>) -> Seq<PayloadTag>;

/// Whether the parse of `wasm` yields an error.
pub open spec fn parse_fails(wasm: Seq<u8>) -> bool {
    exists|i: int| 0 <= i < payload_tags(wasm).len() && #[trigger] payload_tags(wasm)[i] == PayloadTag::Failed
}

/// Calls `wasmparser::Parser::parse_all` on `wasm` (offset 0) and collects what
/// its iterator yields, with the tag of each item. Per its source, the iterator
/// stops right after the first error it yields, so only the last item can be an
/// error; the parse depends on the bytes alone, so the tags are named.
#[verifier::external_body]
pub(crate) fn parse_payloads<'a>(wasm: &'a [u8])
    -> (r: (Vec<Result<wasmparser::Payload<'a>, wasmparser::BinaryReaderError>>, Vec<PayloadTag>))
    ensures
        forall|i: int| 0 <= i < r.0@.len() - 1 ==> r.0@[i] is Ok,
        r.1@ == payload_tags(wasm@),
        r.1@.len() == r.0@.len(),
        forall|i: int| 0 <= i < r.0@.len() ==> (r.0@[i] is Err <==> #[trigger] r.1@[i] == PayloadTag::Failed),
{
    let items: Vec<_> = wasmparser::Parser::new(0).parse_all(wasm).collect();
    let tags = items.iter().map(|p| match p {
        Err(_) => PayloadTag::Failed,
        Ok(P::ComponentSection { .. }) => PayloadTag::Nested,
        Ok(P::ModuleSection { unchecked_range, .. }) => PayloadTag::Module { start: unchecked_range.start, end: unchecked_range.end },
        Ok(P::End(_)) => PayloadTag::End,
        Ok(P::InstanceSection(r)) => PayloadTag::Instances { start: r.range().start, end: r.range().end },
        Ok(P::ImportSection(r)) => PayloadTag::Imports { start: r.range().start, end: r.range().end },
        Ok(_) => PayloadTag::Other,
    }).collect();
    (items, tags)
}

/// Tells the variants of a `wasmparser::Payload` apart, keeping the reader of
/// the sections the library reads.
#[verifier::external_body]
pub(crate) fn section_of<'a>(p: &wasmparser::Payload<'a>) -> Section<'a> {
    match p {
        P::TypeSection(r) => Section::Types(r.clone()),
        P::ImportSection(r) => Section::Imports(r.clone()),
        P::FunctionSection(r) => Section::Functions(r.clone()),
        P::TableSection(r) => Section::Tables(r.clone()),
        P::MemorySection(r) => Section::Memories(r.clone()),
        P::GlobalSection(r) => Section::Globals(r.clone()),
        P::ExportSection(r) => Section::Exports(r.clone()),
        P::ElementSection(r) => Section::Elements(r.clone()),
        P::DataSection(r) => Section::Data(r.clone()),
        P::CodeSectionEntry(b) => Section::CodeEntry(b.clone()),
        _ => Section::Other,
    }
}

/// The text of a `wasmparser` error (its `Display`).
#[verifier::external_body]
pub(crate) fn error_text(e: &wasmparser::BinaryReaderError) -> String {
    e.to_string()
}

/// Collects the recursion groups of a type section.
#[verifier::external_body]
pub(crate) fn rec_groups<'a>(r: wasmparser::SectionLimited<'a, wasmparser::RecGroup>) -> Vec<Result<wasmparser::RecGroup, wasmparser::BinaryReaderError>> {
    r.into_iter().collect()
}

/// The number of types in a recursion group (`RecGroup::types().len()`).
#[verifier::external_body]
pub(crate) fn rec_group_len(g: &wasmparser::RecGroup) -> usize {
    g.types().len()
}

/// Collects the items of an export section.
#[verifier::external_body]
pub(crate) fn export_items<'a>(r: wasmparser::SectionLimited<'a, wasmparser::Export<'a>>)
    -> Vec<Result<wasmparser::Export<'a>, wasmparser::BinaryReaderError>>
{
    r.into_iter().collect()
}

/// Copies the name, kind and index of a `wasmparser::Export` into plain values
/// (the kind variant for variant).
#[verifier::external_body]
pub(crate) fn export_entry(e: &wasmparser::Export) -> ExportEntry {
    let kind = match e.kind {
        wasmparser::ExternalKind::Func => ExternKind::Func,
        wasmparser::ExternalKind::Table => ExternKind::Table,
        wasmparser::ExternalKind::Memory => ExternKind::Memory,
        wasmparser::ExternalKind::Global => ExternKind::Global,
        wasmparser::ExternalKind::Tag => ExternKind::Tag,
        wasmparser::ExternalKind::FuncExact => ExternKind::FuncExact,
    };
    ExportEntry { name: e.name.to_string(), kind, index: e.index }
}

/// `SectionLimited::count`: the item count that the section header declares.
#[verifier::external_body]
pub(crate) fn section_count<'a, T>(r: &wasmparser::SectionLimited<'a, T>) -> u32 {
    r.count()
}

/// Collects the items of an import section through `into_imports`.
#[verifier::external_body]
pub(crate) fn import_items<'a>(r: wasmparser::SectionLimited<'a, wasmparser::Imports<'a>>)
    -> Vec<Result<wasmparser::Import<'a>, wasmparser::BinaryReaderError>>
{
    r.into_imports().collect()
}

/// The module and field names of a `wasmparser::Import`, copied into strings,
/// and its type.
#[verifier::external_body]
pub(crate) fn import_parts(imp: &wasmparser::Import) -> (String, String, wasmparser::TypeRef) {
    (imp.module.to_string(), imp.name.to_string(), imp.ty)
}

/// One import as a plain value.
pub fn read_import(imp: &wasmparser::Import) -> ImportEntry {
    let (module, field, t) = import_parts(imp);
    ImportEntry { module, field, ty: import_type(t) }
}

/// Tells the variants of a `wasmparser::TypeRef` apart, copying their fields.
#[verifier::external_body]
pub(crate) fn import_type(t: wasmparser::TypeRef) -> ImportType {
    match t {
        T::Func(i) => ImportType::Func(i),
        T::Table(t) => ImportType::Table(TableDesc { table64: t.table64, initial: t.initial, maximum: t.maximum }),
        T::Memory(m) => ImportType::Memory(MemoryDesc {
            memory64: m.memory64, shared: m.shared, initial: m.initial, maximum: m.maximum, page_size_log2: m.page_size_log2,
        }),
        T::Global(g) => ImportType::Global { ty: g.content_type, mutable: g.mutable, shared: g.shared },
        T::Tag(_) => ImportType::Tag,
        T::FuncExact(i) => ImportType::FuncExact(i),
    }
}

/// Copies the fields of a `wasmparser::MemoryType`.
#[verifier::external_body]
pub(crate) fn memory_desc(m: &wasmparser::MemoryType) -> MemoryDesc {
    MemoryDesc { memory64: m.memory64, shared: m.shared, initial: m.initial, maximum: m.maximum, page_size_log2: m.page_size_log2 }
}

/// Tells apart seven of the loads among `wasmparser::Operator`s, keeping their memory argument.
#[verifier::external_body]
pub(crate) fn load_access_a(op: &wasmparser::Operator) -> (r: Option<(MemOpKind, wasmparser::MemArg)>)
    ensures
        r matches Some((k, _)) ==> !is_bulk_kind(k),
{
    match op {
        O::I32Load { memarg } => Some((K::I32Load, *memarg)),
        O::I64Load { memarg } => Some((K::I64Load, *memarg)),
        O::F32Load { memarg } => Some((K::F32Load, *memarg)),
        O::F64Load { memarg } => Some((K::F64Load, *memarg)),
        O::I32Load8S { memarg } => Some((K::I32Load8S, *memarg)),
        O::I32Load8U { memarg } => Some((K::I32Load8U, *memarg)),
        O::I32Load16S { memarg } => Some((K::I32Load16S, *memarg)),
        _ => None,
    }
}

/// Tells apart the other seven loads among `wasmparser::Operator`s, keeping their memory argument.
#[verifier::external_body]
pub(crate) fn load_access_b(op: &wasmparser::Operator) -> (r: Option<(MemOpKind, wasmparser::MemArg)>)
    ensures
        r matches Some((k, _)) ==> !is_bulk_kind(k),
{
    match op {
        O::I32Load16U { memarg } => Some((K::I32Load16U, *memarg)),
        O::I64Load8S { memarg } => Some((K::I64Load8S, *memarg)),
        O::I64Load8U { memarg } => Some((K::I64Load8U, *memarg)),
        O::I64Load16S { memarg } => Some((K::I64Load16S, *memarg)),
        O::I64Load16U { memarg } => Some((K::I64Load16U, *memarg)),
        O::I64Load32S { memarg } => Some((K::I64Load32S, *memarg)),
        O::I64Load32U { memarg } => Some((K::I64Load32U, *memarg)),
        _ => None,
    }
}

/// Tells apart the stores among `wasmparser::Operator`s, keeping their memory argument.
#[verifier::external_body]
pub(crate) fn store_access(op: &wasmparser::Operator) -> (r: Option<(MemOpKind, wasmparser::MemArg)>)
    ensures
        r matches Some((k, _)) ==> !is_bulk_kind(k),
{
    match op {
        O::I32Store { memarg } => Some((K::I32Store, *memarg)),
        O::I64Store { memarg } => Some((K::I64Store, *memarg)),
        O::F32Store { memarg } => Some((K::F32Store, *memarg)),
        O::F64Store { memarg } => Some((K::F64Store, *memarg)),
        O::I32Store8 { memarg } => Some((K::I32Store8, *memarg)),
        O::I32Store16 { memarg } => Some((K::I32Store16, *memarg)),
        O::I64Store8 { memarg } => Some((K::I64Store8, *memarg)),
        O::I64Store16 { memarg } => Some((K::I64Store16, *memarg)),
        O::I64Store32 { memarg } => Some((K::I64Store32, *memarg)),
        _ => None,
    }
}

/// The linear memory index and static offset of a `wasmparser::MemArg`; `None`
/// when its target is a GC array rather than a linear memory.
#[verifier::external_body]
pub(crate) fn memarg_memory(m: &wasmparser::MemArg) -> Option<(u32, u64)> {
    match m.target {
        wasmparser::MemArgTarget::Memory(i) => Some((i, m.offset)),
        wasmparser::MemArgTarget::Array(_) => None,
    }
}

/// Tells apart the memory instructions without a memory argument among
/// `wasmparser::Operator`s, copying their memory indices (for `memory.copy`,
/// destination then source; for the others, the one index twice).
#[verifier::external_body]
pub(crate) fn bulk_memory_access(op: &wasmparser::Operator) -> Option<(MemOpKind, u32, u32)> {
    match op {
        O::MemorySize { mem } => Some((K::MemorySize, *mem, *mem)),
        O::MemoryGrow { mem } => Some((K::MemoryGrow, *mem, *mem)),
        O::MemoryFill { mem } => Some((K::MemoryFill, *mem, *mem)),
        O::MemoryCopy { dst_mem, src_mem } => Some((K::MemoryCopy, *dst_mem, *src_mem)),
        _ => None,
    }
}

/// Tells apart global accesses, calls, `i32.const`, `i64.const` and `end` among
/// `wasmparser::Operator`s, copying their immediates.
#[verifier::external_body]
pub(crate) fn plain_op(op: &wasmparser::Operator) -> (r: OpSummary)
    ensures
        summary_wf(r),
{
    match op {
        O::GlobalGet { global_index } => OpSummary::GlobalGet(*global_index),
        O::GlobalSet { global_index } => OpSummary::GlobalSet(*global_index),
        O::Call { function_index } => OpSummary::Call(*function_index),
        O::I32Const { value } => OpSummary::I32Const(*value),
        O::I64Const { value } => OpSummary::I64Const(*value),
        O::End => OpSummary::End,
        _ => OpSummary::Other,
    }
}

/// `FunctionBody::get_operators_reader`, then the operators it yields, collected.
/// Per its source, the iterator stops right after the first error it yields.
#[verifier::external_body]
pub(crate) fn body_operators<'a>(b: &wasmparser::FunctionBody<'a>)
    -> Result<Vec<Result<wasmparser::Operator<'a>, wasmparser::BinaryReaderError>>, wasmparser::BinaryReaderError>
{
    Ok(b.get_operators_reader()?.into_iter().collect())
}

/// `FunctionBody::get_locals_reader`, then the local declarations it yields, collected.
#[verifier::external_body]
pub(crate) fn body_locals<'a>(b: &wasmparser::FunctionBody<'a>)
    -> Result<Vec<Result<(u32, wasmparser::ValType), wasmparser::BinaryReaderError>>, wasmparser::BinaryReaderError>
{
    Ok(b.get_locals_reader()?.into_iter().collect())
}

/// Collects the type indices of a function section.
#[verifier::external_body]
pub(crate) fn u32_items<'a>(r: wasmparser::SectionLimited<'a, u32>) -> Vec<Result<u32, wasmparser::BinaryReaderError>> {
    r.into_iter().collect()
}

/// Collects the globals of a global section.
#[verifier::external_body]
pub(crate) fn global_items<'a>(r: wasmparser::SectionLimited<'a, wasmparser::Global<'a>>)
    -> Vec<Result<wasmparser::Global<'a>, wasmparser::BinaryReaderError>>
{
    r.into_iter().collect()
}

/// The value type and flags of a `wasmparser::Global`.
#[verifier::external_body]
pub(crate) fn global_type(g: &wasmparser::Global) -> (wasmparser::ValType, bool, bool) {
    (g.ty.content_type, g.ty.mutable, g.ty.shared)
}

/// The initializer of a `wasmparser::Global`.
#[verifier::external_body]
pub(crate) fn global_init<'a>(g: &wasmparser::Global<'a>) -> wasmparser::ConstExpr<'a> {
    g.init_expr.clone()
}

/// Collects the memory types of a memory section.
#[verifier::external_body]
pub(crate) fn memory_items<'a>(r: wasmparser::SectionLimited<'a, wasmparser::MemoryType>)
    -> Vec<Result<wasmparser::MemoryType, wasmparser::BinaryReaderError>>
{
    r.into_iter().collect()
}

/// Collects the tables of a table section.
#[verifier::external_body]
pub(crate) fn table_items<'a>(r: wasmparser::SectionLimited<'a, wasmparser::Table<'a>>)
    -> Vec<Result<wasmparser::Table<'a>, wasmparser::BinaryReaderError>>
{
    r.into_iter().collect()
}

/// The limits of a `wasmparser::Table`'s type.
#[verifier::external_body]
pub(crate) fn table_limits(t: &wasmparser::Table) -> TableDesc {
    TableDesc { table64: t.ty.table64, initial: t.ty.initial, maximum: t.ty.maximum }
}

/// The number of parameters of a `wasmparser::FuncType` (`params().len()`).
#[verifier::external_body]
pub(crate) fn func_param_count(ft: &wasmparser::FuncType) -> usize {
    ft.params().len()
}

/// Collects the segments of a data section.
#[verifier::external_body]
pub(crate) fn data_items<'a>(r: wasmparser::SectionLimited<'a, wasmparser::Data<'a>>)
    -> Vec<Result<wasmparser::Data<'a>, wasmparser::BinaryReaderError>>
{
    r.into_iter().collect()
}

/// The kind of a `wasmparser::Data` segment (for an active one, its memory
/// index and offset expression) and a copy of its bytes.
#[verifier::external_body]
pub(crate) fn data_parts<'a>(d: &wasmparser::Data<'a>) -> (Option<(u32, wasmparser::ConstExpr<'a>)>, Vec<u8>) {
    let kind = match &d.kind {
        wasmparser::DataKind::Active { memory_index, offset_expr } => Some((*memory_index, offset_expr.clone())),
        wasmparser::DataKind::Passive => None,
    };
    (kind, d.data.to_vec())
}

/// `ConstExpr::get_operators_reader`, then the operators it yields, collected.
/// Per its source, the iterator stops right after the first error it yields.
#[verifier::external_body]
pub(crate) fn const_expr_ops<'a>(e: &wasmparser::ConstExpr<'a>) -> Vec<Result<wasmparser::Operator<'a>, wasmparser::BinaryReaderError>> {
    e.get_operators_reader().into_iter().collect()
}

/// Collects the function types of a type section through
/// `into_iter_err_on_gc_types`, stopping at the first error.
#[verifier::external_body]
pub(crate) fn func_types_strict<'a>(r: wasmparser::SectionLimited<'a, wasmparser::RecGroup>)
    -> Result<Vec<wasmparser::FuncType>, wasmparser::BinaryReaderError>
{
    r.into_iter_err_on_gc_types().collect()
}

/// Collects the segments of an element section, stopping at the first error.
#[verifier::external_body]
pub(crate) fn element_items_strict<'a>(r: wasmparser::SectionLimited<'a, wasmparser::Element<'a>>)
    -> Result<Vec<wasmparser::Element<'a>>, wasmparser::BinaryReaderError>
{
    r.into_iter().collect()
}

/// The module names of the imports that `wasmparser` reads from the bytes
/// `section` of an import section found at byte `offset` of the input, in
/// order (the read stops at the first import that does not parse).
pub uninterp spec fn import_section_modules(section: Seq<u8>, offset: u64) -> Seq<Seq<char>>;

/// `ImportSectionReader::new` on a `BinaryReader` over `section` (at byte
/// `offset` of the input), then the module name of each import that
/// `into_imports` yields and that parses; none when the section's count does
/// not parse. The read depends on the bytes and the offset alone, so its result
/// is named.
#[verifier::external_body]
pub(crate) fn read_import_modules(section: &[u8], offset: u64) -> (r: Vec<String>)
    requires
        offset + section@.len() <= u64::MAX,
    ensures
        r@.map_values(|s: String| s@) == import_section_modules(section@, offset),
{
    match wasmparser::ImportSectionReader::new(wasmparser::BinaryReader::new(section, offset)) {
        Ok(r) => r.into_imports().filter_map(|i| i.ok()).map(|i| i.module.to_string()).collect(),
        Err(_) => Vec::new(),
    }
}

/// One instance of a core instance section as plain values: an instantiation's
/// module index and its arguments (name, instance index); `None` for an
/// instance made of exports.
pub type PlainInstance = Option<(u32, Vec<(String, u32)>)>;

pub open spec fn plain_instance_view(i: PlainInstance) -> Option<(u32, Seq<(Seq<char>, u32)>)> {
    match i {
        Some((m, args)) => Some((m, args@.map_values(|a: (String, u32)| (a.0@, a.1)))),
        None => None,
    }
}

pub open spec fn plain_instances_view(v: Seq<PlainInstance>) -> Seq<Option<(u32, Seq<(Seq<char>, u32)>)>> {
    v.map_values(|i: PlainInstance| plain_instance_view(i))
}

/// What `wasmparser` reads from the bytes `section` of a core instance section
/// found at byte `offset` of the input: its instances, or the text of the first
/// error.
pub uninterp spec fn instance_section_items(section: Seq<u8>, offset: u64)
    -> Result<Seq<Option<(u32, Seq<(Seq<char>, u32)>)>>, Seq<char>>;

/// `InstanceSectionReader::new` on a `BinaryReader` over `section` (at byte
/// `offset` of the input), then its instances collected as plain values,
/// stopping at the first error (its text). The read depends on the bytes and
/// the offset alone, so its result is named.
#[verifier::external_body]
pub(crate) fn read_instance_section(section: &[u8], offset: u64) -> (r: Result<Vec<PlainInstance>, String>)
    requires
        offset + section@.len() <= u64::MAX,
    ensures
        match r {
            Ok(v) => instance_section_items(section@, offset) == Ok::<_, Seq<char>>(plain_instances_view(v@)),
            Err(e) => instance_section_items(section@, offset) == Err::<Seq<Option<(u32, Seq<(Seq<char>, u32)>)>>, _>(e@),
        },
{
    let reader = wasmparser::InstanceSectionReader::new(wasmparser::BinaryReader::new(section, offset)).map_err(|e| e.to_string())?;
    reader.into_iter().map(|i| match i.map_err(|e| e.to_string())? {
        wasmparser::Instance::Instantiate { module_index, args } =>
            Ok(Some((module_index, args.iter().map(|a| (a.name.to_string(), a.index)).collect()))),
        wasmparser::Instance::FromExports(_) => Ok(None),
    }).collect()
}

} // verus!
