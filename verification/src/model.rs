//! Plain descriptions of the parts of a core module that the merge logic reads.

use vstd::prelude::*;

verus! {

/// The kind of an exported or imported item, as the binary format names it.
#[derive(PartialEq, Eq, Structural, Clone, Copy, Debug)]
pub enum ExternKind {
    Func,
    Table,
    Memory,
    Global,
    Tag,
    FuncExact,
}

/// The export sorts of the binary format's export section.
#[derive(PartialEq, Eq, Structural, Clone, Copy, Debug)]
pub enum ExportSort {
    Func,
    Table,
    Memory,
    Global,
    Tag,
}

/// The sort an export of kind `k` is written with: an exact function export is
/// written as a function export (the export section has no sort of its own
/// for it).
pub open spec fn export_sort_spec(k: ExternKind) -> ExportSort {
    match k {
        ExternKind::Func => ExportSort::Func,
        ExternKind::FuncExact => ExportSort::Func,
        ExternKind::Table => ExportSort::Table,
        ExternKind::Memory => ExportSort::Memory,
        ExternKind::Global => ExportSort::Global,
        ExternKind::Tag => ExportSort::Tag,
    }
}

pub fn export_sort(k: ExternKind) -> (s: ExportSort)
    ensures
        s == export_sort_spec(k),
{
    match k {
        ExternKind::Func => ExportSort::Func,
        ExternKind::FuncExact => ExportSort::Func,
        ExternKind::Table => ExportSort::Table,
        ExternKind::Memory => ExportSort::Memory,
        ExternKind::Global => ExportSort::Global,
        ExternKind::Tag => ExportSort::Tag,
    }
}

/// Limits of an imported or defined memory.
#[derive(PartialEq, Eq, Structural, Clone, Copy, Debug)]
pub struct MemoryDesc {
    pub memory64: bool,
    pub shared: bool,
    pub initial: u64,
    pub maximum: Option<u64>,
    pub page_size_log2: Option<u32>,
}

/// Limits of an imported or defined table (its element type is not kept).
#[derive(PartialEq, Eq, Structural, Clone, Copy, Debug)]
pub struct TableDesc {
    pub table64: bool,
    pub initial: u64,
    pub maximum: Option<u64>,
}

/// What an import brings in, with the parts the merge re-emits.
#[derive(Clone, Copy, Debug)]
pub enum ImportType {
    /// A function of the given type index.
    Func(u32),
    Table(TableDesc),
    Memory(MemoryDesc),
    /// A global; `ty` is its value type as parsed.
    Global { ty: wasmparser::ValType, mutable: bool, shared: bool },
    Tag,
    /// A function import that demands an exact type.
    FuncExact(u32),
}

/// One import of a core module.
#[derive(Debug)]
pub struct ImportEntry {
    pub module: String,
    pub field: String,
    pub ty: ImportType,
}

/// One export of a core module.
#[derive(Debug)]
pub struct ExportEntry {
    pub name: String,
    pub kind: ExternKind,
    pub index: u32,
}

impl ImportEntry {
    /// A copy of this import.
    pub fn duplicate(&self) -> (r: ImportEntry)
        ensures
            r == *self,
    {
        ImportEntry { module: self.module.clone(), field: self.field.clone(), ty: self.ty }
    }
}

impl ExportEntry {
    /// A copy of this export.
    pub fn duplicate(&self) -> (r: ExportEntry)
        ensures
            r == *self,
    {
        ExportEntry { name: self.name.clone(), kind: self.kind, index: self.index }
    }
}

} // verus!
