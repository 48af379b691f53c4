//! The basic merge: every core module of a component becomes part of one
//! multi-memory module, each keeping its own memories, with imports between the
//! modules resolved to the exporting module's items.

use vstd::prelude::*;
use wasm_encoder::reencode::Reencode;
use crate::bindings::{
    parse_fails, payload_tags, PayloadTag,
    error_text, export_entry, export_items, read_import, import_items, parse_payloads, rec_group_len,
    rec_groups, section_count, section_of, Section,
};
use crate::component::Component;
use crate::encode::{
    add_code_section, add_data_section, add_element_section, add_export, add_export_section, add_function_section,
    add_global_section, add_import, add_import_section, add_memory_section, add_table_section, add_type_section,
    element_section_is_empty, enc_memory_type, enc_table_type, funcref, enc_val_type, finish_module, ImportDesc, reencode_body, reencode_data, reencode_elements, reencode_functions,
    reencode_globals, reencode_memories, reencode_tables, reencode_types,
};
use crate::model::{export_sort, ImportEntry, ImportType};
use vstd::string::StringExecFns;
use crate::plan::{
    build_remapper, import_space, lookup, remap_lookup, plan_exports, plan_layout, space_of,
    unresolved_func_type, ModuleInfo, Remapper, Space,
};

verus! {

impl Reencode for Remapper {
    type Error = wasm_encoder::reencode::Error;

    fn function_index(&mut self, idx: u32) -> (r: Result<u32, wasm_encoder::reencode::Error<wasm_encoder::reencode::Error>>)
        ensures
            r matches Ok(v) && v == remap_lookup(old(self).func_map@, idx),
            *final(self) == *old(self),
    {
        Ok(lookup(&self.func_map, idx))
    }

    fn memory_index(&mut self, idx: u32) -> (r: Result<u32, wasm_encoder::reencode::Error<wasm_encoder::reencode::Error>>)
        ensures
            r matches Ok(v) && v == remap_lookup(old(self).mem_map@, idx),
            *final(self) == *old(self),
    {
        Ok(lookup(&self.mem_map, idx))
    }

    fn type_index(&mut self, idx: u32) -> (r: Result<u32, wasm_encoder::reencode::Error<wasm_encoder::reencode::Error>>)
        ensures
            r matches Ok(v) && v == remap_lookup(old(self).type_map@, idx),
            *final(self) == *old(self),
    {
        Ok(lookup(&self.type_map, idx))
    }

    fn global_index(&mut self, idx: u32) -> (r: Result<u32, wasm_encoder::reencode::Error<wasm_encoder::reencode::Error>>)
        ensures
            r matches Ok(v) && v == remap_lookup(old(self).global_map@, idx),
            *final(self) == *old(self),
    {
        Ok(lookup(&self.global_map, idx))
    }

    fn table_index(&mut self, idx: u32) -> (r: Result<u32, wasm_encoder::reencode::Error<wasm_encoder::reencode::Error>>)
        ensures
            r matches Ok(v) && v == remap_lookup(old(self).table_map@, idx),
            *final(self) == *old(self),
    {
        Ok(lookup(&self.table_map, idx))
    }
}

/// `prefix` followed by `e`.
pub fn prefixed(prefix: &str, e: &String) -> (s: String)
    ensures
        s@ == prefix@ + e@,
{
    let mut s = String::from_str(prefix);
    s.append(e.as_str());
    s
}

/// Reads the counts, imports and exports of a core module. The import counts
/// agree with the imports that were read.
#[verifier::loop_isolation(false)]
pub fn scan_module(wasm: &[u8]) -> (r: Result<ModuleInfo, String>)
    ensures
        parse_fails(wasm@) ==> r is Err,
        r matches Ok(info) ==> info.wf(),
{
    let mut info = ModuleInfo {
        type_count: 0,
        func_count: 0,
        mem_count: 0,
        table_count: 0,
        global_count: 0,
        imported_func_count: 0,
        imported_mem_count: 0,
        imported_table_count: 0,
        imported_global_count: 0,
        exports: Vec::new(),
        imports: Vec::new(),
    };
    let (payloads, tags) = parse_payloads(wasm);
    let mut i: usize = 0;
    while i < payloads.len()
        invariant
            i <= payloads.len(),
            tags@ == payload_tags(wasm@),
            tags.len() == payloads.len(),
            forall|j: int| 0 <= j < payloads.len() ==> (payloads@[j] is Err <==> #[trigger] tags@[j] == PayloadTag::Failed),
            forall|j: int| 0 <= j < i ==> #[trigger] tags@[j] != PayloadTag::Failed,
            i <= payloads.len(),
            info.wf(),
        decreases payloads.len() - i,
    {
        match &payloads[i] {
            Err(e) => {
                return Err(prefixed("Parse: ", &error_text(e)));
            },
            Ok(p) => {
                match section_of(p) {
                    Section::Types(reader) => {
                        let groups = rec_groups(reader);
                        let mut k: usize = 0;
                        while k < groups.len()
                            invariant
                                k <= groups.len(),
                                info.wf(),
                            decreases groups.len() - k,
                        {
                            match &groups[k] {
                                Err(e) => {
                                    return Err(prefixed("Type: ", &error_text(e)));
                                },
                                Ok(g) => {
                                    let n = rec_group_len(g);
                                    if n > u32::MAX as usize || info.type_count > u32::MAX - n as u32 {
                                        return Err(String::from_str("Type: too many types"));
                                    }
                                    info.type_count = info.type_count + n as u32;
                                },
                            }
                            k += 1;
                        }
                    },
                    Section::Imports(reader) => {
                        let items = import_items(reader);
                        let mut k: usize = 0;
                        while k < items.len()
                            invariant
                                k <= items.len(),
                                info.wf(),
                            decreases items.len() - k,
                        {
                            match &items[k] {
                                Err(e) => {
                                    return Err(prefixed("Import: ", &error_text(e)));
                                },
                                Ok(imp) => {
                                    let entry = read_import(imp);
                                    if !record_import(&mut info, entry) {
                                        return Err(String::from_str("Import: too many imports"));
                                    }
                                },
                            }
                            k += 1;
                        }
                    },
                    Section::Functions(reader) => {
                        info.func_count = section_count(&reader);
                    },
                    Section::Memories(reader) => {
                        info.mem_count = section_count(&reader);
                    },
                    Section::Tables(reader) => {
                        info.table_count = section_count(&reader);
                    },
                    Section::Globals(reader) => {
                        info.global_count = section_count(&reader);
                    },
                    Section::Exports(reader) => {
                        let items = export_items(reader);
                        let mut k: usize = 0;
                        while k < items.len()
                            invariant
                                k <= items.len(),
                                info.wf(),
                            decreases items.len() - k,
                        {
                            match &items[k] {
                                Err(e) => {
                                    return Err(prefixed("Export: ", &error_text(e)));
                                },
                                Ok(e) => {
                                    info.exports.push(export_entry(e));
                                },
                            }
                            k += 1;
                        }
                    },
                    _ => {},
                }
            },
        }
        i += 1;
    }
    Ok(info)
}

/// Records one import, counting it in its index space; `false` (and nothing
/// recorded) when the count would pass `u32::MAX`.
fn record_import(info: &mut ModuleInfo, entry: ImportEntry) -> (ok: bool)
    requires
        old(info).wf(),
    ensures
        final(info).wf(),
        ok <==> match import_space(entry.ty) {
            Some(sp) => old(info).imported(sp) < u32::MAX,
            None => true,
        },
        ok ==> final(info).imports@ == old(info).imports@.push(entry),
        !ok ==> *final(info) == *old(info),
{
    let ghost before = info.imports@;
    let sp = space_of(&entry.ty);
    match sp {
        Some(Space::Func) => {
            if info.imported_func_count == u32::MAX {
                return false;
            }
            info.imported_func_count = info.imported_func_count + 1;
        },
        Some(Space::Memory) => {
            if info.imported_mem_count == u32::MAX {
                return false;
            }
            info.imported_mem_count = info.imported_mem_count + 1;
        },
        Some(Space::Table) => {
            if info.imported_table_count == u32::MAX {
                return false;
            }
            info.imported_table_count = info.imported_table_count + 1;
        },
        Some(Space::Global) => {
            if info.imported_global_count == u32::MAX {
                return false;
            }
            info.imported_global_count = info.imported_global_count + 1;
        },
        None => {},
    }
    let ghost e = entry;
    info.imports.push(entry);
    proof {
        assert(info.imports@.drop_last() =~= before);
    }
    true
}

/// Reads every module of the component; the first failure is returned.
pub fn scan_modules(component: &Component) -> (r: Result<Vec<ModuleInfo>, String>)
    ensures
        (exists|k: int| 0 <= k < component.modules.len() && parse_fails(#[trigger] component.modules@[k].wasm@))
            ==> r is Err,
        r matches Ok(infos) ==> infos.len() == component.modules.len()
            && forall|k: int| 0 <= k < infos.len() ==> (#[trigger] infos@[k]).wf(),
{
    let mut infos: Vec<ModuleInfo> = Vec::new();
    let mut k: usize = 0;
    while k < component.modules.len()
        invariant
            k <= component.modules.len(),
            infos.len() == k,
            forall|j: int| 0 <= j < infos.len() ==> (#[trigger] infos@[j]).wf(),
            forall|j: int| 0 <= j < k ==> !parse_fails(#[trigger] component.modules@[j].wasm@),
        decreases component.modules.len() - k,
    {
        match scan_module(component.modules[k].wasm.as_slice()) {
            Ok(info) => infos.push(info),
            Err(e) => return Err(e),
        }
        k += 1;
    }
    Ok(infos)
}

/// Re-encodes the sections of one module through its index maps into the
/// merged sections (its imports are not copied: the merge resolves them).
fn emit_module_sections(
    wasm: &[u8],
    rm: &mut Remapper,
    type_sec: &mut wasm_encoder::TypeSection,
    func_sec: &mut wasm_encoder::FunctionSection,
    mem_sec: &mut wasm_encoder::MemorySection,
    table_sec: &mut wasm_encoder::TableSection,
    global_sec: &mut wasm_encoder::GlobalSection,
    code_sec: &mut wasm_encoder::CodeSection,
    data_sec: &mut wasm_encoder::DataSection,
    elem_sec: &mut wasm_encoder::ElementSection,
) -> Result<(), String> {
    let (payloads, tags) = parse_payloads(wasm);
    let mut i: usize = 0;
    while i < payloads.len()
        decreases payloads.len() - i,
    {
        match &payloads[i] {
            Err(e) => {
                return Err(prefixed("Parse: ", &error_text(e)));
            },
            Ok(p) => {
                let res = match section_of(p) {
                    Section::Types(r) => with_prefix("Type: ", reencode_types(rm, type_sec, r)),
                    Section::Functions(r) => with_prefix("Func: ", reencode_functions(rm, func_sec, r)),
                    Section::Memories(r) => with_prefix("Mem: ", reencode_memories(rm, mem_sec, r)),
                    Section::Tables(r) => with_prefix("Table: ", reencode_tables(rm, table_sec, r)),
                    Section::Globals(r) => with_prefix("Global: ", reencode_globals(rm, global_sec, r)),
                    Section::CodeEntry(b) => with_prefix("Code: ", reencode_body(rm, code_sec, b)),
                    Section::Data(r) => with_prefix("Data: ", reencode_data(rm, data_sec, r)),
                    Section::Elements(r) => with_prefix("Elem: ", reencode_elements(rm, elem_sec, r)),
                    _ => Ok(()),
                };
                match res {
                    Ok(()) => {},
                    Err(e) => return Err(e),
                }
            },
        }
        i += 1;
    }
    Ok(())
}

/// The error of `r`, if any, with `prefix` in front.
pub fn with_prefix(prefix: &str, r: Result<(), String>) -> (out: Result<(), String>)
    ensures
        r is Ok <==> out is Ok,
        r matches Err(e) ==> (out matches Err(o) && o@ == prefix@ + e@),
{
    match r {
        Ok(()) => Ok(()),
        Err(e) => Err(prefixed(prefix, &e)),
    }
}

/// Merge the component's core modules into a single multi-memory core module.
/// If `exports_from` is Some(label), only re-export from the module with that
/// label (or at that merge position, or with that module index). Otherwise,
/// re-export from all modules.
///
/// The layout it emits is `plan::plan_layout`'s, the index maps are
/// `plan::build_remapper`'s and the exports `plan::plan_exports`'.
pub fn merge(component: &Component, exports_from: Option<&str>) -> (r: Result<Vec<u8>, String>)
    requires
        component.instances.len() <= u32::MAX,
        forall|i: int| 0 <= i < component.instances.len() ==>
            (#[trigger] component.instances@[i]).module_idx < component.modules.len(),
    ensures
        (exists|k: int| 0 <= k < component.modules.len() && parse_fails(#[trigger] component.modules@[k].wasm@))
            ==> r is Err,
{
    let infos = match scan_modules(component) {
        Ok(infos) => infos,
        Err(e) => return Err(e),
    };
    let ghost instances = component.instances@;
    let layout = match plan_layout(&component.instances, &infos) {
        Some(l) => l,
        None => return Err(String::from_str("index spaces of the merged module exceed 32 bits")),
    };
    let n = layout.order.len();
    let mut remappers: Vec<Remapper> = Vec::new();
    let mut p: usize = 0;
    while p < n
        invariant
            n == layout.order.len(),
            layout.valid(instances, infos@),
            forall|j: int| 0 <= j < infos.len() ==> (#[trigger] infos@[j]).wf(),
            p <= n,
            remappers.len() == p,
        decreases n - p,
    {
        remappers.push(build_remapper(&layout, Ghost(instances), &infos, p));
        p += 1;
    }

    let mut type_sec = wasm_encoder::TypeSection::new();
    let mut func_sec = wasm_encoder::FunctionSection::new();
    let mut mem_sec = wasm_encoder::MemorySection::new();
    let mut table_sec = wasm_encoder::TableSection::new();
    let mut global_sec = wasm_encoder::GlobalSection::new();
    let mut export_sec = wasm_encoder::ExportSection::new();
    let mut code_sec = wasm_encoder::CodeSection::new();
    let mut data_sec = wasm_encoder::DataSection::new();
    let mut elem_sec = wasm_encoder::ElementSection::new();

    let mut p: usize = 0;
    while p < n
        invariant
            n == layout.order.len(),
            layout.valid(instances, infos@),
            forall|j: int| 0 <= j < infos.len() ==> (#[trigger] infos@[j]).wf(),
            infos.len() == component.modules.len(),
            p <= n,
        decreases n - p,
    {
        let mi = layout.order[p];
        let mut rm = build_remapper(&layout, Ghost(instances), &infos, p);
        match emit_module_sections(
            component.modules[mi].wasm.as_slice(),
            &mut rm,
            &mut type_sec,
            &mut func_sec,
            &mut mem_sec,
            &mut table_sec,
            &mut global_sec,
            &mut code_sec,
            &mut data_sec,
            &mut elem_sec,
        ) {
            Ok(()) => {},
            Err(e) => return Err(e),
        }
        p += 1;
    }

    let exports = plan_exports(&layout, Ghost(instances), &infos, &remappers, exports_from);
    let mut k: usize = 0;
    while k < exports.len()
        decreases exports.len() - k,
    {
        add_export(&mut export_sec, exports[k].name.as_str(), export_sort(exports[k].kind), exports[k].index);
        k += 1;
    }

    let mut output = wasm_encoder::Module::new();
    add_type_section(&mut output, &type_sec);

    if layout.unresolved_funcs.len() > 0 || layout.unresolved_mems.len() > 0 || layout.unresolved_globals.len() > 0
        || layout.unresolved_tables.len() > 0 {
        let mut imp_sec = wasm_encoder::ImportSection::new();
        let mut k: usize = 0;
        while k < layout.unresolved_funcs.len()
            invariant
                layout.valid(instances, infos@),
                remappers.len() == layout.order.len(),
            decreases layout.unresolved_funcs.len() - k,
        {
            let u = &layout.unresolved_funcs[k];
            match u.ty {
                ImportType::Func(orig) => {
                    let ti = unresolved_func_type(&layout, Ghost(instances), &infos, &remappers, &u.module, &u.field, orig);
                    add_import(&mut imp_sec, u.module.as_str(), u.field.as_str(), ImportDesc::Function(ti));
                },
                _ => {},
            }
            k += 1;
        }
        let mut k: usize = 0;
        while k < layout.unresolved_mems.len()
            decreases layout.unresolved_mems.len() - k,
        {
            let u = &layout.unresolved_mems[k];
            match u.ty {
                ImportType::Memory(m) => add_import(
                    &mut imp_sec,
                    u.module.as_str(),
                    u.field.as_str(),
                    ImportDesc::Memory(enc_memory_type(m)),
                ),
                _ => {},
            }
            k += 1;
        }
        let mut k: usize = 0;
        while k < layout.unresolved_globals.len()
            decreases layout.unresolved_globals.len() - k,
        {
            let u = &layout.unresolved_globals[k];
            match u.ty {
                ImportType::Global { ty, mutable, shared } => {
                    match enc_val_type(ty) {
                        Ok(v) => add_import(&mut imp_sec, u.module.as_str(), u.field.as_str(), ImportDesc::Global(v, mutable, shared)),
                        Err(e) => return Err(e),
                    }
                },
                _ => {},
            }
            k += 1;
        }
        let mut k: usize = 0;
        while k < layout.unresolved_tables.len()
            decreases layout.unresolved_tables.len() - k,
        {
            let u = &layout.unresolved_tables[k];
            match u.ty {
                ImportType::Table(t) => add_import(
                    &mut imp_sec,
                    u.module.as_str(),
                    u.field.as_str(),
                    // A table import is written with funcref elements, unshared.
                    ImportDesc::Table(enc_table_type(t, funcref(), false)),
                ),
                _ => {},
            }
            k += 1;
        }
        add_import_section(&mut output, &imp_sec);
    }

    add_function_section(&mut output, &func_sec);
    if layout.totals.table_base > 0 {
        add_table_section(&mut output, &table_sec);
    }
    add_memory_section(&mut output, &mem_sec);
    if layout.totals.global_base > 0 {
        add_global_section(&mut output, &global_sec);
    }
    add_export_section(&mut output, &export_sec);
    if !element_section_is_empty(&elem_sec) {
        add_element_section(&mut output, &elem_sec);
    }
    add_code_section(&mut output, &code_sec);
    add_data_section(&mut output, &data_sec);
    Ok(finish_module(output))
}

} // verus!
