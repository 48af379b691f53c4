use wasm_merge::component::{Component, CoreInstance, CoreModule};
use wasm_merge::merge::merge;

fn module(text: &str) -> CoreModule {
    CoreModule { wasm: wat::parse_str(text).unwrap() }
}

#[test]
fn merge_resolves_cross_module_call() {
    let lib = module(r#"(module
        (memory (export "memory") 1)
        (func (export "get") (result i32) (i32.load (i32.const 0))))"#);
    let app = module(r#"(module
        (import "lib" "get" (func $get (result i32)))
        (memory 1)
        (func (export "run") (result i32) (call $get)))"#);
    let component = Component {
        modules: vec![app, lib],
        instances: vec![
            CoreInstance { module_idx: 1, args: vec![] },
            CoreInstance { module_idx: 0, args: vec![("lib".to_string(), 0)] },
        ],
    };
    let out = merge(&component, None).unwrap();
    let text = wasmprinter_free_check(&out);
    assert!(text);
}

fn wasmprinter_free_check(bytes: &[u8]) -> bool {
    let mut validator = wasmparser::Validator::new();
    validator.validate_all(bytes).is_ok()
}

fn exports_of(bytes: &[u8]) -> Vec<(String, u32)> {
    let mut out = Vec::new();
    for payload in wasmparser::Parser::new(0).parse_all(bytes) {
        if let wasmparser::Payload::ExportSection(r) = payload.unwrap() {
            for e in r {
                let e = e.unwrap();
                out.push((e.name.to_string(), e.index));
            }
        }
    }
    out
}

fn counts_of(bytes: &[u8]) -> (u32, u32) {
    let (mut imports, mut memories) = (0, 0);
    for payload in wasmparser::Parser::new(0).parse_all(bytes) {
        match payload.unwrap() {
            wasmparser::Payload::ImportSection(r) => imports += r.count(),
            wasmparser::Payload::MemorySection(r) => memories += r.count(),
            _ => {}
        }
    }
    (imports, memories)
}

fn two_module_component() -> Component {
    let lib = module(r#"(module
        (import "wasi" "clock" (func $clock (result i64)))
        (memory (export "memory") 1)
        (func (export "get") (result i32) (i32.load (i32.const 0))))"#);
    let app = module(r#"(module
        (import "lib" "get" (func $get (result i32)))
        (import "wasi" "clock" (func $clock (result i64)))
        (memory (export "memory") 1)
        (func (export "run") (result i32) (call $get)))"#);
    Component {
        modules: vec![app, lib],
        instances: vec![
            CoreInstance { module_idx: 1, args: vec![] },
            CoreInstance { module_idx: 0, args: vec![("lib".to_string(), 0)] },
        ],
    }
}

#[test]
fn merge_keeps_one_memory_per_module_and_one_import_per_name() {
    let out = merge(&two_module_component(), None).unwrap();
    assert!(wasmprinter_free_check(&out));
    // The shared WASI import is kept once; each module keeps its memory.
    assert_eq!(counts_of(&out), (1, 2));
    // The app merges first: its functions follow the kept import; the
    // library's second memory export is renamed after its label.
    let exports = exports_of(&out);
    assert_eq!(exports.len(), 4);
    assert_eq!(exports[0], ("memory".to_string(), 0));
    assert_eq!(exports[1].0, "run");
    assert_eq!(exports[2].0, "lib_memory");
    assert_eq!(exports[2].1, 1);
    assert_eq!(exports[3].0, "get");
}

#[test]
fn merge_exports_only_the_selected_module() {
    let out = merge(&two_module_component(), Some("0")).unwrap();
    assert!(wasmprinter_free_check(&out));
    let names: Vec<String> = exports_of(&out).into_iter().map(|e| e.0).collect();
    assert_eq!(names, vec!["memory".to_string(), "run".to_string()]);
}

#[test]
fn merge_reports_unparsable_modules() {
    let component = Component { modules: vec![CoreModule { wasm: vec![0, 97, 115] }], instances: vec![] };
    assert!(merge(&component, None).is_err());
}

#[test]
fn unresolved_import_takes_the_first_module_type() {
    let a = module(r#"(module
        (type (func (param i64)))
        (type (func (param i32)))
        (import "env" "f" (func (type 1)))
        (memory 1))"#);
    let b = module(r#"(module
        (import "env" "f" (func (param i32)))
        (memory 1))"#);
    let component = Component { modules: vec![a, b], instances: vec![] };
    let out = merge(&component, None).unwrap();
    assert!(wasmprinter_free_check(&out));
    let mut types = Vec::new();
    for payload in wasmparser::Parser::new(0).parse_all(&out) {
        if let wasmparser::Payload::ImportSection(r) = payload.unwrap() {
            for imp in r.into_imports() {
                if let wasmparser::TypeRef::Func(t) = imp.unwrap().ty {
                    types.push(t);
                }
            }
        }
    }
    // Module a comes first in the merge order: its type 1 stays type 1.
    assert_eq!(types, vec![1]);
}
