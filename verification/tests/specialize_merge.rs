use wasm_merge::analyze::analyze_lib;
use wasm_merge::component::{Component, CoreModule};
use wasm_merge::specialize::specialize_merge;
use wasm_merge::isolation::{verify_isolation, MergeManifest};
use std::collections::HashSet;

const LIBC: &str = r#"(module
  (memory (export "memory") 1)
  (global $heap_end (mut i32) (i32.const 4096))
  (func $sbrk (export "sbrk") (param $n i32) (result i32)
    (local $p i32)
    (local.set $p (global.get $heap_end))
    (global.set $heap_end (i32.add (global.get $heap_end) (local.get $n)))
    (local.get $p))
  (func $malloc (export "malloc") (param $size i32) (result i32)
    (call $sbrk (call $align_up (local.get $size) (i32.const 8))))
  (func $strlen (export "strlen") (param $s i32) (result i32)
    (local $n i32)
    (block $done
      (loop $l
        (br_if $done (i32.eqz (i32.load8_u offset=4 (i32.add (local.get $s) (local.get $n)))))
        (local.set $n (i32.add (local.get $n) (i32.const 1)))
        (br $l)))
    (local.get $n))
  (func $align_up (export "align_up") (param $n i32) (param $a i32) (result i32)
    (i32.and
      (i32.add (local.get $n) (i32.sub (local.get $a) (i32.const 1)))
      (i32.sub (i32.const 0) (local.get $a)))))"#;

const APP_A: &str = r#"(module
  (import "lib" "malloc" (func $malloc (param i32) (result i32)))
  (func (export "alloc_a") (param i32) (result i32) (call $malloc (local.get 0))))"#;

const APP_B: &str = r#"(module
  (import "lib" "malloc" (func $malloc (param i32) (result i32)))
  (import "lib" "strlen" (func $strlen (param i32) (result i32)))
  (func (export "alloc_b") (param i32) (result i32)
    (call $strlen (call $malloc (local.get 0)))))"#;

fn module(text: &str) -> CoreModule {
    CoreModule { wasm: wat::parse_str(text).unwrap() }
}

fn exports_of(bytes: &[u8]) -> Vec<(String, wasmparser::ExternalKind, u32)> {
    let mut out = Vec::new();
    for payload in wasmparser::Parser::new(0).parse_all(bytes) {
        if let wasmparser::Payload::ExportSection(r) = payload.unwrap() {
            for e in r {
                let e = e.unwrap();
                out.push((e.name.to_string(), e.kind, e.index));
            }
        }
    }
    out
}

fn bodies_of(bytes: &[u8]) -> Vec<Vec<String>> {
    let mut out = Vec::new();
    for payload in wasmparser::Parser::new(0).parse_all(bytes) {
        if let wasmparser::Payload::CodeSectionEntry(body) = payload.unwrap() {
            let ops = body
                .get_operators_reader()
                .unwrap()
                .into_iter()
                .map(|op| format!("{:?}", op.unwrap()))
                .collect();
            out.push(ops);
        }
    }
    out
}

fn libc_component() -> Component {
    Component { modules: vec![module(APP_A), module(APP_B), module(LIBC)], instances: vec![] }
}

#[test]
fn analysis_marks_state_touching_functions() {
    let lib = wat::parse_str(LIBC).unwrap();
    let a = analyze_lib(&lib).unwrap();
    assert_eq!(a.num_imported_functions, 0);
    assert_eq!(a.num_functions, 4);
    assert_eq!(a.mutable_globals, vec![0]);
    assert_eq!(a.state_touching, vec![true, true, true, false]);
    assert_eq!(a.direct, vec![true, false, true, false]);
    assert_eq!(a.callees[1], vec![3, 0]);
    let names: Vec<&str> = a.exports.iter().map(|(n, _)| n.as_str()).collect();
    assert_eq!(names, vec!["sbrk", "malloc", "strlen", "align_up"]);
}

#[test]
fn specialize_readme_libc_example() {
    let out = specialize_merge(&libc_component(), 2, &vec![0, 1], None).unwrap();
    let mut validator = wasmparser::Validator::new();
    validator.validate_all(&out).unwrap();

    // Library functions 0..4 are shared; the copies follow: app_a gets sbrk
    // and malloc (4, 5), app_b sbrk, malloc and strlen (6, 7, 8); then the
    // shell wrappers, one row per state-touching export (9..15); then the
    // consumers' own functions (15, 16).
    let exports = exports_of(&out);
    let funcs: Vec<(String, u32)> = exports
        .iter()
        .filter(|e| e.1 == wasmparser::ExternalKind::Func)
        .map(|e| (e.0.clone(), e.2))
        .collect();
    assert_eq!(
        funcs,
        vec![
            ("sbrk".to_string(), 9),
            ("malloc".to_string(), 11),
            ("strlen".to_string(), 13),
            ("align_up".to_string(), 3),
            ("alloc_a".to_string(), 15),
            ("alloc_b".to_string(), 16),
        ]
    );
    let bodies = bodies_of(&out);
    assert_eq!(bodies.len(), 17);
    // app_a's copy of sbrk uses global 0, app_b's copy global 1.
    assert!(bodies[4].iter().any(|o| o == "GlobalGet { global_index: 0 }"));
    assert!(!bodies[4].iter().any(|o| o.contains("global_index: 1")));
    assert!(bodies[6].iter().any(|o| o == "GlobalGet { global_index: 1 }"));
    // app_b's copy of malloc calls app_b's copy of sbrk and the shared align_up.
    assert!(bodies[7].iter().any(|o| o == "Call { function_index: 6 }"));
    assert!(bodies[7].iter().any(|o| o == "Call { function_index: 3 }"));
    // app_b's copy of strlen loads from memory 1, its offset folded into the address.
    let strlen_b = bodies[8].join(" ");
    assert!(strlen_b.contains("I32Const { value: 4 } I32Add I32Load8U"));
    assert!(strlen_b.contains("Memory(1)"));
    // The shells: app_b's malloc wrapper (row 1, consumer 1 → 12) calls copy 7.
    assert_eq!(bodies[12], vec!["LocalGet { local_index: 0 }", "Call { function_index: 7 }", "End"]);
    // app_b calls its own wrappers: malloc at 12, strlen at 14.
    assert!(bodies[16].iter().any(|o| o == "Call { function_index: 12 }"));
    assert!(bodies[16].iter().any(|o| o == "Call { function_index: 14 }"));
    assert!(bodies[15].iter().any(|o| o == "Call { function_index: 11 }"));
}

#[test]
fn specialize_keeps_unresolved_consumer_imports() {
    let app = module(
        r#"(module
          (import "wasi" "fd_write" (func $w (param i32) (result i32)))
          (import "lib" "align_up" (func $a (param i32 i32) (result i32)))
          (func (export "run") (result i32) (call $w (call $a (i32.const 1) (i32.const 8)))))"#,
    );
    let component = Component { modules: vec![app, module(LIBC)], instances: vec![] };
    let out = specialize_merge(&component, 1, &vec![0], None).unwrap();
    let mut validator = wasmparser::Validator::new();
    validator.validate_all(&out).unwrap();
    let bodies = bodies_of(&out);
    // fd_write stays import 0; the library's functions move up by one; the
    // pure align_up is entered at its shared body (4) and gets no copy: the
    // four library bodies, then (sbrk, malloc and strlen touch state) three
    // shell wrappers, then run.
    let run = bodies.last().unwrap();
    assert!(run.iter().any(|o| o == "Call { function_index: 0 }"));
    assert!(run.iter().any(|o| o == "Call { function_index: 4 }"));
    assert_eq!(bodies.len(), 8);
}

#[test]
fn specialize_reports_library_parse_errors() {
    let component = Component { modules: vec![module(APP_A), CoreModule { wasm: vec![0, 1, 2] }], instances: vec![] };
    assert!(specialize_merge(&component, 1, &vec![0], None).is_err());
}

#[test]
fn specialize_without_consumers_needs_no_wrappers_for_pure_exports() {
    let lib = module(r#"(module (func (export "id") (param i32) (result i32) (local.get 0)))"#);
    let component = Component { modules: vec![lib], instances: vec![] };
    let out = specialize_merge(&component, 0, &vec![], None).unwrap();
    assert_eq!(exports_of(&out), vec![("id".to_string(), wasmparser::ExternalKind::Func, 0)]);
}

#[test]
fn specialize_without_consumers_refuses_state_touching_exports() {
    let component = Component { modules: vec![module(LIBC)], instances: vec![] };
    let err = specialize_merge(&component, 0, &vec![], None).unwrap_err();
    assert_eq!(err, "a state-touching export needs a shell wrapper but there is no consumer");
}

#[test]
fn specialized_copies_pass_the_isolation_check() {
    let out = specialize_merge(&libc_component(), 2, &vec![0, 1], None).unwrap();
    let only = |m: u32| Some([m].into_iter().collect::<HashSet<u32>>());
    let mut allowed = vec![only(0), None, only(0), None];
    allowed.extend([only(0), only(0)]);
    allowed.extend([only(1), only(1), only(1)]);
    allowed.extend((0..6).map(|_| None));
    allowed.extend([None, None]);
    let manifest = MergeManifest { num_imported_functions: 0, func_allowed_memories: allowed };
    assert!(verify_isolation(&out, &manifest).is_empty());
    // Swapping the consumers' memories makes every copy's access a violation.
    let mut swapped = manifest.func_allowed_memories.clone();
    swapped[8] = only(0);
    let v = verify_isolation(&out, &MergeManifest { num_imported_functions: 0, func_allowed_memories: swapped });
    assert_eq!(v.len(), 1);
    assert_eq!(v[0].message(), "func 8: i32.load8_u accesses memory 1");
}

#[test]
fn specialize_exports_from_keeps_one_module() {
    let out = specialize_merge(&libc_component(), 2, &vec![0, 1], Some(0)).unwrap();
    assert_eq!(exports_of(&out), vec![("alloc_a".to_string(), wasmparser::ExternalKind::Func, 15)]);
    let out = specialize_merge(&libc_component(), 2, &vec![0, 1], Some(2)).unwrap();
    let names: Vec<String> = exports_of(&out).into_iter().map(|e| e.0).collect();
    assert_eq!(names, vec!["memory", "sbrk", "malloc", "strlen", "align_up"]);
}

#[test]
fn consumer_loads_use_their_own_memory() {
    let app_c = module(
        r#"(module
          (import "lib" "memory" (memory 1))
          (import "lib" "malloc" (func $malloc (param i32) (result i32)))
          (func (export "peek") (param i32) (result i32) (i32.load offset=4 (local.get 0))))"#,
    );
    let component = Component { modules: vec![module(APP_A), app_c, module(LIBC)], instances: vec![] };
    let out = specialize_merge(&component, 2, &vec![0, 1], None).unwrap();
    let mut validator = wasmparser::Validator::new();
    validator.validate_all(&out).unwrap();
    let peek = bodies_of(&out).last().unwrap().join(" ");
    assert!(peek.contains("I32Load"));
    assert!(peek.contains("offset: 4"));
    assert!(peek.contains("Memory(1)"));
}

#[test]
fn immutable_globals_are_read_at_their_one_slot() {
    let lib = module(
        r#"(module
          (memory 1)
          (global $count (mut i32) (i32.const 0))
          (global $step i32 (i32.const 3))
          (func (export "bump") (result i32)
            (global.set $count (i32.add (global.get $count) (global.get $step)))
            (global.get $count)))"#,
    );
    let app = |name: &str| {
        module(&format!(
            r#"(module (import "lib" "bump" (func $b (result i32))) (func (export "{name}") (result i32) (call $b)))"#
        ))
    };
    let component = Component { modules: vec![app("a"), app("b"), lib], instances: vec![] };
    let out = specialize_merge(&component, 2, &vec![0, 1], None).unwrap();
    let mut validator = wasmparser::Validator::new();
    validator.validate_all(&out).unwrap();
    // Globals: $count twice (0, 1), then $step once (2). Consumer b's copy of
    // bump (body 2) uses its own $count and the one $step.
    let bodies = bodies_of(&out);
    assert!(bodies[2].iter().any(|o| o == "GlobalGet { global_index: 1 }"));
    assert!(bodies[2].iter().any(|o| o == "GlobalGet { global_index: 2 }"));
    assert!(!bodies[2].iter().any(|o| o == "GlobalGet { global_index: 0 }"));
}
