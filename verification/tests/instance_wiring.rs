use wasm_merge::wiring::{distinct_names, import_namespaces, wire_instances};

fn strings(list: &[&str]) -> Vec<String> {
    list.iter().map(|s| s.to_string()).collect()
}

#[test]
fn namespaces_are_listed_once_in_first_seen_order() {
    let wasm = wat::parse_str(
        r#"(module
          (import "lib" "f" (func))
          (import "wasi" "g" (func))
          (import "lib" "h" (func)))"#,
    )
    .unwrap();
    assert_eq!(import_namespaces(&wasm), strings(&["lib", "wasi"]));
    assert_eq!(distinct_names(&strings(&["x", "y", "x", "z", "y"])), strings(&["x", "y", "z"]));
}

#[test]
fn dependencies_are_instantiated_first() {
    // b imports from "a", a imports nothing: a's instance is made when b needs it.
    let labels = strings(&["b", "a"]);
    let namespaces = vec![strings(&["a", "wasi"]), strings(&[])];
    let insts = wire_instances(&labels, &namespaces);
    let view: Vec<(u32, Vec<(String, u32)>)> = insts.iter().map(|i| (i.module_idx, i.args.clone())).collect();
    assert_eq!(view, vec![(1, vec![]), (0, vec![("a".to_string(), 0)])]);
}

#[test]
fn every_module_is_instantiated_once() {
    let labels = strings(&["app", "lib", "util"]);
    let namespaces = vec![strings(&["lib", "util"]), strings(&["util"]), strings(&[])];
    let insts = wire_instances(&labels, &namespaces);
    let mut modules: Vec<u32> = insts.iter().map(|i| i.module_idx).collect();
    assert_eq!(modules, vec![1, 2, 0]);
    modules.sort();
    assert_eq!(modules, vec![0, 1, 2]);
    // lib's instance (0) gets its own argument once lib's turn comes.
    assert_eq!(insts[0].args, vec![("util".to_string(), 1)]);
    assert_eq!(insts[2].args, vec![("lib".to_string(), 0), ("util".to_string(), 1)]);
}
