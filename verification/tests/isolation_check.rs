use std::collections::HashSet;
use wasm_merge::isolation::{manifest_violations, verify_isolation, MergeManifest, Violation};
use wasm_merge::ops::{MemOpKind, OpSummary};

const TWO_MEMORIES: &str = r#"(module
  (import "env" "f" (func))
  (memory $a 1)
  (memory $b 1)
  (func (result i32) (i32.load $a (i32.const 0)))
  (func (result i32) (i32.load $b (i32.const 0)))
  (func (memory.copy $a $b (i32.const 0) (i32.const 0) (i32.const 1))))"#;

fn set(items: &[u32]) -> HashSet<u32> {
    items.iter().copied().collect()
}

#[test]
fn isolated_module_has_no_violations() {
    let wasm = wat::parse_str(TWO_MEMORIES).unwrap();
    let manifest = MergeManifest {
        num_imported_functions: 1,
        func_allowed_memories: vec![Some(set(&[0])), Some(set(&[1])), Some(set(&[0, 1]))],
    };
    assert!(verify_isolation(&wasm, &manifest).is_empty());
}

#[test]
fn access_outside_the_allowed_memories_is_reported() {
    let wasm = wat::parse_str(TWO_MEMORIES).unwrap();
    let manifest = MergeManifest {
        num_imported_functions: 1,
        func_allowed_memories: vec![Some(set(&[0])), Some(set(&[0])), None],
    };
    let v: Vec<(u32, u32, String)> = verify_isolation(&wasm, &manifest)
        .iter()
        .map(|x| (x.func_index, x.memory_index_used, x.op_name.clone()))
        .collect();
    assert_eq!(
        v,
        vec![
            (2, 1, "i32.load".to_string()),
            (3, 0, "memory.copy (dst)".to_string()),
            (3, 1, "memory.copy (src)".to_string()),
        ]
    );
}

#[test]
fn functions_missing_from_the_manifest_may_access_nothing() {
    let wasm = wat::parse_str(TWO_MEMORIES).unwrap();
    let manifest = MergeManifest { num_imported_functions: 1, func_allowed_memories: vec![] };
    assert_eq!(verify_isolation(&wasm, &manifest).len(), 4);
}

#[test]
fn violation_message_format() {
    let v = Violation { func_index: 12, memory_index_used: 3, op_name: "i64.store8".to_string() };
    assert_eq!(v.message(), "func 12: i64.store8 accesses memory 3");
}

#[test]
fn unparsable_input_has_no_violations() {
    let manifest = MergeManifest { num_imported_functions: 0, func_allowed_memories: vec![] };
    assert!(verify_isolation(&[1, 2, 3], &manifest).is_empty());
}

#[test]
fn manifest_violations_follow_the_bodies() {
    use_manifest_violations();
}

fn use_manifest_violations() {
    let bodies = vec![
        vec![OpSummary::Access { kind: MemOpKind::I32Store, memory: 2, offset: 0 }, OpSummary::End],
        vec![OpSummary::Call(3), OpSummary::Copy { dst_mem: 1, src_mem: 2 }],
    ];
    let manifest = MergeManifest { num_imported_functions: 5, func_allowed_memories: vec![Some(set(&[2])), Some(set(&[1]))] };
    let v: Vec<(u32, u32, String)> = manifest_violations(&bodies, &manifest)
        .iter()
        .map(|x| (x.func_index, x.memory_index_used, x.op_name.clone()))
        .collect();
    assert_eq!(v, vec![(6, 2, "memory.copy (src)".to_string())]);
}
