use wasm_merge::component::{extract_component, top_level_flags, PayloadKind};
use wasm_merge::merge::merge;

const COMPONENT: &str = r#"(component
  (core module $A
    (memory (export "memory") 1)
    (func (export "f") (result i32) (i32.const 7)))
  (core module $B
    (import "a" "f" (func $f (result i32)))
    (memory 1)
    (func (export "g") (result i32) (call $f)))
  (core instance $a (instantiate $A))
  (core instance $b (instantiate $B (with "a" (instance $a)))))"#;

#[test]
fn extracts_modules_and_instances() {
    let wasm = wat::parse_str(COMPONENT).unwrap();
    let c = extract_component(&wasm).unwrap();
    assert_eq!(c.modules.len(), 2);
    assert_eq!(c.instances.len(), 2);
    assert_eq!(c.instances[0].module_idx, 0);
    assert!(c.instances[0].args.is_empty());
    assert_eq!(c.instances[1].module_idx, 1);
    assert_eq!(c.instances[1].args, vec![("a".to_string(), 0)]);
    let mut validator = wasmparser::Validator::new();
    validator.validate_all(&c.modules[0].wasm).unwrap();
    let merged = merge(&c, None).unwrap();
    let mut validator = wasmparser::Validator::new();
    validator.validate_all(&merged).unwrap();
}

#[test]
fn component_without_core_modules_is_refused() {
    let wasm = wat::parse_str("(component)").unwrap();
    let err = extract_component(&wasm).err().unwrap();
    assert_eq!(err, "No core modules found in component");
}

#[test]
fn garbage_is_a_parse_error() {
    let err = extract_component(&[0, 1, 2, 3, 4, 5, 6, 7]).err().unwrap();
    assert!(err.starts_with("Parse error: "));
}

#[test]
fn nested_components_are_skipped() {
    let kinds = vec![
        PayloadKind::Other,
        PayloadKind::Nested,
        PayloadKind::Module,
        PayloadKind::Other,
        PayloadKind::End,
        PayloadKind::Module,
        PayloadKind::End,
        PayloadKind::Instances,
        PayloadKind::End,
    ];
    // Everything inside the nested component, its modules included, is skipped.
    assert_eq!(top_level_flags(&kinds), vec![true, false, false, false, false, false, false, false, false]);
}

#[test]
fn payloads_inside_a_top_level_module_are_not_the_components() {
    let kinds = vec![
        PayloadKind::Module,
        PayloadKind::Other,
        PayloadKind::End,
        PayloadKind::Instances,
        PayloadKind::End,
    ];
    assert_eq!(top_level_flags(&kinds), vec![true, false, false, true, true]);
}

#[test]
fn modules_of_a_nested_component_are_not_extracted() {
    let wasm = wat::parse_str(
        r#"(component
          (component $inner
            (core module $X (func (export "x")))
            (core module $Y (func (export "y"))))
          (core module $A (func (export "a")))
          (core instance $a (instantiate $A)))"#,
    )
    .unwrap();
    let c = extract_component(&wasm).unwrap();
    assert_eq!(c.modules.len(), 1);
    assert_eq!(c.instances.len(), 1);
    assert_eq!(c.instances[0].module_idx, 0);
}
