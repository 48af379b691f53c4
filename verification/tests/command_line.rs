use wasm_merge::cli::{
    component_input, has_equals, is_component_mode, library_and_consumers, out_file, out_index, parse_merge_args,
    parse_position, split_once_equals, CliError,
};

fn args(list: &[&str]) -> Vec<String> {
    list.iter().map(|s| s.to_string()).collect()
}

#[test]
fn output_flag_is_found() {
    let a = args(&["b.wasm=b", "-o", "out.wasm", "a.wasm=a"]);
    assert_eq!(out_index(&a), Some(1));
    assert_eq!(out_file(&a, Some(1)).ok().unwrap(), Some("out.wasm".to_string()));
    let b = args(&["b.wasm=b", "-o"]);
    assert!(matches!(out_file(&b, out_index(&b)), Err(CliError::MissingOutput)));
    assert_eq!(out_index(&args(&["x.wasm"])), None);
}

#[test]
fn single_file_without_label_is_a_component() {
    let a = args(&["component.wasm", "-o", "out.wasm"]);
    assert!(is_component_mode(&a, out_index(&a)));
    assert_eq!(component_input(&a, out_index(&a)), Some(0));
    let b = args(&["a.wasm=a", "-o", "out.wasm"]);
    assert!(!is_component_mode(&b, out_index(&b)));
    let c = args(&["--component", "x=y"]);
    assert!(is_component_mode(&c, out_index(&c)));
    let d = args(&["a.wasm=a", "b.wasm=b"]);
    assert!(!is_component_mode(&d, out_index(&d)));
    let e = args(&["-o", "out.wasm"]);
    assert_eq!(component_input(&e, out_index(&e)), None);
}

#[test]
fn merge_arguments_are_read() {
    let a = args(&["b.wasm=b", "a.wasm=a", "libc.wasm=lib", "--specialize", "--lib", "lib", "--exports-from", "1", "-o", "m.wasm", "--verify"]);
    let o = parse_merge_args(&a).ok().unwrap();
    assert_eq!(
        o.inputs,
        vec![
            ("b.wasm".to_string(), "b".to_string()),
            ("a.wasm".to_string(), "a".to_string()),
            ("libc.wasm".to_string(), "lib".to_string()),
        ]
    );
    assert!(o.specialize);
    assert!(!o.dispatch);
    assert_eq!(o.lib_label, Some("lib".to_string()));
    assert_eq!(o.exports_from, Some("1".to_string()));
    let (lib, consumers) = library_and_consumers(&o, "specialize").ok().unwrap();
    assert_eq!(lib, 2);
    assert_eq!(consumers, vec![0, 1]);
}

#[test]
fn merge_argument_errors() {
    let e = parse_merge_args(&args(&["a.wasm"])).err().unwrap();
    assert_eq!(e.message(), "expected <file.wasm>=<label>, got: a.wasm");
    let e = parse_merge_args(&args(&["-o", "x.wasm"])).err().unwrap();
    assert_eq!(e.message(), "no input modules specified");
    let e = parse_merge_args(&args(&["a.wasm=a", "--lib"])).err().unwrap();
    assert_eq!(e.message(), "--lib requires a value");
    let o = parse_merge_args(&args(&["a.wasm=a", "--dispatch"])).ok().unwrap();
    let e = library_and_consumers(&o, "dispatch").err().unwrap();
    assert_eq!(e.message(), "--dispatch requires --lib <label>");
    let o = parse_merge_args(&args(&["a.wasm=a", "--lib", "zz"])).ok().unwrap();
    let e = library_and_consumers(&o, "specialize").err().unwrap();
    assert_eq!(e.message(), "--lib zz not found in inputs");
    assert_eq!(CliError::NoComponentFile.message(), "no component file specified");
    assert_eq!(CliError::MissingOutput.message(), "-o requires a filename");
}

#[test]
fn labels_split_at_the_first_equals() {
    assert_eq!(split_once_equals(&"a.wasm=x=y".to_string()), Some(("a.wasm".to_string(), "x=y".to_string())));
    assert_eq!(split_once_equals(&"=lib".to_string()), Some(("".to_string(), "lib".to_string())));
    assert_eq!(split_once_equals(&"plain".to_string()), None);
    assert!(has_equals(&"k=v".to_string()));
    assert!(!has_equals(&"kv".to_string()));
}

#[test]
fn later_duplicate_label_wins() {
    let o = parse_merge_args(&args(&["a.wasm=lib", "b.wasm=lib", "c.wasm=c", "--lib", "lib"])).ok().unwrap();
    let (lib, consumers) = library_and_consumers(&o, "specialize").ok().unwrap();
    assert_eq!(lib, 1);
    assert_eq!(consumers, vec![0, 2]);
}

#[test]
fn positions_parse_as_usize_does() {
    assert_eq!(parse_position(&"17".to_string()), Some(17));
    assert_eq!(parse_position(&"+3".to_string()), Some(3));
    assert_eq!(parse_position(&"0".to_string()), Some(0));
    assert_eq!(parse_position(&"".to_string()), None);
    assert_eq!(parse_position(&"+".to_string()), None);
    assert_eq!(parse_position(&"-1".to_string()), None);
    assert_eq!(parse_position(&"1a".to_string()), None);
    assert_eq!(parse_position(&"99999999999999999999999".to_string()), None);
    for s in ["17", "+3", "", "-1", "12x", "18446744073709551615", "18446744073709551616"] {
        assert_eq!(parse_position(&s.to_string()), s.parse::<usize>().ok());
    }
}
