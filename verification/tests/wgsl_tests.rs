use blockly_rust_compiler::validate_wgsl_shader;

#[test]
fn test_wgsl_validation() {
    let valid_shader = "@compute @workgroup_size(64) fn main() {}";
    assert!(validate_wgsl_shader(valid_shader).is_ok());

    let invalid_shader = "fn main() {}";
    assert!(validate_wgsl_shader(invalid_shader).is_err());
}

#[test]
fn missing_compute_message_is_exact() {
    let err = validate_wgsl_shader("fn main() {}").unwrap_err();
    assert_eq!(err, "Missing @compute attribute");
}

#[test]
fn missing_workgroup_size_message_is_exact() {
    let err = validate_wgsl_shader("@compute fn main() {}").unwrap_err();
    assert_eq!(err, "Missing @workgroup_size attribute");
}

#[test]
fn missing_compute_takes_precedence() {
    let err = validate_wgsl_shader("").unwrap_err();
    assert_eq!(err, "Missing @compute attribute");
}

#[test]
fn markers_anywhere_count() {
    let src = "// header\n@workgroup_size(1)\nfn f() {}\n@compute";
    assert!(validate_wgsl_shader(src).is_ok());
}
