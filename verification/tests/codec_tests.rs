use blockly_rust_compiler::codec::{decode_result, encode_result};
use blockly_rust_compiler::{CompilationError, CompilationResult, ErrorLevel};

fn sample_result() -> CompilationResult {
    CompilationResult {
        success: false,
        errors: vec![CompilationError {
            level: ErrorLevel::Error,
            message: String::from("error: expected `;`\n"),
            code: Some(String::from("E0308")),
            line: Some(3),
            column: Some(18),
            file: Some(String::from("src/main.rs")),
            suggestion: None,
        }],
        warnings: vec![CompilationError {
            level: ErrorLevel::Warning,
            message: String::from("warning: unused variable\n"),
            code: None,
            line: None,
            column: None,
            file: None,
            suggestion: None,
        }],
        stdout: String::from("raw stdout text"),
        stderr: String::from("raw stderr text"),
    }
}

#[test]
fn round_trip_is_field_for_field() {
    let r = sample_result();
    let wire = encode_result(&r);
    let back = decode_result(&wire).expect("own encoding must decode");
    assert_eq!(back.success, r.success);
    assert_eq!(back.stdout, r.stdout);
    assert_eq!(back.stderr, r.stderr);
    assert_eq!(back.errors.len(), 1);
    assert_eq!(back.warnings.len(), 1);
    let e = &back.errors[0];
    assert!(matches!(e.level, ErrorLevel::Error));
    assert_eq!(e.message, "error: expected `;`\n");
    assert_eq!(e.code.as_deref(), Some("E0308"));
    assert_eq!(e.line, Some(3));
    assert_eq!(e.column, Some(18));
    assert_eq!(e.file.as_deref(), Some("src/main.rs"));
    assert_eq!(e.suggestion, None);
    let w = &back.warnings[0];
    assert!(matches!(w.level, ErrorLevel::Warning));
    assert_eq!(w.message, "warning: unused variable\n");
    assert_eq!(w.code, None);
}

#[test]
fn round_trip_of_an_empty_result() {
    let r = CompilationResult {
        success: true,
        errors: Vec::new(),
        warnings: Vec::new(),
        stdout: String::new(),
        stderr: String::new(),
    };
    let wire = encode_result(&r);
    let back = decode_result(&wire).expect("own encoding must decode");
    assert!(back.success);
    assert!(back.errors.is_empty());
    assert!(back.warnings.is_empty());
    assert_eq!(back.stdout, "");
    assert_eq!(back.stderr, "");
}

#[test]
fn garbage_does_not_decode() {
    let wire: Vec<char> = "definitely not a wire message".chars().collect();
    assert!(decode_result(&wire).is_none());
}

#[test]
fn truncated_message_does_not_decode() {
    let r = sample_result();
    let mut wire = encode_result(&r);
    wire.pop();
    assert!(decode_result(&wire).is_none());
}

#[test]
fn trailing_garbage_does_not_decode() {
    let r = sample_result();
    let mut wire = encode_result(&r);
    wire.push('!');
    assert!(decode_result(&wire).is_none());
}
