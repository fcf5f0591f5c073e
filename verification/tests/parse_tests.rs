use blockly_rust_compiler::{CompilationResult, ErrorLevel, RustCompiler};

fn compiler() -> RustCompiler {
    RustCompiler::new(String::from("/tmp/check_root"))
}

fn parse(stdout: &str) -> CompilationResult {
    compiler().parse_cargo_output(stdout.as_bytes(), b"")
}

const ERROR_LINE: &str = r#"{"reason":"compiler-message","message":{"rendered":"error: expected `;`, found `}`\n","code":{"code":"E0308"},"level":"error","spans":[{"file_name":"src/main.rs","line_start":3,"column_start":18}]}}"#;

const WARNING_LINE: &str = r#"{"reason":"compiler-message","message":{"rendered":"warning: unused variable: `x`\n","code":null,"level":"warning","spans":[{"file_name":"src/main.rs","line_start":2,"column_start":9}]}}"#;

const NOTE_LINE: &str = r#"{"message":{"rendered":"note: required by a bound\n","level":"note","spans":[]}}"#;

const HELP_LINE: &str = r#"{"message":{"rendered":"help: consider borrowing\n","level":"help","spans":[]}}"#;

#[test]
fn empty_stream_is_success() {
    let r = parse("");
    assert!(r.success);
    assert!(r.errors.is_empty());
    assert!(r.warnings.is_empty());
    assert_eq!(r.stdout, "");
    assert_eq!(r.stderr, "");
}

#[test]
fn error_line_fails_the_check() {
    let r = parse(ERROR_LINE);
    assert!(!r.success);
    assert_eq!(r.errors.len(), 1);
    assert!(r.warnings.is_empty());
    let e = &r.errors[0];
    assert!(matches!(e.level, ErrorLevel::Error));
    assert_eq!(e.message, "error: expected `;`, found `}`\n");
    assert_eq!(e.code.as_deref(), Some("E0308"));
    assert_eq!(e.line, Some(3));
    assert_eq!(e.column, Some(18));
    assert_eq!(e.file.as_deref(), Some("src/main.rs"));
    assert_eq!(e.suggestion, None);
}

#[test]
fn warning_line_keeps_success() {
    let r = parse(WARNING_LINE);
    assert!(r.success);
    assert!(r.errors.is_empty());
    assert_eq!(r.warnings.len(), 1);
    let w = &r.warnings[0];
    assert!(matches!(w.level, ErrorLevel::Warning));
    assert_eq!(w.message, "warning: unused variable: `x`\n");
    assert_eq!(w.code, None);
    assert_eq!(w.line, Some(2));
    assert_eq!(w.column, Some(9));
}

#[test]
fn note_and_help_are_discarded() {
    let text = format!("{}\n{}", NOTE_LINE, HELP_LINE);
    let r = parse(&text);
    assert!(r.success);
    assert!(r.errors.is_empty());
    assert!(r.warnings.is_empty());
}

#[test]
fn malformed_line_is_skipped() {
    let text = format!("{}\nthis is not a structured message", ERROR_LINE);
    let r = parse(&text);
    assert_eq!(r.errors.len(), 1);
    assert!(!r.success);
}

#[test]
fn unknown_severity_counts_as_error() {
    let line = r#"{"message":{"rendered":"weird\n","level":"fatal-ish","spans":[]}}"#;
    let r = parse(line);
    assert!(!r.success);
    assert_eq!(r.errors.len(), 1);
    assert!(matches!(r.errors[0].level, ErrorLevel::Error));
}

#[test]
fn missing_severity_counts_as_error() {
    let line = r#"{"message":{"rendered":"no level here\n","spans":[]}}"#;
    let r = parse(line);
    assert_eq!(r.errors.len(), 1);
}

#[test]
fn line_without_rendered_text_is_skipped() {
    let line = r#"{"message":{"level":"error","spans":[]}}"#;
    let r = parse(line);
    assert!(r.success);
    assert!(r.errors.is_empty());
}

#[test]
fn emission_order_is_preserved() {
    let first = r#"{"message":{"rendered":"first","level":"error"}}"#;
    let second = r#"{"message":{"rendered":"second","level":"error"}}"#;
    let r = parse(&format!("{}\n{}", first, second));
    assert_eq!(r.errors.len(), 2);
    assert_eq!(r.errors[0].message, "first");
    assert_eq!(r.errors[1].message, "second");
}

#[test]
fn only_first_span_is_kept() {
    let line = r#"{"message":{"rendered":"e","level":"error","spans":[{"file_name":"a.rs","line_start":1,"column_start":2},{"file_name":"b.rs","line_start":9,"column_start":9}]}}"#;
    let r = parse(line);
    assert_eq!(r.errors[0].file.as_deref(), Some("a.rs"));
    assert_eq!(r.errors[0].line, Some(1));
    assert_eq!(r.errors[0].column, Some(2));
}

#[test]
fn raw_output_is_kept_verbatim() {
    let c = compiler();
    let r = c.parse_cargo_output(b"plain text, no diagnostics", b"some stderr noise");
    assert!(r.success);
    assert_eq!(r.stdout, "plain text, no diagnostics");
    assert_eq!(r.stderr, "some stderr noise");
}

#[test]
fn invalid_bytes_become_replacement_characters() {
    let c = compiler();
    let r = c.parse_cargo_output(&[0xff, 0xfe], b"");
    assert!(r.success);
    assert_eq!(r.stdout, "\u{FFFD}\u{FFFD}");
}

#[test]
fn repeated_parse_is_identical() {
    let text = format!("{}\n{}", ERROR_LINE, WARNING_LINE);
    let r1 = parse(&text);
    let r2 = parse(&text);
    assert_eq!(r1.success, r2.success);
    assert_eq!(r1.errors.len(), r2.errors.len());
    assert_eq!(r1.warnings.len(), r2.warnings.len());
    assert_eq!(r1.errors[0].message, r2.errors[0].message);
}

#[test]
fn rustc_output_parses_like_cargo_output() {
    let c = compiler();
    let r1 = c.parse_rustc_output(ERROR_LINE.as_bytes(), b"");
    let r2 = c.parse_cargo_output(ERROR_LINE.as_bytes(), b"");
    assert_eq!(r1.success, r2.success);
    assert_eq!(r1.errors.len(), r2.errors.len());
}

#[test]
fn quick_check_is_blind_to_project_level_errors() {
    // Direct-mode checking sees no project-level resolution, so its stream
    // holds no diagnostics for a snippet whose dependencies are missing,
    // while the project-mode stream reports the unresolved import.
    let quick_stdout = "";
    let full_stdout = r#"{"message":{"rendered":"error[E0432]: unresolved import `left_pad`\n","code":{"code":"E0432"},"level":"error","spans":[{"file_name":"src/main.rs","line_start":1,"column_start":5}]}}"#;
    let c = compiler();
    let quick = c.parse_rustc_output(quick_stdout.as_bytes(), b"");
    let full = c.parse_cargo_output(full_stdout.as_bytes(), b"");
    assert!(quick.success);
    assert!(!full.success);
    assert_eq!(full.errors.len(), 1);
}
