use blockly_rust_compiler::compiler::{
    fresh_quick_file_name, fresh_sandbox_name, render_manifest, wrap_in_main,
};
use blockly_rust_compiler::{CheckFailure, CheckRequest, CheckStrategy, Dependency, RustCompiler};

#[test]
fn snippet_without_entry_point_is_wrapped() {
    let code = "fn add(a: i32, b: i32) -> i32 { a + b }";
    let wrapped = wrap_in_main(code);
    assert_eq!(
        wrapped,
        "fn main() {\nfn add(a: i32, b: i32) -> i32 { a + b }\n}"
    );
}

#[test]
fn snippet_with_entry_point_is_untouched() {
    let code = "fn main() { println!(\"hi\"); }";
    assert_eq!(wrap_in_main(code), code);
}

#[test]
fn manifest_without_dependencies_is_the_header() {
    let deps: Vec<Dependency> = Vec::new();
    assert_eq!(
        render_manifest(&deps),
        "[package]\nname = \"blockly_check\"\nversion = \"0.1.0\"\nedition = \"2021\"\n\n[dependencies]\n"
    );
}

#[test]
fn manifest_renders_dependencies_in_order() {
    let deps = vec![
        Dependency {
            name: String::from("serde"),
            version: String::from("1.0"),
        },
        Dependency {
            name: String::from("rand"),
            version: String::from("0.8"),
        },
    ];
    let m = render_manifest(&deps);
    assert!(m.ends_with("serde = \"1.0\"\nrand = \"0.8\"\n"));
}

#[test]
fn sandbox_names_are_fresh_and_prefixed() {
    let a = fresh_sandbox_name();
    let b = fresh_sandbox_name();
    assert_eq!(a.chars().count(), 42);
    assert!(a.starts_with("check_"));
    assert_ne!(a, b);
}

#[test]
fn quick_file_names_carry_the_source_suffix() {
    let a = fresh_quick_file_name();
    assert_eq!(a.chars().count(), 45);
    assert!(a.starts_with("check_"));
    assert!(a.ends_with(".rs"));
}

#[test]
fn new_keeps_the_root_directory() {
    let c = RustCompiler::new(String::from("/tmp/engine_root"));
    assert_eq!(c.temp_dir, "/tmp/engine_root");
}

#[test]
fn quick_requests_select_the_quick_strategy() {
    let req = CheckRequest {
        code: String::from("fn main() {}"),
        dependencies: Vec::new(),
        quick_check: true,
    };
    assert_eq!(req.strategy(), CheckStrategy::Quick);
}

#[test]
fn plain_requests_select_the_full_strategy() {
    let req = CheckRequest {
        code: String::from("fn main() {}"),
        dependencies: Vec::new(),
        quick_check: false,
    };
    assert_eq!(req.strategy(), CheckStrategy::Full);
}

#[test]
fn dependency_requests_select_the_dependency_strategy() {
    let req = CheckRequest {
        code: String::from("fn main() {}"),
        dependencies: vec![Dependency {
            name: String::from("serde"),
            version: String::from("1.0"),
        }],
        quick_check: false,
    };
    assert_eq!(req.strategy(), CheckStrategy::WithDependencies);
}

#[test]
fn wrapped_snippet_checks_cleanly_on_a_clean_stream() {
    // A valid snippet is wrapped into a unit; a clean check of that unit
    // emits no diagnostics, and the engine reports plain success.
    let code = "fn add(a: i32, b: i32) -> i32 { a + b }";
    let wrapped = wrap_in_main(code);
    assert!(wrapped.contains("fn main"));
    let c = RustCompiler::new(String::from("/tmp/check_root"));
    let r = c.parse_cargo_output(b"", b"");
    assert!(r.success);
    assert!(r.errors.is_empty());
    assert!(r.warnings.is_empty());
}

#[test]
fn hard_failures_are_distinct_and_described() {
    assert_ne!(CheckFailure::SetupError, CheckFailure::InvocationError);
    assert_eq!(
        CheckFailure::SetupError.describe(),
        "failed to set up the check sandbox"
    );
    assert_eq!(
        CheckFailure::InvocationError.describe(),
        "failed to invoke the checking tool"
    );
}
