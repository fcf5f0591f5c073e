//! The validation engine: the checker value, the synthetic entry-point
//! wrapper, the generated manifest, sandbox naming, and the strategies a
//! caller can select.
//!
//! Everything here computes plain values. The surrounding program performs
//! the directory creation, file writes and process invocations that a check
//! needs, hands the captured bytes back, and lets the engine normalize them.

use vstd::prelude::*;
use vstd::string::*;
use crate::diagnostics::CompilationResult;
use crate::parse::{parse_diagnostic_stream, parsed_result_ok};
use crate::text::{contains_str, has_substring};

verus! {

/// A caller-supplied dependency: a `(name, version)` pair interpolated
/// verbatim into the generated manifest. No validation is performed on
/// these strings, so a hostile pair can extend the manifest.
#[derive(Debug, Clone)]
pub struct Dependency {
    pub name: String,
    pub version: String,
}

/// The three checking strategies, with different cost and fidelity:
/// `Full` wraps entry-point-less snippets and runs a project-level check;
/// `WithDependencies` adds caller-supplied dependencies to the manifest but
/// does not wrap; `Quick` checks a single file directly, blind to
/// dependency- and project-level diagnostics.
#[derive(Debug, Clone, Copy, PartialEq, Eq, Structural)]
pub enum CheckStrategy {
    Full,
    WithDependencies,
    Quick,
}

/// Rust compiler checker. Holds the shared root directory under which each
/// check materializes its own uniquely-named sandbox.
pub struct RustCompiler {
    pub temp_dir: String,
}

/// The two hard failures of a check: the sandbox could not be materialized,
/// or the external tool could not be spawned. Either aborts the check and
/// reaches the caller; a result with `success == false` is not a failure
/// but a valid outcome.
#[derive(Debug, Clone, Copy, PartialEq, Eq, Structural)]
pub enum CheckFailure {
    SetupError,
    InvocationError,
}

impl CheckFailure {
    /// A short description of the failure.
    pub fn describe(&self) -> (r: String)
        ensures
            *self == CheckFailure::SetupError ==> r@ == "failed to set up the check sandbox"@,
            *self == CheckFailure::InvocationError ==> r@
                == "failed to invoke the checking tool"@,
    {
        match self {
            CheckFailure::SetupError => String::from_str("failed to set up the check sandbox"),
            CheckFailure::InvocationError => String::from_str("failed to invoke the checking tool"),
        }
    }
}

/// The marker whose absence makes `Full` checks wrap the snippet.
pub open spec fn entry_marker() -> Seq<char> {
    "fn main"@
}

/// A snippet completed into a checkable unit: left alone when it already
/// carries the entry-point marker, otherwise wrapped in a synthetic entry
/// point.
pub open spec fn wrapped_code(code: Seq<char>) -> Seq<char> {
    if has_substring(code, entry_marker()) {
        code
    } else {
        "fn main() {\n"@ + code + "\n}"@
    }
}

/// The fixed header of every generated manifest: the checked unit's default
/// identity, version, edition and an empty dependency section.
pub open spec fn manifest_header() -> Seq<char> {
    "[package]\nname = \"blockly_check\"\nversion = \"0.1.0\"\nedition = \"2021\"\n\n[dependencies]\n"@
}

/// One rendered dependency line, `name = "version"`, unescaped.
pub open spec fn dep_line(d: Dependency) -> Seq<char> {
    d.name@ + " = \""@ + d.version@ + "\"\n"@
}

/// The rendered dependency section, in caller order.
pub open spec fn dep_lines(ds: Seq<Dependency>) -> Seq<char>
    decreases ds.len(),
{
    if ds.len() == 0 {
        Seq::empty()
    } else {
        dep_lines(ds.drop_last()) + dep_line(ds.last())
    }
}

/// The whole generated manifest for the given dependencies.
pub open spec fn manifest_text(ds: Seq<Dependency>) -> Seq<char> {
    manifest_header() + dep_lines(ds)
}

/// The sandbox directory name derived from a check identifier.
pub open spec fn sandbox_name_of(id: Seq<char>) -> Seq<char> {
    "check_"@ + id
}

/// The single-file name derived from a check identifier, for `Quick` checks.
pub open spec fn quick_file_name_of(id: Seq<char>) -> Seq<char> {
    "check_"@ + id + ".rs"@
}

/// Relies on `uuid::Uuid::new_v4` and its `Display` form: a fresh random
/// version-4 identifier rendered hyphenated, which is 36 characters long.
/// Nothing relates the results of two calls: collision resistance is a
/// probabilistic property of the generator, not a promise of this contract.
#[verifier::external_body]
fn fresh_uuid_string() -> (r: String)
    ensures
        r@.len() == 36,
{
    uuid::Uuid::new_v4().to_string()
}

/// Completes a snippet into a checkable unit for a `Full` check.
pub fn wrap_in_main(code: &str) -> (r: String)
    ensures
        r@ == wrapped_code(code@),
{
    if contains_str(code, "fn main") {
        String::from_str(code)
    } else {
        let mut s = String::from_str("fn main() {\n");
        s.append(code);
        s.append("\n}");
        s
    }
}

/// A completed snippet always carries the entry-point marker: wrapping
/// never hands the checker an entry-point-less unit.
pub proof fn lemma_wrapped_code_has_entry(code: Seq<char>)
    ensures
        has_substring(wrapped_code(code), entry_marker()),
{
    if !has_substring(code, entry_marker()) {
        reveal_strlit("fn main");
        reveal_strlit("fn main() {\n");
        reveal_strlit("\n}");
        let w = wrapped_code(code);
        assert("fn main"@.len() == 7);
        assert("fn main() {\n"@.len() == 12);
        assert(w.subrange(0, 7) =~= "fn main"@) by {
            assert forall|k: int| 0 <= k < 7 implies w[k] == "fn main"@[k] by {
                assert(w[k] == "fn main() {\n"@[k]);
            }
        }
        assert(crate::text::match_at(w, "fn main"@, 0));
    }
}

/// Renders the manifest of a checked unit with the given dependencies.
pub fn render_manifest(deps: &Vec<Dependency>) -> (r: String)
    ensures
        r@ == manifest_text(deps@),
{
    let mut s = String::from_str(
        "[package]\nname = \"blockly_check\"\nversion = \"0.1.0\"\nedition = \"2021\"\n\n[dependencies]\n",
    );
    let mut i: usize = 0;
    proof {
        assert(dep_lines(deps@.take(0)) =~= Seq::<char>::empty());
        assert(s@ =~= manifest_header() + dep_lines(deps@.take(0)));
    }
    while i < deps.len()
        invariant
            i <= deps@.len(),
            s@ == manifest_header() + dep_lines(deps@.take(i as int)),
        decreases deps@.len() - i,
    {
        s.append(deps[i].name.as_str());
        s.append(" = \"");
        s.append(deps[i].version.as_str());
        s.append("\"\n");
        proof {
            assert(deps@.take(i + 1).drop_last() =~= deps@.take(i as int));
            assert(deps@.take(i + 1).last() == deps@[i as int]);
            assert(s@ =~= manifest_header() + dep_lines(deps@.take(i + 1)));
        }
        i = i + 1;
    }
    proof {
        assert(deps@.take(deps@.len() as int) =~= deps@);
    }
    s
}

/// A fresh sandbox directory name: the fixed prefix followed by a fresh
/// 36-character identifier.
pub fn fresh_sandbox_name() -> (r: String)
    ensures
        exists|id: Seq<char>| id.len() == 36 && r@ == sandbox_name_of(id),
        r@.len() == 42,
{
    proof {
        reveal_strlit("check_");
    }
    let id = fresh_uuid_string();
    let mut s = String::from_str("check_");
    s.append(id.as_str());
    proof {
        assert(s@ == sandbox_name_of(id@));
    }
    s
}

/// A fresh single-file name for a `Quick` check: the fixed prefix, a fresh
/// 36-character identifier, and the source-file suffix.
pub fn fresh_quick_file_name() -> (r: String)
    ensures
        exists|id: Seq<char>| id.len() == 36 && r@ == quick_file_name_of(id),
        r@.len() == 45,
{
    proof {
        reveal_strlit("check_");
        reveal_strlit(".rs");
    }
    let id = fresh_uuid_string();
    let mut s = String::from_str("check_");
    s.append(id.as_str());
    s.append(".rs");
    proof {
        assert(s@ == quick_file_name_of(id@));
    }
    s
}

/// Sandbox isolation rests on identifier uniqueness, not on locking:
/// distinct check identifiers always yield distinct sandbox directory
/// names, so two concurrent checks with distinct identifiers never share a
/// sandbox.
pub proof fn lemma_distinct_ids_distinct_sandboxes(id1: Seq<char>, id2: Seq<char>)
    requires
        id1 != id2,
    ensures
        sandbox_name_of(id1) != sandbox_name_of(id2),
{
    if sandbox_name_of(id1) == sandbox_name_of(id2) {
        assert(("check_"@ + id1).len() == ("check_"@ + id2).len());
        assert(id1.len() == id2.len());
        assert(id1 =~= id2) by {
            assert forall|k: int| 0 <= k < id1.len() implies id1[k] == id2[k] by {
                assert(("check_"@ + id1)[k + "check_"@.len()] == id1[k]);
                assert(("check_"@ + id2)[k + "check_"@.len()] == id2[k]);
            }
        }
    }
}

impl RustCompiler {
    /// Creates a checker over the given shared root directory. The caller
    /// is responsible for that directory existing before any check runs.
    pub fn new(temp_dir: String) -> (c: Self)
        ensures
            c.temp_dir == temp_dir,
    {
        RustCompiler { temp_dir }
    }

    /// Normalizes captured project-mode checker output.
    pub fn parse_cargo_output(&self, stdout: &[u8], stderr: &[u8]) -> (r: CompilationResult)
        ensures
            parsed_result_ok(r, stdout@, stderr@),
    {
        parse_diagnostic_stream(stdout, stderr)
    }

    /// Normalizes captured direct-mode checker output. The two modes share
    /// one diagnostic protocol, so this parse is the project-mode parse.
    pub fn parse_rustc_output(&self, stdout: &[u8], stderr: &[u8]) -> (r: CompilationResult)
        ensures
            parsed_result_ok(r, stdout@, stderr@),
    {
        self.parse_cargo_output(stdout, stderr)
    }
}

} // verus!
