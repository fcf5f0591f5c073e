//! Parsing the toolchain's diagnostic stream.
//!
//! Captured stdout is treated as zero or more newline-delimited structured
//! messages. Each line is decoded independently; a line that is not a
//! well-formed message, or that lacks the rendered diagnostic text, is
//! skipped — one malformed line never aborts the overall parse. Decoded
//! diagnostics are classified by severity: errors and warnings are collected
//! in emission order, notes and help messages are parsed but discarded.

use vstd::prelude::*;
use vstd::string::*;
use crate::diagnostics::{
    CompilationError, CompilationResult, ErrorLevel, RawDiagnostic, spec_level_opt, spec_to_error,
    to_compilation_error,
};
use crate::lines::{lines_of, split_lines};

verus! {

/// The text that lossy UTF-8 decoding yields for the given bytes.
pub uninterp spec fn lossy_of(bytes: Seq<u8>) -> Seq<char>;

/// Relies on `String::from_utf8_lossy`: the decoded text is a function of
/// the bytes alone (invalid sequences become replacement characters).
#[verifier::external_body]
fn bytes_to_text(bytes: &[u8]) -> (r: String)
    ensures
        r@ == lossy_of(bytes@),
{
    String::from_utf8_lossy(bytes).into_owned()
}

/// The textual payload of one message: severity string, rendered text,
/// diagnostic code.
pub struct RawCore {
    pub level: Option<String>,
    pub rendered: String,
    pub code: Option<String>,
}

/// The position carried by the first entry of a message's span list.
pub struct RawSpan {
    pub line: Option<usize>,
    pub column: Option<usize>,
    pub file: Option<String>,
}

/// The textual payload that one line of the stream carries, or `None` for a
/// line that is not a well-formed message with rendered text.
pub uninterp spec fn diag_core_of(line: Seq<char>) -> Option<RawCore>;

/// The first-span position that one line of the stream carries, or `None`
/// for a line that is not a well-formed message with rendered text.
pub uninterp spec fn diag_span_of(line: Seq<char>) -> Option<RawSpan>;

/// Relies on `serde_json::from_str` and the `serde_json::Value` accessors
/// `get` and `as_str`: whether the line parses, and every field extracted
/// from it, is a function of the line's characters alone. The rendered text
/// is required; severity and code are optional.
#[verifier::external_body]
fn decode_diag_core(line: &str) -> (r: Option<RawCore>)
    ensures
        r == diag_core_of(line@),
{
    let m = serde_json::from_str::<serde_json::Value>(line).ok()?;
    let m = m.get("message")?;
    let rendered = m.get("rendered")?.as_str()?.to_string();
    let level = m.get("level").and_then(|v| v.as_str()).map(String::from);
    let code = m.get("code").and_then(|v| v.get("code")).and_then(|v| v.as_str()).map(String::from);
    Some(RawCore { level, rendered, code })
}

/// Relies on `serde_json::from_str` and the `serde_json::Value` accessors
/// `get`, `as_str` and `as_u64`: a function of the line's characters alone.
/// Succeeds on the same lines as the core decoder, and yields the starting
/// line, starting column and file name of the first entry of the message's
/// span list; further entries are discarded.
#[verifier::external_body]
fn decode_diag_span(line: &str) -> (r: Option<RawSpan>)
    ensures
        r == diag_span_of(line@),
{
    let m = serde_json::from_str::<serde_json::Value>(line).ok()?;
    let m = m.get("message")?;
    m.get("rendered")?.as_str()?;
    let sp = m.get("spans").and_then(|v| v.get(0));
    let line = sp.and_then(|v| v.get("line_start")).and_then(|v| v.as_u64()).map(|n| n as usize);
    let column = sp.and_then(|v| v.get("column_start")).and_then(|v| v.as_u64()).map(|n| n as usize);
    let file = sp.and_then(|v| v.get("file_name")).and_then(|v| v.as_str()).map(String::from);
    Some(RawSpan { line, column, file })
}

/// The diagnostic fields that one line of the stream carries: the textual
/// payload joined with the first-span position. A line whose message or
/// rendered text is missing carries nothing.
pub open spec fn diag_of(line: Seq<char>) -> Option<RawDiagnostic> {
    match (diag_core_of(line), diag_span_of(line)) {
        (Option::Some(c), Option::Some(s)) => Option::Some(
            RawDiagnostic {
                level: c.level,
                rendered: c.rendered,
                code: c.code,
                line: s.line,
                column: s.column,
                file: s.file,
            },
        ),
        _ => Option::None,
    }
}

/// Decodes one line of the stream.
fn decode_diag_line(line: &str) -> (r: Option<RawDiagnostic>)
    ensures
        r == diag_of(line@),
{
    let core = decode_diag_core(line);
    let span = decode_diag_span(line);
    match (core, span) {
        (Option::Some(c), Option::Some(s)) => Some(
            RawDiagnostic {
                level: c.level,
                rendered: c.rendered,
                code: c.code,
                line: s.line,
                column: s.column,
                file: s.file,
            },
        ),
        _ => None,
    }
}

/// Zero or one diagnostics, depending on whether the line decoded.
pub open spec fn opt_diag(o: Option<RawDiagnostic>) -> Seq<RawDiagnostic> {
    match o {
        Option::Some(d) => seq![d],
        Option::None => Seq::empty(),
    }
}

/// The diagnostics carried by a sequence of lines, in emission order;
/// lines that do not decode contribute nothing.
pub open spec fn diags_of_lines(lines: Seq<Seq<char>>) -> Seq<RawDiagnostic>
    decreases lines.len(),
{
    if lines.len() == 0 {
        Seq::empty()
    } else {
        diags_of_lines(lines.drop_last()) + opt_diag(diag_of(lines.last()))
    }
}

/// The diagnostics carried by a whole captured text.
pub open spec fn diags_of(text: Seq<char>) -> Seq<RawDiagnostic> {
    diags_of_lines(lines_of(text))
}

/// The error-level diagnostics among `ds`, classified, in order.
pub open spec fn errors_of(ds: Seq<RawDiagnostic>) -> Seq<CompilationError>
    decreases ds.len(),
{
    if ds.len() == 0 {
        Seq::empty()
    } else {
        errors_of(ds.drop_last()) + if spec_level_opt(ds.last().level) == ErrorLevel::Error {
            seq![spec_to_error(ds.last())]
        } else {
            Seq::empty()
        }
    }
}

/// The warning-level diagnostics among `ds`, classified, in order.
pub open spec fn warnings_of(ds: Seq<RawDiagnostic>) -> Seq<CompilationError>
    decreases ds.len(),
{
    if ds.len() == 0 {
        Seq::empty()
    } else {
        warnings_of(ds.drop_last()) + if spec_level_opt(ds.last().level) == ErrorLevel::Warning {
            seq![spec_to_error(ds.last())]
        } else {
            Seq::empty()
        }
    }
}

/// What every parse of a captured (stdout, stderr) pair returns: the raw
/// texts, the classified errors and warnings of the stdout stream in
/// emission order, and a success flag that holds exactly when no error was
/// classified.
pub open spec fn parsed_result_ok(r: CompilationResult, stdout: Seq<u8>, stderr: Seq<u8>) -> bool {
    &&& r.stdout@ == lossy_of(stdout)
    &&& r.stderr@ == lossy_of(stderr)
    &&& r.errors@ == errors_of(diags_of(lossy_of(stdout)))
    &&& r.warnings@ == warnings_of(diags_of(lossy_of(stdout)))
    &&& r.success == (r.errors@.len() == 0)
}

/// Normalizes one captured diagnostic stream into a structured result.
pub fn parse_diagnostic_stream(stdout: &[u8], stderr: &[u8]) -> (r: CompilationResult)
    ensures
        parsed_result_ok(r, stdout@, stderr@),
{
    let stdout_s = bytes_to_text(stdout);
    let stderr_s = bytes_to_text(stderr);
    let lines = split_lines(stdout_s.as_str());
    let ghost ldv = lines.deep_view();
    let mut errors: Vec<CompilationError> = Vec::new();
    let mut warnings: Vec<CompilationError> = Vec::new();
    let mut idx: usize = 0;
    proof {
        assert(ldv.take(0) =~= Seq::<Seq<char>>::empty());
    }
    while idx < lines.len()
        invariant
            idx <= lines.len(),
            ldv == lines.deep_view(),
            ldv.len() == lines@.len(),
            errors@ == errors_of(diags_of_lines(ldv.take(idx as int))),
            warnings@ == warnings_of(diags_of_lines(ldv.take(idx as int))),
        decreases lines.len() - idx,
    {
        let ghost prev = diags_of_lines(ldv.take(idx as int));
        proof {
            assert(ldv.take(idx + 1).drop_last() =~= ldv.take(idx as int));
            assert(ldv.take(idx + 1).last() == ldv[idx as int]);
            assert(lines@[idx as int]@ == ldv[idx as int]);
        }
        match decode_diag_line(lines[idx].as_str()) {
            Option::Some(d) => {
                let ghost gd = d;
                let ghost cur = diags_of_lines(ldv.take(idx + 1));
                proof {
                    assert(cur == prev + seq![gd]);
                    assert((prev + seq![gd]).drop_last() =~= prev);
                    assert((prev + seq![gd]).last() == gd);
                }
                let e = to_compilation_error(d);
                match e.level {
                    ErrorLevel::Error => {
                        errors.push(e);
                        proof {
                            assert(errors@ =~= errors_of(cur));
                            assert(warnings@ =~= warnings_of(cur));
                        }
                    },
                    ErrorLevel::Warning => {
                        warnings.push(e);
                        proof {
                            assert(errors@ =~= errors_of(cur));
                            assert(warnings@ =~= warnings_of(cur));
                        }
                    },
                    _ => {
                        proof {
                            assert(errors@ =~= errors_of(cur));
                            assert(warnings@ =~= warnings_of(cur));
                        }
                    },
                }
            },
            Option::None => {
                proof {
                    assert(diags_of_lines(ldv.take(idx + 1)) =~= prev);
                }
            },
        }
        idx = idx + 1;
    }
    proof {
        assert(ldv.take(lines@.len() as int) =~= ldv);
    }
    let success = errors.len() == 0;
    CompilationResult { success, errors, warnings, stdout: stdout_s, stderr: stderr_s }
}

/// A parse succeeds exactly when no diagnostic of the stream classifies at
/// the error level: clean input yields `success` with an empty error list,
/// and any error-level diagnostic forces `!success` with a non-empty one.
pub proof fn lemma_success_iff_clean(ds: Seq<RawDiagnostic>)
    ensures
        errors_of(ds).len() == 0 <==> (forall|i: int|
            0 <= i < ds.len() ==> spec_level_opt(ds[i].level) != ErrorLevel::Error),
    decreases ds.len(),
{
    if ds.len() > 0 {
        let dl = ds.drop_last();
        lemma_success_iff_clean(dl);
        assert(forall|i: int| 0 <= i < dl.len() ==> dl[i] == ds[i]);
        assert(ds.last() == ds[ds.len() - 1]);
    }
}

/// A parsed result succeeds exactly when no diagnostic of its stream
/// classifies at the error level, and a failed one always carries at least
/// one classified error.
pub proof fn lemma_check_outcome(r: CompilationResult, stdout: Seq<u8>, stderr: Seq<u8>)
    requires
        parsed_result_ok(r, stdout, stderr),
    ensures
        r.success <==> (forall|i: int|
            0 <= i < diags_of(lossy_of(stdout)).len() ==> spec_level_opt(
                #[trigger] diags_of(lossy_of(stdout))[i].level,
            ) != ErrorLevel::Error),
        !r.success ==> r.errors@.len() > 0,
{
    lemma_success_iff_clean(diags_of(lossy_of(stdout)));
}

/// Two parses of the same captured bytes agree: the same success flag, the
/// same errors and the same warnings, field for field.
pub proof fn lemma_parse_deterministic(
    r1: CompilationResult,
    r2: CompilationResult,
    stdout: Seq<u8>,
    stderr: Seq<u8>,
)
    requires
        parsed_result_ok(r1, stdout, stderr),
        parsed_result_ok(r2, stdout, stderr),
    ensures
        r1.success == r2.success,
        r1.errors@ == r2.errors@,
        r1.warnings@ == r2.warnings@,
{
}

/// Repeating an identical check is idempotent: two parsed results whose
/// streams carry the same diagnostics — however the raw texts may differ in
/// ephemeral paths or identifiers — agree on success and on the classified
/// errors and warnings.
pub proof fn lemma_check_idempotent(
    r1: CompilationResult,
    r2: CompilationResult,
    out1: Seq<u8>,
    err1: Seq<u8>,
    out2: Seq<u8>,
    err2: Seq<u8>,
)
    requires
        parsed_result_ok(r1, out1, err1),
        parsed_result_ok(r2, out2, err2),
        diags_of(lossy_of(out1)) == diags_of(lossy_of(out2)),
    ensures
        r1.success == r2.success,
        r1.errors@ == r2.errors@,
        r1.warnings@ == r2.warnings@,
{
}

/// A stream holding one well-formed message and one garbage line yields
/// exactly the one diagnostic, not a failure.
pub proof fn lemma_malformed_line_skipped(good: Seq<char>, garbage: Seq<char>, d: RawDiagnostic)
    requires
        diag_of(good) == Option::Some(d),
        diag_of(garbage) == Option::<RawDiagnostic>::None,
    ensures
        diags_of_lines(seq![good, garbage]) == seq![d],
{
    let l = seq![good, garbage];
    assert(l.drop_last() =~= seq![good]);
    assert(l.last() == garbage);
    assert(seq![good].drop_last() =~= Seq::<Seq<char>>::empty());
    assert(seq![good].last() == good);
    assert(diags_of_lines(Seq::<Seq<char>>::empty()) == Seq::<RawDiagnostic>::empty());
    assert(diags_of_lines(seq![good]) =~= seq![d]);
    assert(diags_of_lines(l) =~= seq![d]);
}

} // verus!
