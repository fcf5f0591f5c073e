//! The structured diagnostic model: severity levels, individual diagnostics,
//! and the immutable result value returned to callers of a check.

use vstd::prelude::*;

verus! {

/// Severity of a single diagnostic emitted by the toolchain.
#[derive(Debug, Clone, PartialEq, Eq, Structural)]
pub enum ErrorLevel {
    Error,
    Warning,
    Note,
    Help,
}

/// Individual compilation error or warning, as classified from one
/// structured diagnostic message.
#[derive(Debug, Clone)]
pub struct CompilationError {
    pub level: ErrorLevel,
    pub message: String,
    pub code: Option<String>,
    pub line: Option<usize>,
    pub column: Option<usize>,
    pub file: Option<String>,
    pub suggestion: Option<String>,
}

/// Compilation result with errors and warnings.
///
/// Every check parse establishes, and the contracts state, that `success`
/// holds exactly when `errors` is empty.
#[derive(Debug, Clone)]
pub struct CompilationResult {
    pub success: bool,
    pub errors: Vec<CompilationError>,
    pub warnings: Vec<CompilationError>,
    pub stdout: String,
    pub stderr: String,
}

/// The raw fields extracted from one well-formed diagnostic line, before
/// severity classification. `level` is absent when the message carried no
/// severity string.
#[derive(Debug, Clone)]
pub struct RawDiagnostic {
    pub level: Option<String>,
    pub rendered: String,
    pub code: Option<String>,
    pub line: Option<usize>,
    pub column: Option<usize>,
    pub file: Option<String>,
}

/// The mathematical value of one diagnostic: its strings as character
/// sequences, everything else as is.
pub ghost struct ErrorView {
    pub level: ErrorLevel,
    pub message: Seq<char>,
    pub code: Option<Seq<char>>,
    pub line: Option<usize>,
    pub column: Option<usize>,
    pub file: Option<Seq<char>>,
    pub suggestion: Option<Seq<char>>,
}

/// The mathematical value of a whole check result.
pub ghost struct ResultView {
    pub success: bool,
    pub errors: Seq<ErrorView>,
    pub warnings: Seq<ErrorView>,
    pub stdout: Seq<char>,
    pub stderr: Seq<char>,
}

/// The view of a possibly-absent string.
pub open spec fn opt_str_view(o: Option<String>) -> Option<Seq<char>> {
    match o {
        Option::Some(s) => Option::Some(s@),
        Option::None => Option::None,
    }
}

impl View for CompilationError {
    type V = ErrorView;

    open spec fn view(&self) -> ErrorView {
        ErrorView {
            level: self.level,
            message: self.message@,
            code: opt_str_view(self.code),
            line: self.line,
            column: self.column,
            file: opt_str_view(self.file),
            suggestion: opt_str_view(self.suggestion),
        }
    }
}

/// The views of the listed diagnostics, in order.
pub open spec fn error_views(es: Seq<CompilationError>) -> Seq<ErrorView> {
    Seq::new(es.len(), |i: int| es[i]@)
}

impl View for CompilationResult {
    type V = ResultView;

    open spec fn view(&self) -> ResultView {
        ResultView {
            success: self.success,
            errors: error_views(self.errors@),
            warnings: error_views(self.warnings@),
            stdout: self.stdout@,
            stderr: self.stderr@,
        }
    }
}

/// The fixed severity table: `"warning"`, `"note"` and `"help"` map to their
/// levels; everything else — including unknown severities — maps to `Error`,
/// so an unrecognized severity is never dropped from the error count.
pub open spec fn spec_level(s: Seq<char>) -> ErrorLevel {
    if s == "warning"@ {
        ErrorLevel::Warning
    } else if s == "note"@ {
        ErrorLevel::Note
    } else if s == "help"@ {
        ErrorLevel::Help
    } else {
        ErrorLevel::Error
    }
}

/// Severity of a possibly-missing severity string: a message without one is
/// treated as an error.
pub open spec fn spec_level_opt(s: Option<String>) -> ErrorLevel {
    match s {
        Option::None => ErrorLevel::Error,
        Option::Some(l) => spec_level(l@),
    }
}

/// Classification of one raw diagnostic into the caller-facing record.
pub open spec fn spec_to_error(d: RawDiagnostic) -> CompilationError {
    CompilationError {
        level: spec_level_opt(d.level),
        message: d.rendered,
        code: d.code,
        line: d.line,
        column: d.column,
        file: d.file,
        suggestion: Option::None,
    }
}

/// Maps a severity string through the fixed severity table.
pub fn level_of(level: &Option<String>) -> (l: ErrorLevel)
    ensures
        l == spec_level_opt(*level),
{
    match level {
        Option::None => ErrorLevel::Error,
        Option::Some(s) => {
            proof {
                reveal_strlit("warning");
                reveal_strlit("note");
                reveal_strlit("help");
            }
            let warning: String = String::from_str("warning");
            let note: String = String::from_str("note");
            let help: String = String::from_str("help");
            if *s == warning {
                ErrorLevel::Warning
            } else if *s == note {
                ErrorLevel::Note
            } else if *s == help {
                ErrorLevel::Help
            } else {
                ErrorLevel::Error
            }
        },
    }
}

/// Builds the caller-facing record for one raw diagnostic.
pub fn to_compilation_error(d: RawDiagnostic) -> (e: CompilationError)
    ensures
        e == spec_to_error(d),
{
    let level = level_of(&d.level);
    CompilationError {
        level,
        message: d.rendered,
        code: d.code,
        line: d.line,
        column: d.column,
        file: d.file,
        suggestion: Option::None,
    }
}

} // verus!
