//! Ephemeral compilation-validation engine.
//!
//! Given a source snippet (optionally with declared dependencies), the engine
//! materializes an isolated build sandbox, invokes an external toolchain to
//! check the snippet, and normalizes the toolchain's line-oriented diagnostic
//! stream into a structured result: a success flag, classified errors and
//! warnings, and the raw captured output.

pub mod codec;
pub mod compiler;
pub mod diagnostics;
pub mod lines;
pub mod parse;
pub mod service;
pub mod text;
pub mod wgsl;

pub use compiler::{CheckFailure, CheckStrategy, Dependency, RustCompiler};
pub use diagnostics::{CompilationError, CompilationResult, ErrorLevel, RawDiagnostic};
pub use service::{AppState, Args, CheckRequest, CheckResponse};
pub use wgsl::validate_wgsl_shader;
