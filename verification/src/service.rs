//! The request/response model of the checking service, and the decision
//! that dispatches a request to a checking strategy.
//!
//! The transport around it — routing, serialization framing, the process
//! that listens — lives outside the library and hands these plain values
//! in and out.

use vstd::prelude::*;
use crate::compiler::{CheckStrategy, Dependency, RustCompiler};
use crate::diagnostics::CompilationResult;

verus! {

/// Request to check a source snippet.
#[derive(Debug)]
pub struct CheckRequest {
    pub code: String,
    pub dependencies: Vec<Dependency>,
    pub quick_check: bool,
}

/// Response from a compilation check.
#[derive(Debug)]
pub struct CheckResponse {
    pub result: CompilationResult,
    pub rust_available: bool,
}

/// Application state shared by the service's handlers.
pub struct AppState {
    pub compiler: RustCompiler,
}

/// Command-line arguments of the standalone service.
#[derive(Debug)]
pub struct Args {
    /// Port to run the service on.
    pub port: u16,
    /// Check a file directly instead of starting the service.
    pub file: Option<String>,
}

/// Which strategy a request selects: quick checks come first, a request
/// without dependencies takes the full strategy, and one with dependencies
/// takes the dependency-aware strategy.
pub open spec fn spec_strategy(quick: bool, n_deps: nat) -> CheckStrategy {
    if quick {
        CheckStrategy::Quick
    } else if n_deps == 0 {
        CheckStrategy::Full
    } else {
        CheckStrategy::WithDependencies
    }
}

impl CheckRequest {
    /// The checking strategy this request selects.
    pub fn strategy(&self) -> (s: CheckStrategy)
        ensures
            s == spec_strategy(self.quick_check, self.dependencies@.len()),
    {
        if self.quick_check {
            CheckStrategy::Quick
        } else if self.dependencies.len() == 0 {
            CheckStrategy::Full
        } else {
            CheckStrategy::WithDependencies
        }
    }
}

} // verus!
