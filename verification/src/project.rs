//! Project and build-system integration: compile flags of a source file.

use vstd::prelude::*;

verus! {

/// Compilation flags for a single source file.
#[derive(Debug, Clone, Default)]
pub struct CompileFlags {
    pub args: Vec<String>,
    pub working_dir: String,
}

/// Resolves compile flags for source files in a workspace.
pub trait FlagResolver {
    fn flags_for(&self, file: &str) -> Option<CompileFlags>;
}

} // verus!
