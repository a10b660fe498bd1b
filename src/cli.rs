//! Options of the graph generator.
use vstd::prelude::*;

verus! {

/// What the generator is asked to do.
#[derive(Debug, Clone)]
pub struct CliOpt {
    /// Path of the works document.
    pub works: String,
    /// Output format: `dot` for the graph description itself, otherwise a
    /// format that the renderer produces.
    pub output_type: String,
    /// Output file; standard output when absent.
    pub output_path: Option<String>,
}

impl CliOpt {
    /// Returns whether the graph description is written as it is, without
    /// the renderer.
    pub fn is_direct_dot(&self) -> (r: bool)
        ensures
            r == (self.output_type@ == "dot"@),
    {
        let dot: String = "dot".to_owned();
        self.output_type == dot
    }
}

} // verus!
