//! Bounded context analysis entry points.

use vstd::prelude::*;

use crate::error::VsaError;

verus! {

/// Bounded context analyzer.
#[derive(Debug)]
pub struct BoundedContextAnalyzer;

impl BoundedContextAnalyzer {
    /// Analyze integration event usage across contexts: event name to the
    /// contexts that publish it. No context is analyzed yet, so the table is
    /// empty.
    pub fn analyze_integration_events(contexts: &[String]) -> (r: Result<
        Vec<(String, Vec<String>)>,
        VsaError,
    >)
        ensures
            r matches Ok(t) && t@.len() == 0,
    {
        Ok(Vec::new())
    }

    /// Check for circular dependencies between contexts. None is reported
    /// yet.
    pub fn check_circular_dependencies(contexts: &[String]) -> (r: Result<Vec<String>, VsaError>)
        ensures
            r matches Ok(t) && t@.len() == 0,
    {
        Ok(Vec::new())
    }
}

} // verus!
