//! The capability contract: the interface every loaded module
//! implements. Implementations outside this crate are produced by
//! dynamic modules; the samples in this crate implement it directly.

use vstd::prelude::*;

verus! {

/// A capability value: the fixed contract of every plugin.
///
/// `execute` reports a failure as the rendered message of the
/// underlying error; the registry's retry discipline classifies that
/// text, so nothing is promised here about any method's result.
pub trait Plugin {
    /// The unique name of the capability.
    fn name(&self) -> &str;

    /// The version string of the capability.
    fn version(&self) -> &str;

    /// A short description of what the capability does.
    fn description(&self) -> &str;

    /// Run the capability on one input.
    fn execute(&self, input: &str) -> Result<String, String>;
}

} // verus!
