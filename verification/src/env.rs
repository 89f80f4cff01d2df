//! The process environment.
use vstd::prelude::*;

verus! {

/// The environment variables of the process. It holds nothing yet: the
/// runtime does not read the environment.
#[derive(Debug)]
pub struct EnvVars {}

impl EnvVars {
    /// An empty environment.
    pub fn new() -> (r: EnvVars)
        ensures
            r == (EnvVars {}),
    {
        EnvVars {}
    }
}

} // verus!
