//! Options that change how a realm is shown.
use vstd::prelude::*;

verus! {

/// How much `show` displays.
#[derive(Clone, Copy, Debug, PartialEq, Eq, Structural)]
pub struct BifrostOptions {
    /// Show everything, recursively.
    pub verbose: bool,
    /// Show only what changed since the last load.
    pub diff: bool,
    pub max_depth: u64,
}

impl Default for BifrostOptions {
    fn default() -> (r: Self)
        ensures
            r == (BifrostOptions { verbose: false, diff: false, max_depth: 0 }),
    {
        BifrostOptions { verbose: false, diff: false, max_depth: 0 }
    }
}

} // verus!
