//! The uniform record that every operation's execute step returns.
use vstd::prelude::*;

verus! {

/// What performing an operation produced.
#[derive(Debug)]
pub struct OperationInfo {
    /// The name of the realm operated on.
    pub name: String,
    /// The number of bytes copied, for a load.
    pub bytes: Option<u64>,
    /// Captured output, for show and run.
    pub text: Option<Vec<u8>>,
}

impl OperationInfo {
    /// An empty record: no name, no bytes, no text.
    pub fn new() -> (r: Self)
        ensures
            r.name@.len() == 0,
            r.bytes is None,
            r.text is None,
    {
        OperationInfo { name: String::new(), bytes: None, text: None }
    }
}

impl Default for OperationInfo {
    fn default() -> (r: Self)
        ensures
            r.name@.len() == 0,
            r.bytes is None,
            r.text is None,
    {
        OperationInfo::new()
    }
}

} // verus!
