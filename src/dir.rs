//! Building paths from an optional prefix.
use vstd::prelude::*;
use crate::text::{join, join_spec};

verus! {

/// `suffix` joined onto `prefix`, when there is a prefix.
pub fn path_builder(prefix: Option<String>, suffix: &str) -> (r: Option<String>)
    ensures
        match prefix {
            Some(p) => r matches Some(s) && s@ == join_spec(p@, suffix@),
            None => r is None,
        },
{
    match prefix {
        Some(path) => Some(join(path.as_str(), suffix)),
        None => None,
    }
}

} // verus!
