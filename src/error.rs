//! The failures that the operations report.
use vstd::prelude::*;

verus! {

/// Why an operation did not complete.
#[derive(Clone, Copy, Debug, PartialEq, Eq, Structural)]
pub enum BifrostError {
    /// The realm name is missing, empty or reserved.
    InvalidName,
    /// The load target is already there.
    AlreadyExists,
    /// The show, unload or run target is not there.
    NotFound,
    /// A filesystem step (stat, mkdir, copy, delete) failed.
    IoFailure,
    /// The bytes copied differ from the bytes found by the walk.
    IncompleteLoad,
    /// The container engine could not be started or reported failure.
    ProcessFailure,
    /// A lifecycle step was called out of its order.
    OutOfOrder,
    /// A byte total does not fit in 64 bits.
    TooLarge,
    /// Contents were named for a load, but none is an entry of the working
    /// directory that may be loaded.
    NoContent,
}

/// The result of the library's fallible operations.
pub type BifrostResult<T> = Result<T, BifrostError>;

impl BifrostError {
    /// A one-line description of the failure.
    pub fn message(&self) -> (r: &'static str) {
        match self {
            BifrostError::InvalidName => "proposed realm name is empty or blacklisted",
            BifrostError::AlreadyExists => "the proposed path already exists",
            BifrostError::NotFound => "no loaded realm exists at the target path",
            BifrostError::IoFailure => "a filesystem operation failed",
            BifrostError::IncompleteLoad => "could not load all contents",
            BifrostError::ProcessFailure => "the container process failed",
            BifrostError::OutOfOrder => "operation steps were called out of order",
            BifrostError::TooLarge => "byte count does not fit in 64 bits",
            BifrostError::NoContent =>
                "contents were passed but none is a loadable entry of the current working directory",
        }
    }
}

} // verus!
