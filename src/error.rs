//! The errors of avatar loading.
use vstd::prelude::*;

verus! {

/// Why an avatar, or part of one, could not be loaded.
#[derive(Debug, Clone, PartialEq, Eq)]
pub enum LoadError {
    /// A file or device could not be read.
    IoError(String),
    /// A manifest is not valid JSON of the expected shape.
    JsonError(String),
    /// A manifest parses but breaks a rule of the asset format.
    InvalidConfig(String),
    /// A manifest refers to a file that is not there.
    MissingFile(String),
}

} // verus!
