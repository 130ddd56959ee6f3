//! The failures that end a formatting run.
use vstd::prelude::*;

verus! {

/// Why a formatting run could not go on.
#[derive(Debug, PartialEq, Eq)]
pub enum FormatError {
    /// No formatter binary of this name was found by any strategy.
    ToolUnresolved(String),
    /// The build metadata could not be had, or is inconsistent.
    MetadataUnavailable,
    /// A requested package name is not in the workspace.
    UnknownTarget(String),
}

} // verus!
