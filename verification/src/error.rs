//! The failures an archive operation can report.

use vstd::prelude::*;

verus! {

/// Why an archive operation failed.
#[derive(Clone, Copy, Debug, PartialEq, Eq, Structural)]
pub enum ArchiveError {
    /// A request timed out, could not connect, or was answered with a non-success status.
    Network,
    /// The remote start date is not a calendar date written as eight digits.
    DateParse,
    /// The response body is malformed or lacks a field the fetch needs.
    JsonParse,
    /// A directory or file could not be created or written.
    Filesystem,
    /// No metadata is cached for the requested day.
    NotFound,
}

} // verus!
