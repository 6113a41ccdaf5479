//! Errors of the source as a whole. Faults of a single channel never become one:
//! they are classified and recovered from where they occur.

use vstd::prelude::*;

verus! {

/// Why the source cannot go on.
#[derive(Debug, PartialEq, Eq)]
pub enum WindowsEventLogError {
    /// The configuration cannot be used.
    ConfigError { message: String },
}

} // verus!
