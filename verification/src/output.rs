//! The error type of the output stage. Writing the review to a file or
//! to the standard output happens outside this library.

use vstd::prelude::*;

verus! {

/// What can go wrong while writing the review out.
#[derive(Debug)]
pub enum OutputError {
    /// The file or stream could not be written.
    Io(String),
}

impl OutputError {
    /// A human-readable description of the error.
    pub fn message(&self) -> (r: String)
        ensures
            self matches OutputError::Io(d) ==> r@ == "failed to write output: "@ + d@,
    {
        match self {
            OutputError::Io(detail) => {
                let mut r = String::from_str("failed to write output: ");
                r.append(detail.as_str());
                r
            },
        }
    }
}

} // verus!
