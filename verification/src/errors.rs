//! Error type shared by the platform resolver and the build plan renderer.

use vstd::prelude::*;

verus! {

/// Failure of a resolver or renderer call.
///
/// `Parse` reports a malformed conditional expression where parse failure is
/// surfaced to the caller; `Validation` reports a triple that is not in the
/// platform catalog; `Rendering` reports a failure while producing file
/// outputs, attributing the owning crate by name when one is known.
#[derive(Debug)]
pub enum RazeError {
    Parse { message: String },
    Validation { message: String },
    Rendering { crate_name_opt: Option<String>, message: String },
}

impl RazeError {
    /// Human-readable description of the error.
    pub fn describe(&self) -> (r: &String)
        ensures
            r@ == self.message_view(),
    {
        match self {
            RazeError::Parse { message } => message,
            RazeError::Validation { message } => message,
            RazeError::Rendering { crate_name_opt: _, message } => message,
        }
    }

    /// The message carried by any of the variants.
    pub open spec fn message_view(self) -> Seq<char> {
        match self {
            RazeError::Parse { message } => message@,
            RazeError::Validation { message } => message@,
            RazeError::Rendering { crate_name_opt: _, message } => message@,
        }
    }
}

} // verus!
