//! Why a piece of host information could not be had.

use vstd::prelude::*;

verus! {

#[derive(Debug, Clone, Copy, PartialEq, Eq, Structural)]
pub enum FetchError {
    /// The resource could not be read.
    Io,
    /// A line or a field of the resource is malformed.
    Parse,
    /// An expected key or field is absent.
    NotFound,
    /// An environment variable is unset.
    EnvVar,
}

/// A fallible text result, seen as characters.
pub open spec fn view_result(r: Result<String, FetchError>) -> Result<Seq<char>, FetchError> {
    match r {
        Ok(s) => Ok(s@),
        Err(e) => Err(e),
    }
}

} // verus!
