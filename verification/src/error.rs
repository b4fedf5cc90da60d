//! Errors the library itself can produce.  Filesystem and network
//! failures belong to the embedding program, which wraps them in its own
//! error type alongside these.

use vstd::prelude::*;
use vstd::string::*;

verus! {

#[derive(Clone, Copy, Debug, PartialEq, Eq, Structural)]
pub enum Error {
    /// The configuration names no symbol directory to mirror into.
    MissingSymbolDir,
    /// A downloaded artifact's bytes are not a valid xz stream.
    Decompress,
}

impl Error {
    /// A human-readable message, for the embedding program to print.
    pub fn describe(&self) -> (r: String)
        ensures
            *self == Error::MissingSymbolDir ==> r@ == "no symbol directory is configured"@,
            *self == Error::Decompress ==> r@ == "artifact is not a valid xz stream"@,
    {
        match self {
            Error::MissingSymbolDir => String::from_str("no symbol directory is configured"),
            Error::Decompress => String::from_str("artifact is not a valid xz stream"),
        }
    }
}

} // verus!
