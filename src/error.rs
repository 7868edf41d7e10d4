//! Failures that end a lookup.
use vstd::prelude::*;

verus! {

#[derive(Clone, Copy, Debug, PartialEq, Eq, Structural)]
pub enum Error {
    /// The API does not know the country code.
    UnknownCountry,
    /// The API answered with this status, which is not a success.
    Status(u16),
    /// The last supported year was reached before enough holidays were found.
    Exhausted,
}

} // verus!
