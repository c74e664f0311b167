//! The errors a protocol operation can surface.
//!
//! Every failing engine operation reports one of these kinds; the
//! surrounding program prints a single diagnostic line and resumes its
//! read-eval loop.

use vstd::prelude::*;

verus! {

/// The failure kinds of the engine.
///
/// - `Transport`: connecting, writing or reading the stream failed.
/// - `Decode`: a response was not valid text.
/// - `Malformed`: a listing line had a bad shape, an unknown item code or
///   a wrong field count.
/// - `InvalidPort`: a listing line's port field was not an unsigned
///   16-bit integer.
/// - `InvalidLocation`: a `HOST[:PORT]` argument could not be parsed.
#[derive(Clone, Copy, Debug, PartialEq, Eq, Structural)]
pub enum GaufreError {
    Transport,
    Decode,
    Malformed,
    InvalidPort,
    InvalidLocation,
}

impl GaufreError {
    /// A short diagnostic text for this error kind.
    pub fn message(&self) -> (r: &'static str)
        ensures
            *self is Transport ==> r@ == "connection failed"@,
            *self is Decode ==> r@ == "response is not valid text"@,
            *self is Malformed ==> r@ == "malformed listing element"@,
            *self is InvalidPort ==> r@ == "invalid port number"@,
            *self is InvalidLocation ==> r@ == "invalid server location"@,
    {
        match self {
            GaufreError::Transport => "connection failed",
            GaufreError::Decode => "response is not valid text",
            GaufreError::Malformed => "malformed listing element",
            GaufreError::InvalidPort => "invalid port number",
            GaufreError::InvalidLocation => "invalid server location",
        }
    }
}

} // verus!
