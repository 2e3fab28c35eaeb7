use vstd::prelude::*;

verus! {

/// The two failure kinds an entrypoint invocation can report.
///
/// `NotFound` is the data-level failure of a conditional update on an
/// absent key; `MalformedParameter` reports a parameter buffer that does
/// not decode to a key/value pair.
#[derive(Clone, Copy, Debug, PartialEq, Eq, Structural)]
pub enum Error {
    NotFound,
    MalformedParameter,
}

} // verus!
