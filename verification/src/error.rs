use vstd::prelude::*;

use crate::message::{ControlType, Version};

verus! {

/// Why the session refuses something.
#[derive(Debug, PartialEq, Eq)]
pub enum Error {
    /// Nobody is interested any more.
    Cancel,
    /// A stream of a kind that is not served here.
    UnexpectedStream(ControlType),
    /// No common version: the client's versions, then the server's.
    Version(Vec<Version>, Vec<Version>),
    /// The path is taken.
    Duplicate,
    /// The path is not known.
    NotFound,
    /// A frame holds more or fewer bytes than it declared.
    WrongSize,
}

} // verus!
