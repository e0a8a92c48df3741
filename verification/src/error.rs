//! The error of the library's fallible operations: a message.
use vstd::prelude::*;
use crate::text::concat;

verus! {

/// A failure, described by its message.
#[derive(Debug)]
pub struct Error {
    pub message: String,
}

impl Error {
    /// An error with the given message.
    pub fn msg(message: &str) -> (r: Error)
        ensures
            r.message@ == message@,
    {
        Error { message: String::from_str(message) }
    }

    /// An error whose message is `prefix` followed by `detail`.
    pub fn with_detail(prefix: &str, detail: &str) -> (r: Error)
        ensures
            r.message@ == prefix@ + detail@,
    {
        Error { message: concat(prefix, detail) }
    }
}

} // verus!
