//! The failure that the tree algorithms can report.

use vstd::prelude::*;

verus! {

/// A failure with a message for the user.
#[derive(Debug)]
pub struct WeldError {
    description: String,
}

/// The result of an operation that may fail with a [`WeldError`].
pub type WeldResult<T> = Result<T, WeldError>;

impl Clone for WeldError {
    fn clone(&self) -> (res: Self)
        ensures
            res.message() == self.message(),
    {
        WeldError { description: self.description.clone() }
    }
}

impl WeldError {
    /// The message carried by this error, as a sequence of characters.
    pub closed spec fn message(&self) -> Seq<char> {
        self.description@
    }

    /// An error that carries `description`.
    pub fn new(description: String) -> (res: WeldError)
        ensures
            res.message() == description@,
    {
        WeldError { description }
    }

    /// The message carried by this error.
    pub fn description(&self) -> (res: &str)
        ensures
            res@ == self.message(),
    {
        self.description.as_str()
    }
}

} // verus!
