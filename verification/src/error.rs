//! The library's error: a message.

use vstd::prelude::*;

verus! {

/// A failure, described by its message.
pub struct CircadianError(pub String);

impl CircadianError {
    /// An error with the message `msg`.
    pub fn from_message(msg: &str) -> (e: CircadianError)
        ensures
            e.0@ == msg@,
    {
        CircadianError(msg.to_owned())
    }

    /// The message, as `Error::description` gives it.
    pub fn description(&self) -> (s: &str)
        ensures
            s@ == self.0@,
    {
        self.0.as_str()
    }

    /// The message as an owned string, as `Display` prints it.
    pub fn to_message(&self) -> (s: String)
        ensures
            s@ == self.0@,
    {
        self.0.clone()
    }
}

impl Clone for CircadianError {
    fn clone(&self) -> (e: CircadianError)
        ensures
            e == *self,
    {
        CircadianError(self.0.clone())
    }
}

} // verus!
