//! The single error kind used throughout the library: a message-carrying
//! failure with no structured code.

use vstd::prelude::*;

verus! {

/// A generic error produced by the version manager.
///
/// An `Error` can be created using [`Error::generic()`]. Its view is the
/// sequence of characters of its message.
#[derive(Debug)]
pub struct Error {
    message: String,
}

impl View for Error {
    type V = Seq<char>;

    closed spec fn view(&self) -> Seq<char> {
        self.message@
    }
}

impl Error {
    /// Produces an error with the given message.
    pub fn generic(message: &str) -> (r: Error)
        ensures
            r@ == message@,
    {
        Error { message: message.to_owned() }
    }

    /// Produces an error that takes ownership of an already built message.
    pub fn from_message(message: String) -> (r: Error)
        ensures
            r@ == message@,
    {
        Error { message }
    }

    /// The message carried by this error.
    pub fn message(&self) -> (r: &str)
        ensures
            r@ == self@,
    {
        self.message.as_str()
    }
}

impl PartialEq for Error {
    fn eq(&self, other: &Error) -> (r: bool) {
        self.message == other.message
    }
}

impl vstd::std_specs::cmp::PartialEqSpecImpl for Error {
    open spec fn obeys_eq_spec() -> bool {
        true
    }

    open spec fn eq_spec(&self, other: &Error) -> bool {
        self@ == other@
    }
}

impl Eq for Error {}

} // verus!
