//! The library's single error kind.

use std::num::ParseIntError;
use vstd::prelude::*;
use vstd::string::to_string_from_display_ensures;

verus! {

/// `std::num::ParseIntError`, the error of a failed integer parse. Its contents
/// are not known here; its text is what its `Display` gives.
#[verifier::external_type_specification]
#[verifier::external_body]
pub struct ExParseIntError(ParseIntError);

/// The message of the error for bytes that are no valid UTF-8.
pub open spec fn invalid_text() -> Seq<char> {
    "stream did not contain valid UTF-8"@
}

/// An error that carries a human-readable message and nothing else.
///
/// The view of an error is its message.
#[derive(Debug)]
pub struct Error {
    message: String,
}

impl View for Error {
    type V = Seq<char>;

    closed spec fn view(&self) -> Seq<char> {
        self.message@
    }
}

impl Error {
    /// Builds an error from a message.
    pub fn new(message: &str) -> (err: Error)
        ensures
            err@ == message@,
    {
        Error { message: message.to_owned() }
    }

    /// The error for a line whose bytes are no valid UTF-8.
    pub fn invalid_text() -> (err: Error)
        ensures
            err@ == invalid_text(),
    {
        Error::new("stream did not contain valid UTF-8")
    }

    /// The message, borrowed.
    pub fn message(&self) -> (text: &str)
        ensures
            text@ == self@,
    {
        self.message.as_str()
    }

    /// The message as an owned string.
    pub fn to_string(&self) -> (text: String)
        ensures
            text@ == self@,
    {
        self.message.clone()
    }
}

impl Clone for Error {
    fn clone(&self) -> (copy: Error)
        ensures
            copy@ == self@,
    {
        Error { message: self.message.clone() }
    }
}

impl From<ParseIntError> for Error {
    /// An error with the text of the integer-parse error as its message.
    fn from(err: ParseIntError) -> (out: Error)
        ensures
            exists|text: String| #[trigger]
                to_string_from_display_ensures::<ParseIntError>(&err, text) && out@ == text@,
    {
        Error { message: err.to_string() }
    }
}

impl vstd::std_specs::convert::FromSpecImpl<ParseIntError> for Error {
    open spec fn obeys_from_spec() -> bool {
        false
    }

    open spec fn from_spec(err: ParseIntError) -> Error {
        arbitrary()
    }
}

impl PartialEq for Error {
    fn eq(&self, other: &Error) -> (same: bool) {
        self.message == other.message
    }
}

impl vstd::std_specs::cmp::PartialEqSpecImpl for Error {
    open spec fn obeys_eq_spec() -> bool {
        true
    }

    open spec fn eq_spec(&self, other: &Error) -> bool {
        self@ == other@
    }
}

} // verus!
