use vstd::prelude::*;

verus! {

/// The ways in which turning a template and its arguments into SQL text can fail.
#[derive(Debug, Clone, Copy, PartialEq, Eq, Structural)]
pub enum Error {
    /// The dialect has no interpolation rule.
    NotImplemented,
    /// The template refers to more arguments than were supplied.
    MissingArgs,
    /// An argument cannot be written as a literal in the dialect.
    UnsupportedArgs,
    /// The produced output is not valid text.
    InvalidUtf8,
}

/// The message that describes an error.
pub open spec fn error_message(e: Error) -> Seq<char> {
    match e {
        Error::NotImplemented => "interpolation for this flavor is not implemented"@,
        Error::MissingArgs => "not enough args when interpolating"@,
        Error::UnsupportedArgs => "unsupported args when interpolating"@,
        Error::InvalidUtf8 => "invalid utf8"@,
    }
}

impl Error {
    /// A sentence that describes the error.
    pub fn message(&self) -> (r: &'static str)
        ensures
            r@ == error_message(*self),
    {
        match self {
            Error::NotImplemented => "interpolation for this flavor is not implemented",
            Error::MissingArgs => "not enough args when interpolating",
            Error::UnsupportedArgs => "unsupported args when interpolating",
            Error::InvalidUtf8 => "invalid utf8",
        }
    }
}

} // verus!
