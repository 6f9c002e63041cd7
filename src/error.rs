use vstd::prelude::*;

verus! {

/// Failures surfaced by classification and resolution.
#[derive(Debug)]
pub enum Error {
    /// The classifier produced no confident mimetype for this resource.
    Ambiguous(String),
    /// No association exists for this mimetype in any tier, or a removal target is absent.
    NotFound(String),
    /// A malformed user-supplied mimetype string.
    InvalidMime(String),
    /// An unparsable path or URL.
    BadPath(String),
    /// Interactive selection was aborted, or the selector failed.
    Cancelled,
}

impl Error {
    /// Whether this error stands for a selection that was aborted.
    pub fn is_cancelled(&self) -> (r: bool)
        ensures
            r == (self is Cancelled),
    {
        match self {
            Error::Cancelled => true,
            _ => false,
        }
    }

    /// The message shown to a user.
    pub fn message(&self) -> (r: String)
        ensures
            self matches Error::Ambiguous(s) ==> r@ == s@ + ": could not determine a mimetype"@,
            self matches Error::NotFound(s) ==> r@ == "no handler defined for "@ + s@,
            self matches Error::InvalidMime(s) ==> r@ == "invalid mimetype: "@ + s@,
            self matches Error::BadPath(s) ==> r@ == "could not parse path or URL: "@ + s@,
            self is Cancelled ==> r@ == "selection cancelled"@,
    {
        match self {
            Error::Ambiguous(s) => s.clone().concat(": could not determine a mimetype"),
            Error::NotFound(s) => String::from_str("no handler defined for ").concat(s.as_str()),
            Error::InvalidMime(s) => String::from_str("invalid mimetype: ").concat(s.as_str()),
            Error::BadPath(s) => String::from_str("could not parse path or URL: ").concat(s.as_str()),
            Error::Cancelled => String::from_str("selection cancelled"),
        }
    }
}

} // verus!
