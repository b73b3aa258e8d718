//! The error taxonomy shared by the parser and the response writer.
//!
//! Every failure is returned to the immediate caller as a typed
//! [`ServerError`] value; nothing is retried or logged internally. The
//! `NotFound`, `Forbidden` and `Custom` variants are defined for
//! collaborators (file lookup, connection handling) and are never raised by
//! the parser or the writer themselves.

use vstd::prelude::*;
use vstd::string::StringExecFns;

verus! {

/// Verus must be told about `std::io::Error` before it can stand in
/// signatures and fields; the type stays opaque to verification.
#[verifier::external_type_specification]
#[verifier::external_body]
pub struct ExIoError(std::io::Error);

/// The different kinds of failure the server core can report.
#[derive(Debug)]
pub enum ServerError {
    /// An underlying stream I/O failure, wrapped as received.
    Io(std::io::Error),
    /// The request line was malformed or out of grammar; the message
    /// carries the specifics.
    InvalidRequest(String),
    /// The requested file was not found (raised by the file-lookup
    /// collaborator, not by this crate's own functions).
    NotFound(String),
    /// Access to the requested resource is denied (likewise reserved for
    /// collaborators).
    Forbidden(String),
    /// A generic fallback, constructible from a plain string.
    Custom(String),
}

impl ServerError {
    /// Creates an `InvalidRequest` error carrying the given message.
    pub fn invalid_request<T: Into<String>>(message: T) -> (e: ServerError)
        ensures
            e matches ServerError::InvalidRequest(s) && call_ensures(T::into, (message,), s),
    {
        ServerError::InvalidRequest(message.into())
    }

    /// Creates a `NotFound` error carrying the given path.
    pub fn not_found<T: Into<String>>(path: T) -> (e: ServerError)
        ensures
            e matches ServerError::NotFound(s) && call_ensures(T::into, (path,), s),
    {
        ServerError::NotFound(path.into())
    }

    /// Creates a `Forbidden` error carrying the given message.
    pub fn forbidden<T: Into<String>>(message: T) -> (e: ServerError)
        ensures
            e matches ServerError::Forbidden(s) && call_ensures(T::into, (message,), s),
    {
        ServerError::Forbidden(message.into())
    }

    /// Renders the error as the one-line description each variant prints:
    /// a fixed prefix naming the kind, then the carried detail.
    pub fn message(&self) -> (m: String)
        ensures
            self is Io ==> m@.len() >= 11 && m@.subrange(0, 11) == "I/O error: "@,
            self matches ServerError::InvalidRequest(s) ==> m@ == "Invalid request: "@ + s@,
            self matches ServerError::NotFound(s) ==> m@ == "File not found: "@ + s@,
            self matches ServerError::Forbidden(s) ==> m@ == "Forbidden: "@ + s@,
            self matches ServerError::Custom(s) ==> m@ == "Custom error: "@ + s@,
    {
        match self {
            ServerError::Io(e) => {
                let mut m = "I/O error: ".to_owned();
                m.append(io_error_text(e).as_str());
                proof {
                    reveal_strlit("I/O error: ");
                    assert(m@.subrange(0, 11) =~= "I/O error: "@);
                }
                m
            },
            ServerError::InvalidRequest(s) => {
                let mut m = "Invalid request: ".to_owned();
                m.append(s.as_str());
                m
            },
            ServerError::NotFound(s) => {
                let mut m = "File not found: ".to_owned();
                m.append(s.as_str());
                m
            },
            ServerError::Forbidden(s) => {
                let mut m = "Forbidden: ".to_owned();
                m.append(s.as_str());
                m
            },
            ServerError::Custom(s) => {
                let mut m = "Custom error: ".to_owned();
                m.append(s.as_str());
                m
            },
        }
    }
}

impl From<std::io::Error> for ServerError {
    /// Wraps an underlying I/O failure without altering it.
    fn from(error: std::io::Error) -> (e: ServerError) {
        ServerError::Io(error)
    }
}

impl vstd::std_specs::convert::FromSpecImpl<std::io::Error> for ServerError {
    open spec fn obeys_from_spec() -> bool {
        true
    }

    open spec fn from_spec(v: std::io::Error) -> ServerError {
        ServerError::Io(v)
    }
}

impl From<&str> for ServerError {
    /// Converts a plain string into the `Custom` fallback variant,
    /// carrying the string verbatim.
    fn from(error: &str) -> (e: ServerError)
        ensures
            e matches ServerError::Custom(s) && s@ == error@,
    {
        ServerError::Custom(error.to_owned())
    }
}

// `from_spec` would have to name the one `String` value the conversion
// allocates, which no spec expression can do, so it promises nothing; the
// impl's own `ensures` above pins the variant and the carried text instead.
impl vstd::std_specs::convert::FromSpecImpl<&str> for ServerError {
    open spec fn obeys_from_spec() -> bool {
        false
    }

    open spec fn from_spec(v: &str) -> ServerError {
        arbitrary()
    }
}

/// Relies on `String`'s conversion from `&str`: the result holds the same
/// characters as the slice it was made from.
pub assume_specification<'_0, 'a>[ <String as From<&'a str>>::from ](s: &'a str) -> (r: String)
    ensures
        r@ == s@,
;

/// Relies on the `Display` impl of `std::io::Error` to describe the
/// failure. The text depends on the platform and the error's construction,
/// so nothing is stated about it.
#[verifier::external_body]
fn io_error_text(e: &std::io::Error) -> String {
    format!("{}", e)
}

} // verus!
