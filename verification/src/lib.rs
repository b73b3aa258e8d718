//! A minimal HTTP/1.x request-line parser and response serializer for
//! serving static content over a raw byte stream.
//!
//! The crate has two independent components: [`request::Request`], built by
//! validating one request line against a fixed grammar, and
//! [`response::Response`], a builder that serializes a status line, headers
//! and body to a byte sink in wire order. Both report failures through
//! [`error::ServerError`].

/// Errors raised by the parser and the response writer, plus the variants
/// reserved for collaborators (file lookup, connection handling).
pub mod error;

/// Parsing and validation of the HTTP request line.
pub mod request;

/// Building and serializing HTTP responses.
pub mod response;

/// Shared text utilities: decimal rendering, whitespace, ASCII case folding.
pub mod text;

pub use error::ServerError;
pub use request::Request;
pub use response::Response;
