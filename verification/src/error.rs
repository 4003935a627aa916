use vstd::prelude::*;

use crate::json::Json;

verus! {

/// Why a request could not be built.
#[derive(Debug)]
pub enum ConstructionError {
    /// No credential was given, neither explicitly nor through the
    /// environment fallback.
    MissingCredential,
    /// A field bound for a request header holds a character that cannot
    /// stand in a header value; carried is the name of that header.
    InvalidHeaderValue(String),
    /// A text that names none of the return formats the reader knows.
    InvalidReturnFormat,
}

/// A received non-success status, with the vendor's error payload where
/// the body decoded as JSON and nothing where it did not.
#[derive(Debug)]
pub struct HttpError {
    pub status: u16,
    pub payload: Option<Json>,
}

/// Everything a call can fail with.
#[derive(Debug)]
pub enum JinaError {
    /// The transport failed before any status was received; the text is the
    /// transport's own account, surfaced verbatim.
    TransportError(String),
    /// A non-success status was received.
    HttpError(HttpError),
    /// A success status arrived with a body that does not hold the
    /// documented response shape.
    DeserializationError(String),
    /// The request could not be built.
    ConstructionError(ConstructionError),
}

} // verus!
