//! The error taxonomy surfaced to callers.
//!
//! Every call resolves to either a success value or exactly one of these
//! kinds; none of them propagates out of the dispatch loop itself.

use vstd::prelude::*;

verus! {

/// Why an exchange failed before a well-formed JSON-RPC response was read.
#[derive(Debug, PartialEq)]
pub enum TransportFailure {
    /// The connection could not be established or was dropped before a
    /// response was obtained; carries the underlying cause.
    ConnectionFailed(String),
    /// A response arrived with a non-success HTTP status; its body is not
    /// parsed.
    HttpStatus(u16),
}

/// The classified failure of one call, as delivered to its completion handle.
#[derive(Debug, PartialEq)]
pub enum RpcError {
    /// The HTTP exchange itself failed.
    Transport(TransportFailure),
    /// The response body was not a well-formed single JSON-RPC response.
    /// Carries the raw response text and the parser's diagnostic.
    Parse { text: String, diagnostic: String },
    /// The server returned a well-formed JSON-RPC error object; its code,
    /// message and optional data are carried verbatim, not reinterpreted.
    Application { code: i64, message: String, data: Option<serde_json::Value> },
}

} // verus!
