//! Trusted boundary to the host JSON-RPC wire codec.
//!
//! The codec itself — byte-to-structure conversion — is an external
//! collaborator; this module declares the host types the library carries
//! verbatim and wraps the few codec calls the classifier makes. Everything
//! downstream of these wrappers is verified against values of the library's
//! own types.

use vstd::prelude::*;

verus! {

/// serde_json's dynamic JSON value; carried verbatim, never inspected here.
#[verifier::external_type_specification]
#[verifier::external_body]
pub struct ExValue(serde_json::Value);

/// jsonrpc_core's per-call response portion, as decoded from the wire.
#[verifier::external_type_specification]
#[verifier::external_body]
pub struct ExOutput(jsonrpc_core::Output);

/// jsonrpc_core's response correlation identifier.
#[verifier::external_type_specification]
#[verifier::external_body]
pub struct ExId(jsonrpc_core::Id);

/// The per-call portion of a decoded response, with the fields the
/// classifier reads held as plain values. The `result` and `data` payloads
/// stay host JSON values: they are passed to the caller verbatim.
pub enum WireOutput {
    /// The server answered the call with a result value.
    Success { id: jsonrpc_core::Id, result: serde_json::Value },
    /// The server answered with a JSON-RPC error object.
    Failure { id: jsonrpc_core::Id, code: i64, message: String, data: Option<serde_json::Value> },
}

/// The top-level shape of a decoded response body.
pub enum Decoded {
    /// A single response object, as this path requires.
    Single(WireOutput),
    /// A batch of responses: unreachable by contract on this path.
    Batch,
    /// The body was not a JSON-RPC response; carries the parser diagnostic.
    Invalid(String),
}

/// What UTF-8 decoding with replacement yields for a given byte string.
pub uninterp spec fn lossy_decode(bytes: Seq<u8>) -> Seq<char>;

/// Which shape the host codec decodes a given response text to:
/// 0 a single response, 1 a batch, 2 not a JSON-RPC response at all.
/// The decode is a function of the text alone.
pub uninterp spec fn decode_kind(text: Seq<char>) -> u8;

/// The parser diagnostic the host codec produces for a text it rejects;
/// a function of the text alone.
pub uninterp spec fn decode_diag(text: Seq<char>) -> Seq<char>;

/// Relies on String::from_utf8_lossy: the text is a function of the bytes
/// alone; invalid sequences are replaced, never fatal.
#[verifier::external_body]
pub(crate) fn body_to_text(bytes: &Vec<u8>) -> (r: String)
    ensures
        r@ == lossy_decode(bytes@),
{
    String::from_utf8_lossy(bytes.as_slice()).into_owned()
}

/// Relies on serde_json::from_str::<jsonrpc_core::Response>, which decodes a
/// JSON-RPC response envelope (single or batch) as a function of the text
/// alone, and on serde_json::Error's Display for the diagnostic when the
/// body does not parse.
#[verifier::external_body]
pub(crate) fn decode_body(text: &str) -> (r: Decoded)
    ensures
        (r matches Decoded::Single(_)) <==> decode_kind(text@) == 0,
        (r matches Decoded::Batch) <==> decode_kind(text@) == 1,
        (r matches Decoded::Invalid(_)) <==> decode_kind(text@) == 2,
        r matches Decoded::Invalid(d) ==> d@ == decode_diag(text@),
{
    match serde_json::from_str::<jsonrpc_core::Response>(text) {
        Ok(jsonrpc_core::Response::Single(output)) => Decoded::Single(convert_output(output)),
        Ok(jsonrpc_core::Response::Batch(_)) => Decoded::Batch,
        Err(e) => Decoded::Invalid(e.to_string()),
    }
}

/// Relies on the shape of jsonrpc_core's Output (a Success holds `result`,
/// a Failure holds an Error of `code`, `message`, `data`) and on
/// ErrorCode::code, which yields the numeric JSON-RPC error code.
#[verifier::external_body]
pub(crate) fn convert_output(o: jsonrpc_core::Output) -> WireOutput {
    match o {
        jsonrpc_core::Output::Success(s) => WireOutput::Success { id: s.id, result: s.result },
        jsonrpc_core::Output::Failure(f) => WireOutput::Failure {
            id: f.id,
            code: f.error.code.code(),
            message: f.error.message,
            data: f.error.data,
        },
    }
}

} // verus!
