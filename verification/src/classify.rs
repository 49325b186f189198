//! Response classifier: turns the outcome of one HTTP exchange into exactly
//! one verdict for the caller's completion handle.
//!
//! A connection-level failure and a non-success status become transport
//! errors; on a success status the body is decoded with replacement,
//! parsed, and interpreted. A batch envelope is a fatal protocol-invariant
//! violation, reported as such rather than delivered to the caller.

use vstd::prelude::*;

use crate::errors::RpcError;
use crate::errors::TransportFailure;
use crate::wire::Decoded;
use crate::wire::WireOutput;
use crate::wire::body_to_text;
use crate::wire::decode_body;
use crate::wire::decode_diag;
use crate::wire::decode_kind;
use crate::wire::lossy_decode;

verus! {

/// The result of one call, as delivered to its completion handle.
pub type CallResult = Result<serde_json::Value, RpcError>;

/// The classifier's verdict on one HTTP exchange.
#[derive(Debug, PartialEq)]
pub enum Classified {
    /// Deliver this result to the caller's completion handle.
    Done(CallResult),
    /// The server answered a single call with a batch envelope, which this
    /// path treats as unreachable: a fatal protocol-invariant violation,
    /// never delivered as a per-call error.
    ProtocolViolation,
}

/// The outcome of one HTTP exchange, as observed at the transport.
#[derive(Debug, PartialEq)]
pub enum HttpOutcome {
    /// No response was obtained; carries the underlying cause.
    ConnectionFailed(String),
    /// A response arrived with this status and raw body.
    Response { status: u16, body: Vec<u8> },
}

/// Whether an HTTP status code counts as success.
pub open spec fn spec_is_success(status: u16) -> bool {
    200 <= status && status < 300
}

/// What one decoded output means for the caller: a `result` yields success
/// with that value verbatim; an `error` yields an application error with
/// the server-supplied code, message and data verbatim.
pub open spec fn spec_interpret_output(o: WireOutput) -> CallResult {
    match o {
        WireOutput::Success { id, result } => Ok(result),
        WireOutput::Failure { id, code, message, data } => Err(
            RpcError::Application { code, message, data },
        ),
    }
}

/// Convert one decoded output to the caller's result.
pub fn interpret_output(o: WireOutput) -> (r: CallResult)
    ensures
        r == spec_interpret_output(o),
{
    match o {
        WireOutput::Success { id, result } => Ok(result),
        WireOutput::Failure { id, code, message, data } => Err(
            RpcError::Application { code, message, data },
        ),
    }
}

/// Classify an already-decoded response body. `text` is the response text
/// the body was parsed from; it is carried into a parse-error verdict.
pub fn classify_decoded(d: Decoded, text: String) -> (r: Classified)
    ensures
        d matches Decoded::Single(o) ==> r == Classified::Done(spec_interpret_output(o)),
        d matches Decoded::Batch ==> r == Classified::ProtocolViolation,
        d matches Decoded::Invalid(diag) ==> r == Classified::Done(
            Err(RpcError::Parse { text: text, diagnostic: diag }),
        ),
{
    match d {
        Decoded::Single(o) => Classified::Done(interpret_output(o)),
        Decoded::Batch => Classified::ProtocolViolation,
        Decoded::Invalid(diag) => Classified::Done(
            Err(RpcError::Parse { text, diagnostic: diag }),
        ),
    }
}

/// The full classification contract: how one HTTP outcome is judged.
///
/// A connection failure is always a transport error carrying its cause — in
/// particular never a parse or application error; a non-success status is
/// always a transport error carrying the status, the body unread. On a
/// success status the body is decoded with replacement and the verdict
/// follows what the host codec makes of that text: the batch violation iff
/// it decodes to a batch, a parse error carrying exactly that text and the
/// codec's diagnostic iff it decodes to nothing, and otherwise — a single
/// response — the interpretation of a decoded output, never a transport
/// error.
pub open spec fn spec_classified(outcome: HttpOutcome, r: Classified) -> bool {
    match outcome {
        HttpOutcome::ConnectionFailed(cause) => r == Classified::Done(
            Err(RpcError::Transport(TransportFailure::ConnectionFailed(cause))),
        ),
        HttpOutcome::Response { status, body } => if !spec_is_success(status) {
            r == Classified::Done(Err(RpcError::Transport(TransportFailure::HttpStatus(status))))
        } else {
            if decode_kind(lossy_decode(body@)) == 1 {
                r == Classified::ProtocolViolation
            } else if decode_kind(lossy_decode(body@)) == 2 {
                exists|text: String, diag: String|
                    text@ == lossy_decode(body@) && diag@ == decode_diag(lossy_decode(body@))
                        && r == Classified::Done(
                        Err(RpcError::Parse { text: text, diagnostic: diag }),
                    )
            } else {
                exists|o: WireOutput| r == Classified::Done(spec_interpret_output(o))
            }
        },
    }
}

/// Produce exactly one verdict for the outcome of one HTTP exchange.
pub fn classify_outcome(outcome: HttpOutcome) -> (r: Classified)
    ensures
        spec_classified(outcome, r),
{
    match outcome {
        HttpOutcome::ConnectionFailed(cause) => Classified::Done(
            Err(RpcError::Transport(TransportFailure::ConnectionFailed(cause))),
        ),
        HttpOutcome::Response { status, body } => {
            if !(200 <= status && status < 300) {
                Classified::Done(Err(RpcError::Transport(TransportFailure::HttpStatus(status))))
            } else {
                let text = body_to_text(&body);
                let ghost snapshot = text;
                let d = decode_body(text.as_str());
                let ghost shape = d;
                let r = classify_decoded(d, text);
                proof {
                    match shape {
                        Decoded::Single(o) => {
                            assert(exists|w: WireOutput|
                                r == Classified::Done(spec_interpret_output(w))) by {
                                assert(r == Classified::Done(spec_interpret_output(o)));
                            }
                        },
                        Decoded::Batch => {},
                        Decoded::Invalid(diag) => {
                            assert(snapshot@ == lossy_decode(body@) && diag@ == decode_diag(
                                lossy_decode(body@),
                            ) && r == Classified::Done(
                                Err(RpcError::Parse { text: snapshot, diagnostic: diag }),
                            ));
                        },
                    }
                }
                r
            }
        },
    }
}

} // verus!
