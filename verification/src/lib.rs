//! Client-side transport core for JSON-RPC over HTTP.
//!
//! The library turns outgoing remote calls into JSON-RPC request envelopes,
//! bounds the number of exchanges in flight, classifies each HTTP outcome,
//! and guarantees that every accepted call is resolved exactly once.

pub mod classify;
pub mod dispatch;
pub mod encode;
pub mod errors;
pub mod wire;

pub use encode::encode_request;
