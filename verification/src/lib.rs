//! A string-encoding boundary.
//!
//! The crate has two halves. `encoding` holds the encoder itself: a pure
//! function from bytes to bytes that leaves unreserved bytes alone and
//! escapes every other byte as `%` plus two hex digits, returning a tagged
//! result that records whether the input could be borrowed unchanged.
//! `capi` holds the protocols for moving such a result, and the input, across
//! a call boundary whose caller cannot be trusted with ownership or buffer
//! sizes: an opaque handle with an explicit release, and a caller-supplied
//! buffer with capacity negotiation. `params` and `api_call` assemble the
//! ordered key-value pairs whose values are the usual inputs to the boundary.

pub mod api_call;
pub mod capi;
pub mod encoding;
pub mod params;
