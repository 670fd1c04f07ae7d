//! A verified core for a GitHub webhook endpoint.
//!
//! The library decides, from the plain parts of an HTTP request (path,
//! headers, advertised body length, body text), which response the endpoint
//! returns: it special-cases the health-check paths, acknowledges `ping`
//! deliveries, guards `push` deliveries against oversized bodies, parses and
//! validates the push payload, and answers every other event name with a
//! "not implemented" response.

pub mod config;
pub mod dispatch;
pub mod github;
pub mod json;

use vstd::prelude::*;

verus! {

/// HTTP status code for a successful request.
pub const STATUS_OK: u16 = 200;

/// HTTP status code returned when reading or decoding the body failed.
pub const STATUS_INTERNAL_ERROR: u16 = 500;

/// HTTP status code returned for event names the endpoint does not implement.
pub const STATUS_NOT_IMPLEMENTED: u16 = 501;

/// HTTP status code returned when the advertised body length is over the limit.
pub const STATUS_PAYLOAD_TOO_LARGE: u16 = 413;

/// Largest advertised body length (in bytes) accepted for a push delivery.
pub const MAX_PUSH_BODY_LEN: u64 = 65536;

} // verus!
