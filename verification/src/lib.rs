//! Client-side engine for a DNS provider whose zones are edited through
//! copy-on-write "versions": a zone snapshot is created inactive, populated,
//! then published by enabling it, while the active snapshot is never mutated
//! in place.
//!
//! The crate builds every HTTP request as a plain value ([`net::QueryRequest`]),
//! decides which mutations are allowed (the active version is protected),
//! resolves record names against the caller's domains, and decodes the
//! provider's JSON responses.  Performing the network round trip itself is
//! left to the caller.

pub mod api;
pub mod bind;
pub mod error;
pub mod json;
pub mod net;
pub mod strutil;

use vstd::prelude::*;

verus! {

/// Base URL of the provider's HTTP API; every request path is appended to it.
pub open spec fn spec_api_url() -> Seq<char> {
    "https://api.online.net/api/v1"@
}

/// The fixed base URL of the provider's API.
pub fn api_url() -> (r: &'static str)
    ensures
        r@ == spec_api_url(),
{
    "https://api.online.net/api/v1"
}

} // verus!
