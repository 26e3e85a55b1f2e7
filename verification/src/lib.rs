//! Verified core of a command-line HTTP request tool: the argument model,
//! the header parser, and the derivation of client- and request-scoped
//! options from a single invocation.
//!
//! The heavy lifting — TLS fingerprinting, HTTP framing, redirects — is
//! the impersonating HTTP client's business. This crate owns the
//! decisions in front of it: what a raw header string means, which
//! options parameterise the client and which the single request, and
//! what, if anything, is sent as the request body.

pub mod dispatch;
pub mod headers;
pub mod invocation;
pub mod number;
pub mod options;
pub mod text;
