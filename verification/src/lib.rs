//! A verified core for a URL-shortening service.
//!
//! The library covers the short-code issuance algorithm (collision handling
//! under a uniqueness constraint), the conditional-encryption storage policy,
//! and the redirect-time access/expiration state machine.  The relational
//! storage engine is modelled by an in-memory table with the same uniqueness
//! constraints; HTTP wiring and secret loading stay outside the library.

#![verifier::loop_isolation(false)]

pub mod codegen;
pub mod config;
pub mod crypto;
pub mod record;
pub mod redirect;
pub mod shorten;
pub mod store;
