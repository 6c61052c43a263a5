//! A single-user encrypted journal library.
//!
//! Entries are written under the journal's public key and can be read only by
//! whoever holds the matching private key, which the user supplies like a
//! password at login. The library covers the cryptographic envelope around
//! entry content, the ephemeral symmetric box that protects the private key
//! inside a session token, the ordered paginated entry store with its schema
//! version gate, and the login / authorization rules that tie them together.

pub mod auth;
pub mod cli;
pub mod codec;
pub mod pages;
pub mod session;
pub mod sodium;
pub mod store;
pub mod vault;
