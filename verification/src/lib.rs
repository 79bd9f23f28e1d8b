//! Library core of a command-line client for a transactional-email web API.
//!
//! The verified logic lives here: the mapping from HTTP status codes and
//! response bodies to a closed error taxonomy, the JSON framing of request
//! bodies and decoding of response bodies, configuration-profile resolution,
//! and table/JSON rendering of resource records.  Network, terminal and file
//! I/O are left to the thin unverified shell around this crate.

pub mod client;
pub mod config;
pub mod formatters;
pub mod json;
pub mod text;
pub mod types;
pub mod wire;
