//! Authentication and scoped-authorization core for a personal media server.
//!
//! The crate turns a username/password pair into a tamper-proof, optionally
//! time-limited credential token, and turns such a token back into an
//! authorization decision. It is organised after the components of the
//! subsystem: password hashing, the token codec, the authorization payload
//! format, the account store, and the manager that orchestrates them.

pub mod codec;
pub mod errors;
pub mod hashing;
pub mod laws;
pub mod manager;
pub mod model;
pub mod payload;
pub mod store;
pub mod strings;
