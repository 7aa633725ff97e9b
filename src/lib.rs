//! Quorum-authorised signing with a hash-chained audit log.
//!
//! The library holds the logic of the signing service: the encodings that
//! are signed and hashed, the audit-log chain and its offline verification,
//! the store of secrets, users and weights, the weighted quorum that admits
//! a request, and the reading of keys to be put on the device.
pub mod codec;
pub mod digest;
pub mod hex;
pub mod log;
pub mod command;
pub mod store;
pub mod auth;
pub mod service;
pub mod import;
pub mod pgp;
pub mod signing;
pub mod provision;
