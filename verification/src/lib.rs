//! A minimal replicated file-storage protocol with a cryptographic
//! certificate of availability.
//!
//! A client hands a file to a coordinating server; the server streams the
//! file to every registered replica; each replica checks the content hash
//! and signs it; the server folds all attestations into one aggregate
//! signature and returns it, with the hash, to the client.

pub mod bls;
pub mod client;
pub mod hash;
pub mod protocol;
pub mod registry;
pub mod replica;
pub mod server;
pub mod stream;
pub mod system;
pub mod tobs58;

pub use protocol::Protocol;
