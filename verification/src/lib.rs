//! Batch password processing: a digest provider over four algorithms, a
//! deterministic work partitioner, an ordered hashing engine, a binary
//! container codec, and random password generation.
//!
//! The library computes on plain values (byte vectors for passwords,
//! algorithm names and containers); reading and writing files, thread
//! spawning and the command line live with the caller.

pub mod algorithm;
pub mod codec;
pub mod digest;
pub mod errors;
pub mod hashing;
pub mod partition;
pub mod password;

pub use algorithm::Algorithm;
pub use codec::{decode, dump_hashes, encode, DecodedContainer, DumpReport};
pub use digest::digest;
pub use errors::HashassinError;
pub use hashing::{hash_all, hash_chunk, merge_in_chunk_order};
pub use partition::partition;
pub use password::generate_passwords;
