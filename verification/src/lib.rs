//! Messaging Layer Security: how the proposals of a commit are filtered and
//! applied, how message content is authenticated, and a basic identity provider.
//!
//! Everything here is a function of plain values. Validators, identity services
//! and the ratchet tree's own editing are asked for by the caller: the library
//! says what to ask next and decides what the answer means.

pub mod bench_utils;
pub mod bytes;
pub mod extension;
pub mod group;
pub mod identity;
pub mod tls;
pub mod tree_kem;
