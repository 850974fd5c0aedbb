//! A verified streaming implementation of the MurmurHash3 x64-128 hash
//! function.
//!
//! The `model` module defines the digest of a byte sequence as a pure
//! specification-level function of the seed and the bytes.  The `streaming`
//! module holds the incremental hashing state, whose `write` and `finalize`
//! operations are proved to reproduce that definition exactly, however the
//! input is split into chunks.

pub mod model;
pub mod streaming;
