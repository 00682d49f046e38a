//! An approximate-membership set (a bloom filter) behind a handle-based
//! engine: callers hold opaque integer handles to live filter instances and
//! drive each instance through init, update, merge, serialize and
//! deserialize, plus a stateless membership query over serialized bytes.
//!
//! The bit-array and hashing primitives come from the `fastbloom_rs` crate
//! and are taken on trust behind a small set of wrappers in [`filter`]; the
//! handle protocol, the operation contracts and the membership laws are
//! stated and proved here.

pub mod bits;
pub mod engine;
pub mod filter;
pub mod laws;
