//! GHASH (NIST SP 800-38D §6.4): the `GF(2^128)` polynomial hash used for GCM's tag.

pub mod field;
pub mod state;

pub use state::{Ghash, GhashResult, HashSubkey};
