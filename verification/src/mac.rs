//! Message authentication codes.

pub mod poly1305;
