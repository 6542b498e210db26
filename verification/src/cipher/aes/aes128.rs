//! AES-128, the readable 128-bit block permutation.

pub mod field;
pub mod forward;
pub mod inverse;
pub mod key;
pub mod key_schedule;
pub mod state;
pub mod substitution;
pub mod transforms;
pub mod api;

pub use api::{Aes128, Aes128Block, Aes128Key};
