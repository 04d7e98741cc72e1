//! Compact, time-ordered 64-bit identifiers.
//!
//! An identifier packs five fields into one `u64`, least significant first:
//! a 3-bit configuration tag, a 10-bit sequence number, an optional shard
//! number, the number of the node that minted it, and the milliseconds that
//! have passed since a configurable epoch.
//!
//! [`layout`] is the mathematical model of that packing, [`laws`] proves what
//! holds of it, and [`generator`] is the executable codec and generator.

pub mod bits;
mod clock;
pub mod error;
pub mod generator;
pub mod laws;
pub mod layout;
pub mod preset;

pub use crate::error::IdError;
pub use crate::generator::{DecodedId, IdGenerator};
pub use crate::preset::{ConfigPreset, DEFAULT_EPOCH};
