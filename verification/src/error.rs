//! The ways in which an operation of the generator can fail.

use vstd::prelude::*;

verus! {

/// Why an identifier could not be made.
#[derive(Clone, Copy, Debug, PartialEq, Eq, Structural)]
pub enum IdError {
    /// The clock read a time before the configured epoch, so the time that
    /// has passed since the epoch cannot be written as an unsigned number.
    ClockBeforeEpoch,
    /// A shard was asked for under a layout that has no shard field.
    ShardingUnsupported,
    /// The shard does not fit into the shard field.
    ShardOutOfRange,
    /// The field widths do not fit into 64 bits together, or the tag does
    /// not fit into its three bits.
    InvalidLayout,
}

impl IdError {
    /// A short description of the failure.
    pub fn message(&self) -> (text: &'static str)
        ensures
            text@ == match *self {
                IdError::ClockBeforeEpoch => "Time went backwards"@,
                IdError::ShardingUnsupported => "This configuration doesn't support sharding"@,
                IdError::ShardOutOfRange => "Shard number exceeds maximum"@,
                IdError::InvalidLayout => "Invalid identifier layout"@,
            },
    {
        match self {
            IdError::ClockBeforeEpoch => "Time went backwards",
            IdError::ShardingUnsupported => "This configuration doesn't support sharding",
            IdError::ShardOutOfRange => "Shard number exceeds maximum",
            IdError::InvalidLayout => "Invalid identifier layout",
        }
    }
}

} // verus!
