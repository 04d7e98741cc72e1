//! The named layouts, and the one that a caller spells out.

use crate::layout::Layout;
use vstd::prelude::*;

verus! {

/// Midnight before 1 January 2021, UTC, in milliseconds since the Unix
/// epoch: the epoch to take where nothing else is called for.
pub const DEFAULT_EPOCH: u64 = 1609459200000;

/// The choice of a layout.
#[derive(Clone, Copy, Debug, PartialEq, Eq, Structural)]
pub enum ConfigPreset {
    /// 37 bits of time and 14 bits of node number, no shards; tag 3.
    ShortEpochMaxNodes,
    /// 32 bits of time, 14 bits of node number and 5 bits of shard; tag 1.
    ShardedConfig,
    /// A layout given in full: its epoch, the widths of the time, node and
    /// shard fields, and its tag.
    Custom(u64, u8, u8, u8, u8),
}

impl ConfigPreset {
    /// The layout that the preset stands for. A named preset takes the
    /// epoch it is given; a custom one brings its own, and `epoch` is not
    /// looked at.
    pub open spec fn layout(self, epoch: u64) -> Layout {
        match self {
            ConfigPreset::ShortEpochMaxNodes => Layout {
                epoch: epoch as nat,
                time_bits: 37,
                node_bits: 14,
                shard_bits: 0,
                tag: 3,
            },
            ConfigPreset::ShardedConfig => Layout {
                epoch: epoch as nat,
                time_bits: 32,
                node_bits: 14,
                shard_bits: 5,
                tag: 1,
            },
            ConfigPreset::Custom(own_epoch, time_bits, node_bits, shard_bits, tag) => Layout {
                epoch: own_epoch as nat,
                time_bits: time_bits as nat,
                node_bits: node_bits as nat,
                shard_bits: shard_bits as nat,
                tag: tag as nat,
            },
        }
    }

    /// The preset keeps the configuration contract: its fields fit into 64
    /// bits and its tag into three. The named presets always do.
    pub open spec fn valid(self) -> bool {
        self.layout(0).valid()
    }

    /// Tells whether the preset keeps the configuration contract.
    pub fn is_valid(&self) -> (ok: bool)
        ensures
            ok == self.valid(),
    {
        match self {
            ConfigPreset::ShortEpochMaxNodes => true,
            ConfigPreset::ShardedConfig => true,
            ConfigPreset::Custom(_, time_bits, node_bits, shard_bits, tag) => {
                let total: u16 = 13 + (*time_bits as u16) + (*node_bits as u16) + (
                *shard_bits as u16);
                total <= 64 && *tag < 8
            },
        }
    }
}

} // verus!
