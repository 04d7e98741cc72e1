//! The mathematical model of the identifier layout.
//!
//! Everything here is specification: natural numbers, powers of two,
//! division and remainder. The executable code is proved against it.

use vstd::arithmetic::power2::pow2;
use vstd::prelude::*;

verus! {

/// Width of the configuration tag, the lowest field of every identifier.
pub const CONFIG_BITS: u8 = 3;

/// Width of the sequence field, which follows the configuration tag.
pub const SEQUENCE_BITS: u8 = 10;

/// Bit at which the shard field starts: just above tag and sequence.
pub const SHARD_SHIFT: u8 = 13;

/// What is held in the `width` bits of `id` that start at bit `shift`.
pub open spec fn window(id: nat, shift: nat, width: nat) -> nat {
    (id / pow2(shift)) % pow2(width)
}

/// The five fields of an identifier, as numbers.
pub struct Fields {
    /// Milliseconds since the epoch.
    pub time: nat,
    /// Number of the minting node.
    pub node: nat,
    /// Shard number; zero where the layout has no shard field.
    pub shard: nat,
    /// Sequence number within the node.
    pub sequence: nat,
    /// Tag of the layout that produced the identifier.
    pub tag: nat,
}

impl Fields {
    /// The order of identifiers, told by their fields: by time first, then
    /// by node, shard, sequence and tag.
    pub open spec fn precedes(self, other: Fields) -> bool {
        ||| self.time < other.time
        ||| self.time == other.time && self.node < other.node
        ||| self.time == other.time && self.node == other.node && self.shard < other.shard
        ||| self.time == other.time && self.node == other.node && self.shard == other.shard
            && self.sequence < other.sequence
        ||| self.time == other.time && self.node == other.node && self.shard == other.shard
            && self.sequence == other.sequence && self.tag < other.tag
    }
}

/// A bit layout: the epoch, the widths of the three variable fields and the
/// tag that is stamped into every identifier.
pub struct Layout {
    /// Time zero, in milliseconds since the Unix epoch.
    pub epoch: nat,
    /// Width of the time field.
    pub time_bits: nat,
    /// Width of the node field.
    pub node_bits: nat,
    /// Width of the shard field; zero switches sharding off.
    pub shard_bits: nat,
    /// The configuration tag.
    pub tag: nat,
}

impl Layout {
    /// Bit at which the node field starts.
    pub open spec fn node_shift(self) -> nat {
        13 + self.shard_bits
    }

    /// Bit at which the time field starts.
    pub open spec fn time_shift(self) -> nat {
        13 + self.shard_bits + self.node_bits
    }

    /// Number of bits that the five fields occupy together.
    pub open spec fn total_bits(self) -> nat {
        13 + self.shard_bits + self.node_bits + self.time_bits
    }

    /// The configuration contract: the fields fit into 64 bits together and
    /// the tag fits into its three bits.
    pub open spec fn valid(self) -> bool {
        &&& self.total_bits() <= 64
        &&& self.tag < 8
    }

    /// Number of distinct node numbers.
    pub open spec fn max_nodes(self) -> nat {
        pow2(self.node_bits)
    }

    /// Number of distinct shard numbers.
    pub open spec fn max_shards(self) -> nat {
        pow2(self.shard_bits)
    }

    /// Every field of `f` fits into its window.
    pub open spec fn fits(self, f: Fields) -> bool {
        &&& f.time < pow2(self.time_bits)
        &&& f.node < pow2(self.node_bits)
        &&& f.shard < pow2(self.shard_bits)
        &&& f.sequence < 1024
        &&& f.tag < 8
    }

    /// The identifier that holds the fields `f`, each shifted to its window.
    pub open spec fn encode(self, f: Fields) -> nat {
        f.tag + 8 * f.sequence + 8192 * f.shard + pow2(self.node_shift()) * f.node + pow2(
            self.time_shift(),
        ) * f.time
    }

    /// The fields of `id`, each read from its window.
    pub open spec fn decode(self, id: nat) -> Fields {
        Fields {
            time: window(id, self.time_shift(), self.time_bits),
            node: window(id, self.node_shift(), self.node_bits),
            shard: window(id, 13, self.shard_bits),
            sequence: (id / 8) % 1024,
            tag: id % 8,
        }
    }

    /// The fields of the identifier minted `elapsed` milliseconds after the
    /// epoch by node `node` when the sequence counter stood at `counter`:
    /// time, node, counter and tag are reduced to their field widths, the
    /// shard is zero.
    pub open spec fn minted_fields(self, elapsed: nat, node: nat, counter: nat) -> Fields {
        Fields {
            time: elapsed % pow2(self.time_bits),
            node: node % pow2(self.node_bits),
            shard: 0,
            sequence: counter % 1024,
            tag: self.tag % 8,
        }
    }

    /// The identifier minted `elapsed` milliseconds after the epoch by node
    /// `node` when the sequence counter stood at `counter`.
    pub open spec fn minted(self, elapsed: nat, node: nat, counter: nat) -> nat {
        self.encode(self.minted_fields(elapsed, node, counter))
    }

    /// `id` with `shard` written over its shard window and every other bit
    /// left as it is.
    pub open spec fn reshard(self, id: nat, shard: nat) -> nat {
        (id - 8192 * self.decode(id).shard + 8192 * shard) as nat
    }
}

} // verus!
