//! The generator: a layout, a sequence counter, and the codec between
//! identifiers and their fields.

use crate::bits::{
    lemma_or_is_sum, lemma_pow2_monotone, lemma_shifted_bound, power_of_two, read_window,
    write_window,
};
use crate::clock::unix_millis;
use crate::error::IdError;
use crate::laws::{lemma_minted_decodes, lemma_minted_fits, lemma_reshard_decodes};
use crate::layout::{Fields, Layout, CONFIG_BITS, SEQUENCE_BITS, SHARD_SHIFT};
use crate::preset::ConfigPreset;
use std::sync::atomic::{AtomicU16, Ordering};
use vstd::arithmetic::div_mod::lemma_mod_multiples_basic;
use vstd::arithmetic::power2::{lemma2_to64, lemma_pow2_pos, pow2};
use vstd::bits::{lemma_u64_low_bits_mask_is_mod, lemma_u64_shl_is_mul, lemma_u64_shr_is_div};
use vstd::prelude::*;

verus! {

/// The fields read from an identifier.
#[derive(Clone, Copy, Debug, PartialEq, Eq, Structural)]
pub struct DecodedId {
    /// Milliseconds between the epoch and the minting.
    pub time: u64,
    /// Number of the node that minted the identifier.
    pub node_id: u64,
    /// Shard number; zero where the layout has no shard field.
    pub shard_id: u16,
    /// Sequence number.
    pub incrementing_id: u64,
    /// Tag of the layout that the identifier was minted under.
    pub config_id: u8,
}

impl View for DecodedId {
    type V = Fields;

    open spec fn view(&self) -> Fields {
        Fields {
            time: self.time as nat,
            node: self.node_id as nat,
            shard: self.shard_id as nat,
            sequence: self.incrementing_id as nat,
            tag: self.config_id as nat,
        }
    }
}

/// Mints identifiers under one layout. The sequence counter is shared by
/// all who hold the generator, on whatever thread.
pub struct IdGenerator {
    epoch: u64,
    epoch_bits: u8,
    node_bits: u8,
    shard_bits: u8,
    max_nodes: u64,
    config_id: u8,
    next_id: AtomicU16,
}

impl View for IdGenerator {
    type V = Layout;

    closed spec fn view(&self) -> Layout {
        Layout {
            epoch: self.epoch as nat,
            time_bits: self.epoch_bits as nat,
            node_bits: self.node_bits as nat,
            shard_bits: self.shard_bits as nat,
            tag: self.config_id as nat,
        }
    }
}

impl IdGenerator {
    /// The node count that the generator keeps beside its layout.
    pub closed spec fn node_count(&self) -> nat {
        self.max_nodes as nat
    }

    /// The generator is in order: its layout keeps the configuration
    /// contract, and the node count it keeps is the layout's.
    pub open spec fn wf(&self) -> bool {
        &&& self@.valid()
        &&& self.node_count() == self@.max_nodes()
    }

    /// A generator for `preset`, its sequence counter at zero. `epoch` is the
    /// epoch of a named preset; a custom preset brings its own.
    pub fn new(preset: ConfigPreset, epoch: u64) -> (generator: Self)
        requires
            preset.valid(),
        ensures
            generator.wf(),
            generator@ == preset.layout(epoch),
    {
        proof {
            lemma2_to64();
        }
        match preset {
            ConfigPreset::ShortEpochMaxNodes => Self {
                epoch,
                epoch_bits: 37,
                node_bits: 14,
                shard_bits: 0,
                max_nodes: 16384,
                config_id: 3,
                next_id: AtomicU16::new(0),
            },
            ConfigPreset::ShardedConfig => Self {
                epoch,
                epoch_bits: 32,
                node_bits: 14,
                shard_bits: 5,
                max_nodes: 16384,
                config_id: 1,
                next_id: AtomicU16::new(0),
            },
            ConfigPreset::Custom(epoch, epoch_bits, node_bits, shard_bits, config_id) => Self {
                epoch,
                epoch_bits,
                node_bits,
                shard_bits,
                max_nodes: power_of_two(node_bits),
                config_id,
                next_id: AtomicU16::new(0),
            },
        }
    }

    /// A generator for `preset` where the preset keeps the configuration
    /// contract, and `InvalidLayout` where it does not.
    pub fn try_new(preset: ConfigPreset, epoch: u64) -> (made: Result<Self, IdError>)
        ensures
            match made {
                Ok(generator) => preset.valid() && generator.wf() && generator@ == preset.layout(
                    epoch,
                ),
                Err(e) => !preset.valid() && e == IdError::InvalidLayout,
            },
    {
        if preset.is_valid() {
            Ok(Self::new(preset, epoch))
        } else {
            Err(IdError::InvalidLayout)
        }
    }

    /// Reads the five fields of `id` under the generator's layout. The shard
    /// is handed out in 16 bits: of a shard field wider than that the low 16
    /// bits come back.
    pub fn decode_id(&self, id: u64) -> (decoded: DecodedId)
        requires
            self.wf(),
        ensures
            decoded@ == (Fields {
                shard: self@.decode(id as nat).shard % 0x1_0000,
                ..self@.decode(id as nat)
            }),
            self@.shard_bits <= 16 ==> decoded@ == self@.decode(id as nat),
    {
        let tag = read_window(id, 0, CONFIG_BITS);
        let incrementing_id = read_window(id, CONFIG_BITS, SEQUENCE_BITS);
        let shard = read_window(id, SHARD_SHIFT, self.shard_bits);
        let node_shift = SHARD_SHIFT + self.shard_bits;
        let node_id = read_window(id, node_shift, self.node_bits);
        let time_shift = node_shift + self.node_bits;
        let time = read_window(id, time_shift, self.epoch_bits);
        let shard_id = #[verifier::truncate] (shard as u16);
        proof {
            lemma2_to64();
            assert(shard_id == shard % 0x1_0000) by (bit_vector)
                requires
                    shard_id == shard as u16,
            ;
            if self.shard_bits <= 16 {
                lemma_pow2_monotone(self.shard_bits as nat, 16);
                lemma_pow2_pos(self.shard_bits as nat);
            }
        }
        DecodedId { time, node_id, shard_id, incrementing_id, config_id: tag as u8 }
    }

    /// Packs the time that has passed since the epoch, the node number and
    /// the sequence counter, each cut to its field, with the tag.
    fn pack(&self, elapsed: u64, node_id: u16, incrementing_id: u16) -> (id: u64)
        requires
            self.wf(),
        ensures
            id == self@.minted(elapsed as nat, node_id as nat, incrementing_id as nat),
    {
        let config_part = write_window(self.config_id as u64, 0, CONFIG_BITS);
        let inc_part = write_window(incrementing_id as u64, CONFIG_BITS, SEQUENCE_BITS);
        let node_shift = SHARD_SHIFT + self.shard_bits;
        let node_part = write_window(node_id as u64, node_shift, self.node_bits);
        let time_shift = node_shift + self.node_bits;
        let time_part = write_window(elapsed, time_shift, self.epoch_bits);
        proof {
            let layout = self@;
            let f = layout.minted_fields(elapsed as nat, node_id as nat, incrementing_id as nat);
            let ns = node_shift as nat;
            let ts = time_shift as nat;
            lemma_minted_fits(layout, elapsed as nat, node_id as nat, incrementing_id as nat);
            lemma2_to64();
            assert(config_part == f.tag) by (nonlinear_arith)
                requires
                    config_part == f.tag * 1,
            ;
            assert(inc_part == 8 * f.sequence) by (nonlinear_arith)
                requires
                    inc_part == f.sequence * 8,
            ;
            assert(node_part == pow2(ns) * f.node) by (nonlinear_arith)
                requires
                    node_part == f.node * pow2(ns),
            ;
            assert(time_part == pow2(ts) * f.time) by (nonlinear_arith)
                requires
                    time_part == f.time * pow2(ts),
            ;
            lemma_or_is_sum(config_part, inc_part, 3);
            let low = config_part | inc_part;
            lemma_pow2_monotone(13, ns);
            lemma_mod_multiples_basic(f.node as int, pow2(ns) as int);
            lemma_or_is_sum(low, node_part, ns);
            let middle = low | node_part;
            lemma_shifted_bound(f.node, ns, layout.node_bits);
            lemma_mod_multiples_basic(f.time as int, pow2(ts) as int);
            lemma_or_is_sum(middle, time_part, ts);
        }
        config_part | inc_part | node_part | time_part
    }

    /// The identifier that node `node_id` mints at `now_millis`, a reading of
    /// the clock in milliseconds since the Unix epoch, with the sequence
    /// counter at `incrementing_id`; `ClockBeforeEpoch` where the reading is
    /// before the generator's epoch.
    pub fn generate_id_at(&self, now_millis: u64, node_id: u16, incrementing_id: u16) -> (minted:
        Result<u64, IdError>)
        requires
            self.wf(),
        ensures
            match minted {
                Ok(id) => now_millis >= self@.epoch && id == self@.minted(
                    (now_millis - self@.epoch) as nat,
                    node_id as nat,
                    incrementing_id as nat,
                ),
                Err(e) => now_millis < self@.epoch && e == IdError::ClockBeforeEpoch,
            },
    {
        if now_millis < self.epoch {
            Err(IdError::ClockBeforeEpoch)
        } else {
            Ok(self.pack(now_millis - self.epoch, node_id, incrementing_id))
        }
    }

    /// Reads the clock and mints an identifier for node `node_id` with the
    /// sequence counter at `incrementing_id`. Whatever the clock reads, an
    /// identifier that comes back was minted at some time not before the
    /// epoch, and the only failure is a clock that stands before the epoch.
    pub fn generate_id(&self, node_id: u16, incrementing_id: u16) -> (minted: Result<u64, IdError>)
        requires
            self.wf(),
        ensures
            match minted {
                Ok(id) => exists|elapsed: nat|
                    elapsed + self@.epoch <= u64::MAX && id == #[trigger] self@.minted(
                        elapsed,
                        node_id as nat,
                        incrementing_id as nat,
                    ),
                Err(e) => e == IdError::ClockBeforeEpoch,
            },
    {
        match unix_millis() {
            Some(now_millis) => self.generate_id_at(now_millis, node_id, incrementing_id),
            None => Err(IdError::ClockBeforeEpoch),
        }
    }

    /// Takes the next value of the sequence counter and moves the counter on
    /// by one, from 65535 to zero.
    fn take_sequence(&self) -> (counter: u16) {
        self.next_id.fetch_add(1, Ordering::SeqCst)
    }

    /// Mints the next identifier for node `node_id`: reads the clock, takes
    /// the next sequence number and packs both with the node number and the
    /// tag. The identifier decodes to the node number, cut to the node
    /// field, to the layout's tag and to shard zero.
    pub fn next_id(&self, node_id: u16) -> (minted: Result<u64, IdError>)
        requires
            self.wf(),
        ensures
            match minted {
                Ok(id) => {
                    &&& exists|elapsed: nat, counter: nat|
                        elapsed + self@.epoch <= u64::MAX && counter < 1024 && id
                            == #[trigger] self@.minted(elapsed, node_id as nat, counter)
                    &&& self@.decode(id as nat).node == node_id as nat % self@.max_nodes()
                    &&& self@.decode(id as nat).tag == self@.tag
                    &&& self@.decode(id as nat).shard == 0
                },
                Err(e) => e == IdError::ClockBeforeEpoch,
            },
    {
        let counter = self.take_sequence();
        let incrementing_id = counter & 1023;
        assert(incrementing_id < 1024) by (bit_vector)
            requires
                incrementing_id == counter & 1023,
        ;
        let minted = self.generate_id(node_id, incrementing_id);
        proof {
            if let Ok(id) = minted {
                let elapsed = choose|elapsed: nat|
                    elapsed + self@.epoch <= u64::MAX && id == #[trigger] self@.minted(
                        elapsed,
                        node_id as nat,
                        incrementing_id as nat,
                    );
                lemma_minted_decodes(self@, elapsed, node_id as nat, incrementing_id as nat);
            }
        }
        minted
    }

    /// `original_id` with `shard` written into its shard field and every
    /// other bit left as it is, so that it decodes as `original_id` does but
    /// for the shard; `ShardingUnsupported` where the layout has no shard
    /// field, `ShardOutOfRange` where it has one and `shard` does not fit
    /// into it.
    pub fn derive_sharded_id(&self, original_id: u64, shard: u16) -> (derived: Result<
        u64,
        IdError,
    >)
        requires
            self.wf(),
        ensures
            match derived {
                Ok(id) => {
                    &&& self@.shard_bits > 0
                    &&& shard < self@.max_shards()
                    &&& id == self@.reshard(original_id as nat, shard as nat)
                    &&& self@.decode(id as nat) == (Fields {
                        shard: shard as nat,
                        ..self@.decode(original_id as nat)
                    })
                },
                Err(e) => if self@.shard_bits == 0 {
                    e == IdError::ShardingUnsupported
                } else {
                    shard >= self@.max_shards() && e == IdError::ShardOutOfRange
                },
            },
    {
        if self.shard_bits == 0 {
            return Err(IdError::ShardingUnsupported);
        }
        let limit = power_of_two(self.shard_bits);
        if shard as u64 >= limit {
            return Err(IdError::ShardOutOfRange);
        }
        let mask = limit - 1;
        let shard_shift = SHARD_SHIFT as u64;
        let shard_mask = mask << shard_shift;
        let base_id = original_id & !shard_mask;
        let shard_part = ((shard as u64) & mask) << shard_shift;
        let id = base_id | shard_part;
        proof {
            let width = self.shard_bits as u64;
            let present = (original_id >> 13) & mask;
            let wanted = shard as u64;
            lemma_u64_shl_is_mul(1, width);
            lemma_u64_shr_is_div(original_id, 13);
            lemma_u64_low_bits_mask_is_mod(original_id >> 13, width as nat);
            assert(id == original_id - (present << 13) + (wanted << 13) && (present << 13)
                <= original_id && (present << 13) >> 13 == present && (wanted << 13) >> 13
                == wanted) by (bit_vector)
                requires
                    width < 64,
                    limit == 1u64 << width,
                    mask == (limit - 1) as u64,
                    wanted <= mask,
                    wanted < 0x1_0000,
                    present == (original_id >> 13) & mask,
                    id == (original_id & !(mask << 13)) | ((wanted & mask) << 13),
            ;
            assert(present << 13 == 8192 * present) by {
                shifted_is_multiple(present);
            }
            assert(wanted << 13 == 8192 * wanted) by {
                shifted_is_multiple(wanted);
            }
            lemma_reshard_decodes(self@, original_id as nat, shard as nat);
        }
        Ok(id)
    }

    /// Time zero, in milliseconds since the Unix epoch.
    pub fn epoch(&self) -> (epoch: u64)
        ensures
            epoch == self@.epoch,
    {
        self.epoch
    }

    /// Width of the time field.
    pub fn epoch_bits(&self) -> (bits: u8)
        ensures
            bits == self@.time_bits,
    {
        self.epoch_bits
    }

    /// Width of the node field.
    pub fn node_bits(&self) -> (bits: u8)
        ensures
            bits == self@.node_bits,
    {
        self.node_bits
    }

    /// Width of the shard field; zero where sharding is off.
    pub fn shard_bits(&self) -> (bits: u8)
        ensures
            bits == self@.shard_bits,
    {
        self.shard_bits
    }

    /// Number of distinct node numbers.
    pub fn max_nodes(&self) -> (count: u64)
        ensures
            count == self.node_count(),
            self.wf() ==> count == self@.max_nodes(),
    {
        self.max_nodes
    }

    /// The tag that is stamped into every identifier.
    pub fn config_id(&self) -> (tag: u8)
        ensures
            tag == self@.tag,
    {
        self.config_id
    }
}

/// A number moved up by 13 bits without loss is 8192 times that number.
proof fn shifted_is_multiple(x: u64)
    by (bit_vector)
    requires
        (x << 13) >> 13 == x,
    ensures
        x << 13 == 8192 * x,
{
}

} // verus!
