use idgen::{ConfigPreset, IdError, IdGenerator, DEFAULT_EPOCH};
use std::time::{SystemTime, UNIX_EPOCH};

#[test]
fn test_initialization() {
    let gen_short = IdGenerator::new(ConfigPreset::ShortEpochMaxNodes, DEFAULT_EPOCH);
    assert_eq!(gen_short.epoch(), DEFAULT_EPOCH);
    assert_eq!(gen_short.epoch_bits(), 37);
    assert_eq!(gen_short.node_bits(), 14);
    assert_eq!(gen_short.max_nodes(), 16384);
    assert_eq!(gen_short.config_id(), 3);
    assert_eq!(gen_short.shard_bits(), 0);

    let custom_epoch = 1609459200000;
    let custom_epoch_bits = 36;
    let custom_node_bits = 13;
    let custom_shard_bits = 2;
    let custom_config_id = 1;
    let gen_custom = IdGenerator::new(
        ConfigPreset::Custom(
            custom_epoch,
            custom_epoch_bits,
            custom_node_bits,
            custom_shard_bits,
            custom_config_id,
        ),
        custom_epoch,
    );
    assert_eq!(gen_custom.epoch(), custom_epoch);
    assert_eq!(gen_custom.epoch_bits(), custom_epoch_bits);
    assert_eq!(gen_custom.node_bits(), custom_node_bits);
    assert_eq!(gen_custom.shard_bits(), custom_shard_bits);
    assert_eq!(gen_custom.max_nodes(), 8192);
    assert_eq!(gen_custom.config_id(), custom_config_id);
}

#[test]
fn test_id_uniqueness_and_sequence() {
    let gen = IdGenerator::new(ConfigPreset::ShortEpochMaxNodes, DEFAULT_EPOCH);
    let mut last_id = 0;
    for _ in 0..100 {
        let new_id = gen.next_id(1).unwrap();
        assert!(new_id > last_id);
        last_id = new_id;
    }
}

#[test]
fn test_id_composition() {
    let gen = IdGenerator::new(ConfigPreset::ShortEpochMaxNodes, DEFAULT_EPOCH);
    let id = gen.next_id(1).unwrap();
    let decoded = gen.decode_id(id);
    assert_eq!(decoded.config_id, 3);
    assert!(
        decoded.time
            <= (SystemTime::now()
                .duration_since(UNIX_EPOCH)
                .unwrap()
                .as_millis() as u64
                - DEFAULT_EPOCH)
    );
    assert_eq!(decoded.node_id, 1);
}

#[test]
fn test_boundary_conditions() {
    let gen = IdGenerator::new(ConfigPreset::ShortEpochMaxNodes, DEFAULT_EPOCH);
    // Largest node number
    let max_node_id = (gen.max_nodes() - 1) as u16;
    let id = gen.next_id(max_node_id).unwrap();
    let decoded = gen.decode_id(id);
    assert_eq!(decoded.node_id, max_node_id as u64);

    // Largest sequence number
    let max_inc_id = (1 << 10) - 1;
    let id = gen.generate_id(1, max_inc_id as u16).unwrap();
    let decoded = gen.decode_id(id);
    assert_eq!(decoded.incrementing_id, max_inc_id as u64);
}

#[test]
fn test_decode_correctness() {
    let gen = IdGenerator::new(ConfigPreset::ShortEpochMaxNodes, DEFAULT_EPOCH);
    let id = gen.next_id(1).unwrap();
    let decoded = gen.decode_id(id);
    assert_eq!(decoded.node_id, 1);
    assert_eq!(decoded.config_id, 3);
}

#[test]
#[should_panic(expected = "Time went backwards")]
fn test_time_travel_resilience() {
    let gen = IdGenerator::new(ConfigPreset::ShortEpochMaxNodes, u64::MAX);
    if let Err(e) = gen.next_id(1) {
        panic!("{}", e.message());
    }
}

#[test]
fn test_node_id_encoding() {
    let gen = IdGenerator::new(ConfigPreset::ShortEpochMaxNodes, DEFAULT_EPOCH);
    let max_nodes = gen.max_nodes() as u16;
    let test_node_ids = [0, 1, 2, 3, 4, 5, 6, max_nodes / 2, max_nodes - 1];

    for &node_id in &test_node_ids {
        let id = gen.next_id(node_id).unwrap();
        let decoded = gen.decode_id(id);
        assert_eq!(
            decoded.node_id, node_id as u64,
            "Node ID did not match for node_id {}",
            node_id
        );
    }
}

#[test]
fn test_sharding_functionality() {
    let gen = IdGenerator::new(ConfigPreset::ShardedConfig, DEFAULT_EPOCH);

    let original_id = gen.next_id(1).unwrap();
    let original_decoded = gen.decode_id(original_id);
    println!(
        "Original ID: {}, node_id: {}",
        original_id, original_decoded.node_id
    );

    for shard in 0..32 {
        let sharded_id = gen.derive_sharded_id(original_id, shard).unwrap();
        let decoded = gen.decode_id(sharded_id);

        println!(
            "Shard {}: ID: {}, node_id: {}",
            shard, sharded_id, decoded.node_id
        );

        assert_eq!(
            decoded.time, original_decoded.time,
            "Time component changed after sharding"
        );
        assert_eq!(
            decoded.node_id, original_decoded.node_id,
            "Node ID changed after sharding"
        );
        assert_eq!(
            decoded.incrementing_id, original_decoded.incrementing_id,
            "Increment changed"
        );
        assert_eq!(
            decoded.config_id, 1,
            "Config ID should be 1 for sharded config"
        );
        assert_eq!(decoded.shard_id, shard, "Shard ID not correctly set");
    }
}

#[test]
fn clock_before_epoch_is_an_error() {
    let gen = IdGenerator::new(ConfigPreset::ShortEpochMaxNodes, u64::MAX);
    assert_eq!(gen.next_id(1), Err(IdError::ClockBeforeEpoch));
    assert_eq!(gen.generate_id(1, 0), Err(IdError::ClockBeforeEpoch));
    assert_eq!(
        gen.generate_id_at(u64::MAX - 1, 1, 0),
        Err(IdError::ClockBeforeEpoch)
    );
}

#[test]
fn minting_at_the_epoch_itself_succeeds() {
    let gen = IdGenerator::new(ConfigPreset::ShortEpochMaxNodes, DEFAULT_EPOCH);
    // time 0, node 0, sequence 0: only the tag is left
    assert_eq!(gen.generate_id_at(DEFAULT_EPOCH, 0, 0), Ok(3));
    assert_eq!(
        gen.generate_id_at(DEFAULT_EPOCH - 1, 0, 0),
        Err(IdError::ClockBeforeEpoch)
    );
}

#[test]
fn minting_packs_each_field_at_its_place() {
    let short = IdGenerator::new(ConfigPreset::ShortEpochMaxNodes, DEFAULT_EPOCH);
    // tag 3, sequence 5 at bit 3, node 7 at bit 13, time 9 at bit 27
    let expected = 3 + (5u64 << 3) + (7u64 << 13) + (9u64 << 27);
    assert_eq!(expected, 1_208_016_939);
    assert_eq!(short.generate_id_at(DEFAULT_EPOCH + 9, 7, 5), Ok(expected));

    let sharded = IdGenerator::new(ConfigPreset::ShardedConfig, DEFAULT_EPOCH);
    // tag 1, sequence 5 at bit 3, shard 0 at bit 13, node 7 at bit 18, time 9 at bit 32
    let expected = 1 + (5u64 << 3) + (7u64 << 18) + (9u64 << 32);
    assert_eq!(expected, 38_656_540_713);
    assert_eq!(
        sharded.generate_id_at(DEFAULT_EPOCH + 9, 7, 5),
        Ok(expected)
    );
}

#[test]
fn minting_cuts_each_value_to_its_field() {
    let gen = IdGenerator::new(ConfigPreset::ShortEpochMaxNodes, 0);
    // node 16384 + 5 is cut to 14 bits, sequence 1024 + 6 to 10 bits,
    // time 2^37 + 2 to 37 bits
    let id = gen
        .generate_id_at((1u64 << 37) + 2, 16384 + 5, 1024 + 6)
        .unwrap();
    let decoded = gen.decode_id(id);
    assert_eq!(decoded.time, 2);
    assert_eq!(decoded.node_id, 5);
    assert_eq!(decoded.incrementing_id, 6);
    assert_eq!(decoded.shard_id, 0);
    assert_eq!(decoded.config_id, 3);
    assert_eq!(id, 3 + (6u64 << 3) + (5u64 << 13) + (2u64 << 27));
}

#[test]
fn decoding_reads_each_field_from_its_place() {
    let sharded = IdGenerator::new(ConfigPreset::ShardedConfig, DEFAULT_EPOCH);
    let id = 1 + (1023u64 << 3) + (31u64 << 13) + (16383u64 << 18) + (u32::MAX as u64) * (1 << 32);
    assert_eq!(id, u64::MAX - 6);
    let decoded = sharded.decode_id(id);
    assert_eq!(decoded.config_id, 1);
    assert_eq!(decoded.incrementing_id, 1023);
    assert_eq!(decoded.shard_id, 31);
    assert_eq!(decoded.node_id, 16383);
    assert_eq!(decoded.time, u32::MAX as u64);

    let short = IdGenerator::new(ConfigPreset::ShortEpochMaxNodes, DEFAULT_EPOCH);
    let decoded = short.decode_id(1_208_016_939);
    assert_eq!(decoded.config_id, 3);
    assert_eq!(decoded.incrementing_id, 5);
    assert_eq!(decoded.shard_id, 0);
    assert_eq!(decoded.node_id, 7);
    assert_eq!(decoded.time, 9);
}

#[test]
fn decoding_a_minted_identifier_gives_node_and_tag_back_under_every_preset() {
    let presets = [
        ConfigPreset::ShortEpochMaxNodes,
        ConfigPreset::ShardedConfig,
        ConfigPreset::Custom(DEFAULT_EPOCH, 36, 13, 2, 1),
    ];
    let tags = [3u8, 1, 1];
    for (preset, tag) in presets.into_iter().zip(tags) {
        let gen = IdGenerator::new(preset, DEFAULT_EPOCH);
        for node in [0u16, 1, 4095, 8191] {
            let id = gen.next_id(node).unwrap();
            let decoded = gen.decode_id(id);
            assert_eq!(decoded.node_id, node as u64);
            assert_eq!(decoded.config_id, tag);
            assert_eq!(decoded.shard_id, 0);
        }
    }
}

#[test]
fn minting_again_what_was_decoded_gives_the_identifier_back() {
    for preset in [
        ConfigPreset::ShortEpochMaxNodes,
        ConfigPreset::ShardedConfig,
    ] {
        let gen = IdGenerator::new(preset, DEFAULT_EPOCH);
        let id = gen.next_id(77).unwrap();
        let decoded = gen.decode_id(id);
        let again = gen
            .generate_id_at(
                DEFAULT_EPOCH + decoded.time,
                decoded.node_id as u16,
                decoded.incrementing_id as u16,
            )
            .unwrap();
        assert_eq!(again, id);
    }
}

#[test]
fn sequence_counts_up_to_1023_and_wraps_to_zero() {
    let gen = IdGenerator::new(ConfigPreset::ShortEpochMaxNodes, DEFAULT_EPOCH);
    for expected in 0..1024u64 {
        let id = gen.next_id(9).unwrap();
        assert_eq!(gen.decode_id(id).incrementing_id, expected);
    }
    let id = gen.next_id(9).unwrap();
    assert_eq!(gen.decode_id(id).incrementing_id, 0);
    let id = gen.next_id(9).unwrap();
    assert_eq!(gen.decode_id(id).incrementing_id, 1);
}

#[test]
fn sequence_is_shared_across_nodes_of_one_generator() {
    let gen = IdGenerator::new(ConfigPreset::ShardedConfig, DEFAULT_EPOCH);
    let first = gen.next_id(1).unwrap();
    let second = gen.next_id(2).unwrap();
    assert_eq!(gen.decode_id(first).incrementing_id, 0);
    assert_eq!(gen.decode_id(second).incrementing_id, 1);
}

#[test]
fn next_id_reads_the_present_time() {
    let before = SystemTime::now()
        .duration_since(UNIX_EPOCH)
        .unwrap()
        .as_millis() as u64;
    let epoch = before - 1000;
    let gen = IdGenerator::new(ConfigPreset::ShortEpochMaxNodes, epoch);
    let id = gen.next_id(1).unwrap();
    let after = SystemTime::now()
        .duration_since(UNIX_EPOCH)
        .unwrap()
        .as_millis() as u64;
    let time = gen.decode_id(id).time;
    assert!(1000 <= time);
    assert!(time <= after - epoch);
}

#[test]
fn sharding_is_refused_without_a_shard_field() {
    let gen = IdGenerator::new(ConfigPreset::ShortEpochMaxNodes, DEFAULT_EPOCH);
    assert_eq!(
        gen.derive_sharded_id(1_208_016_939, 0),
        Err(IdError::ShardingUnsupported)
    );
    assert_eq!(
        gen.derive_sharded_id(1_208_016_939, 40),
        Err(IdError::ShardingUnsupported)
    );
}

#[test]
fn shard_beyond_the_field_is_refused() {
    let gen = IdGenerator::new(ConfigPreset::ShardedConfig, DEFAULT_EPOCH);
    assert!(gen.derive_sharded_id(38_656_540_713, 31).is_ok());
    assert_eq!(
        gen.derive_sharded_id(38_656_540_713, 32),
        Err(IdError::ShardOutOfRange)
    );
    assert_eq!(
        gen.derive_sharded_id(38_656_540_713, u16::MAX),
        Err(IdError::ShardOutOfRange)
    );
    let narrow = IdGenerator::new(ConfigPreset::Custom(0, 36, 13, 2, 1), 0);
    assert!(narrow.derive_sharded_id(0, 3).is_ok());
    assert_eq!(narrow.derive_sharded_id(0, 4), Err(IdError::ShardOutOfRange));
}

#[test]
fn sharding_writes_the_shard_field_only() {
    let gen = IdGenerator::new(ConfigPreset::ShardedConfig, DEFAULT_EPOCH);
    let id = 38_656_540_713u64;
    assert_eq!(gen.derive_sharded_id(id, 0), Ok(id));
    assert_eq!(gen.derive_sharded_id(id, 1), Ok(id + 8192));
    assert_eq!(gen.derive_sharded_id(id, 31), Ok(id + 31 * 8192));
    // every bit set: writing shard 0 clears bits 13 to 17 and nothing else
    assert_eq!(
        gen.derive_sharded_id(u64::MAX, 0),
        Ok(u64::MAX - 31 * 8192)
    );
    assert_eq!(gen.derive_sharded_id(u64::MAX, 31), Ok(u64::MAX));
}

#[test]
fn sharding_twice_keeps_only_the_second_shard() {
    let gen = IdGenerator::new(ConfigPreset::ShardedConfig, DEFAULT_EPOCH);
    let original = gen.next_id(300).unwrap();
    let before = gen.decode_id(original);
    for first in [0u16, 7, 31] {
        for second in [0u16, 12, 31] {
            let once = gen.derive_sharded_id(original, first).unwrap();
            let twice = gen.derive_sharded_id(once, second).unwrap();
            assert_eq!(twice, gen.derive_sharded_id(original, second).unwrap());
            let after = gen.decode_id(twice);
            assert_eq!(after.shard_id, second);
            assert_eq!(after.time, before.time);
            assert_eq!(after.node_id, before.node_id);
            assert_eq!(after.incrementing_id, before.incrementing_id);
            assert_eq!(after.config_id, before.config_id);
        }
    }
}

#[test]
fn identifiers_grow_with_time_and_then_with_sequence() {
    let gen = IdGenerator::new(ConfigPreset::ShortEpochMaxNodes, DEFAULT_EPOCH);
    let early_high_sequence = gen.generate_id_at(DEFAULT_EPOCH + 10, 5, 1023).unwrap();
    let late_low_sequence = gen.generate_id_at(DEFAULT_EPOCH + 11, 5, 0).unwrap();
    assert!(early_high_sequence < late_low_sequence);
    let same_time_next = gen.generate_id_at(DEFAULT_EPOCH + 11, 5, 1).unwrap();
    assert!(late_low_sequence < same_time_next);
}

#[test]
fn custom_layout_brings_its_own_epoch() {
    let gen = IdGenerator::new(ConfigPreset::Custom(1000, 36, 13, 2, 1), 5000);
    assert_eq!(gen.epoch(), 1000);
    assert_eq!(gen.generate_id_at(999, 0, 0), Err(IdError::ClockBeforeEpoch));
    // time 1 at bit 13 + 2 + 13, tag 1
    assert_eq!(gen.generate_id_at(1001, 0, 0), Ok((1u64 << 28) + 1));
}

#[test]
fn layouts_without_some_field_are_served() {
    // no time field and no node field: every id is sequence and tag
    let bare = IdGenerator::new(ConfigPreset::Custom(0, 0, 0, 0, 5), 0);
    assert_eq!(bare.max_nodes(), 1);
    assert_eq!(bare.generate_id_at(123_456, 77, 3), Ok(5 + (3 << 3)));
    let decoded = bare.decode_id(u64::MAX);
    assert_eq!(decoded.time, 0);
    assert_eq!(decoded.node_id, 0);
    assert_eq!(decoded.shard_id, 0);
    assert_eq!(decoded.incrementing_id, 1023);
    assert_eq!(decoded.config_id, 7);

    // the shard field takes all that is left: 51 bits
    let wide = IdGenerator::new(ConfigPreset::Custom(0, 0, 0, 51, 0), 0);
    assert_eq!(wide.derive_sharded_id(0, u16::MAX), Ok(65535u64 << 13));
    assert_eq!(wide.decode_id(65535u64 << 13).shard_id, u16::MAX);
    // of a wider shard the low 16 bits are handed out
    assert_eq!(wide.decode_id(0x1_0005u64 << 13).shard_id, 5);
}

#[test]
fn try_new_refuses_a_layout_that_does_not_fit() {
    assert!(IdGenerator::try_new(ConfigPreset::ShortEpochMaxNodes, DEFAULT_EPOCH).is_ok());
    assert!(IdGenerator::try_new(ConfigPreset::ShardedConfig, DEFAULT_EPOCH).is_ok());
    assert!(IdGenerator::try_new(ConfigPreset::Custom(0, 36, 13, 2, 7), 0).is_ok());
    // 65 bits
    let too_wide = IdGenerator::try_new(ConfigPreset::Custom(0, 37, 13, 2, 1), 0);
    assert_eq!(too_wide.err(), Some(IdError::InvalidLayout));
    // widths whose sum does not even fit 8 bits
    let far_too_wide = IdGenerator::try_new(ConfigPreset::Custom(0, 255, 255, 255, 1), 0);
    assert_eq!(far_too_wide.err(), Some(IdError::InvalidLayout));
    // tag of four bits
    let wide_tag = IdGenerator::try_new(ConfigPreset::Custom(0, 36, 13, 2, 8), 0);
    assert_eq!(wide_tag.err(), Some(IdError::InvalidLayout));
}

#[test]
fn presets_are_told_valid_or_not() {
    assert!(ConfigPreset::ShortEpochMaxNodes.is_valid());
    assert!(ConfigPreset::ShardedConfig.is_valid());
    assert!(ConfigPreset::Custom(0, 51, 0, 0, 0).is_valid());
    assert!(!ConfigPreset::Custom(0, 52, 0, 0, 0).is_valid());
    assert!(!ConfigPreset::Custom(0, 10, 10, 10, 8).is_valid());
}

#[test]
fn errors_describe_themselves() {
    assert_eq!(IdError::ClockBeforeEpoch.message(), "Time went backwards");
    assert_eq!(
        IdError::ShardingUnsupported.message(),
        "This configuration doesn't support sharding"
    );
    assert_eq!(
        IdError::ShardOutOfRange.message(),
        "Shard number exceeds maximum"
    );
    assert_eq!(
        IdError::InvalidLayout.message(),
        "Invalid identifier layout"
    );
}
