use hash::constants::{PRIME_DIFFUSE, PRIME_MIX};
use hash::engine::HashEngine;
use hash::helper::{load_stripe, load_u32, load_u64, rotate_left_simd, round, round_simd};

fn digest_of(seed: u64, data: &[u8]) -> u64 {
    let mut engine = HashEngine::new(seed);
    engine.absorb(data);
    engine.digest()
}

#[test]
fn determinism_fixed_sequence() {
    let data: Vec<u8> = (0u16..200).map(|i| (i % 251) as u8).collect();
    let first = digest_of(0x1234_5678_9abc_def0, &data);
    let second = digest_of(0x1234_5678_9abc_def0, &data);
    assert_eq!(first, second);

    // The same bytes absorbed in several calls give the same digest again.
    let mut engine = HashEngine::new(0x1234_5678_9abc_def0);
    engine.absorb(&data[..57]);
    engine.absorb(&data[57..57]);
    engine.absorb(&data[57..]);
    assert_eq!(engine.digest(), first);
}

#[test]
fn chunk_invariance_all_boundaries() {
    for &len in &[0usize, 1, 31, 32, 33, 64, 65] {
        let data: Vec<u8> = (0..len).map(|i| (i * 37 + 11) as u8).collect();
        let whole = digest_of(42, &data);
        for cut in 0..=len {
            let mut engine = HashEngine::new(42);
            engine.absorb(&data[..cut]);
            engine.absorb(&data[cut..]);
            assert_eq!(engine.digest(), whole, "len {} cut {}", len, cut);
        }
    }
}

#[test]
fn chunk_invariance_three_way_splits() {
    let data: Vec<u8> = (0..65u32).map(|i| (i * 101 + 7) as u8).collect();
    let whole = digest_of(7, &data);
    for first in 0..=data.len() {
        for second in first..=data.len() {
            let mut engine = HashEngine::new(7);
            engine.absorb(&data[..first]);
            engine.absorb(&data[first..second]);
            engine.absorb(&data[second..]);
            assert_eq!(engine.digest(), whole);
        }
    }
}

#[test]
fn absorb_abc_equals_ab_then_c() {
    let seed = 0x5eed_5eed_5eed_5eed;
    let mut one = HashEngine::new(seed);
    one.absorb(b"abc");
    let mut two = HashEngine::new(seed);
    two.absorb(b"ab");
    two.absorb(b"c");
    assert_eq!(one.digest(), two.digest());
}

#[test]
fn small_inputs_complete() {
    // All of these stay below one full stripe: the unmixed regime.
    for &len in &[0usize, 1, 8, 16, 31] {
        let data: Vec<u8> = (0..len).map(|i| i as u8).collect();
        let digest = digest_of(99, &data);
        assert_eq!(digest, digest_of(99, &data), "len {}", len);
    }
}

#[test]
fn small_inputs_distinct_lengths_diverge() {
    // Length whitening: equal-prefix inputs of different lengths differ.
    let digests: Vec<u64> = [0usize, 1, 8, 16, 31]
        .iter()
        .map(|&len| digest_of(0, &vec![0u8; len]))
        .collect();
    for i in 0..digests.len() {
        for j in i + 1..digests.len() {
            assert_ne!(digests[i], digests[j]);
        }
    }
}

#[test]
fn digest_is_read_only() {
    let mut engine = HashEngine::default();
    engine.absorb(b"incremental");
    let first = engine.digest();
    assert_eq!(engine.digest(), first);
    engine.absorb(b" and more");
    let second = engine.digest();
    assert_ne!(first, second);
    assert_eq!(engine.digest(), second);
}

#[test]
fn default_seed_engine_matches_explicit_base() {
    let mut by_default = HashEngine::default();
    by_default.absorb(b"same bytes");
    let mut explicit = HashEngine::new(hash::constants::BASE);
    explicit.absorb(b"same bytes");
    assert_eq!(by_default.digest(), explicit.digest());
}

#[test]
fn round_matches_documented_formula() {
    let acc = 0x0123_4567_89ab_cdefu64;
    let word = 0xfedc_ba98_7654_3210u64;
    let expected = acc
        .wrapping_add(word.wrapping_mul(PRIME_MIX))
        .rotate_left(31)
        .wrapping_mul(PRIME_DIFFUSE);
    assert_eq!(round(acc, word), expected);
}

#[test]
fn load_words_little_endian() {
    let bytes = [0x01u8, 0x02, 0x03, 0x04, 0x05, 0x06, 0x07, 0x08];
    assert_eq!(load_u64(&bytes), u64::from_le_bytes(bytes));
    assert_eq!(load_u64(&bytes), 0x0807_0605_0403_0201);
    assert_eq!(load_u32(&bytes[..4]), 0x0403_0201);
}

#[test]
fn four_lane_operations_match_scalar() {
    let acc = [1u64, u64::MAX, 0xdead_beef, 42];
    let input = [9u64, 8, u64::MAX, 0];
    let rotated = rotate_left_simd(acc, 31);
    for lane in 0..4 {
        assert_eq!(rotated[lane], acc[lane].rotate_left(31));
    }
    let mixed = round_simd(acc, input);
    for lane in 0..4 {
        assert_eq!(mixed[lane], round(acc[lane], input[lane]));
    }
}

#[test]
fn load_stripe_splits_lanes() {
    let mut stripe = [0u8; 32];
    for (i, byte) in stripe.iter_mut().enumerate() {
        *byte = i as u8;
    }
    let words = load_stripe(&stripe);
    for lane in 0..4 {
        let mut eight = [0u8; 8];
        eight.copy_from_slice(&stripe[8 * lane..8 * lane + 8]);
        assert_eq!(words[lane], u64::from_le_bytes(eight));
    }
}

#[test]
fn hash_of_bytes_matches_streaming_engine() {
    let data: Vec<u8> = b"one call against the incremental interface".to_vec();
    let mut engine = HashEngine::default();
    engine.absorb(&data);
    assert_eq!(hash::hash(&data), engine.digest());
}

#[test]
fn hash_of_u64_matches_its_encoding() {
    let value = 0x1122_3344_5566_7788u64;
    let encoded = value.to_le_bytes().to_vec();
    assert_eq!(hash::hash(&value), hash::hash(&encoded));
}

#[test]
fn hash_of_u32_and_u8_match_their_encodings() {
    let value = 0xa1b2_c3d4u32;
    assert_eq!(hash::hash(&value), hash::hash(&value.to_le_bytes().to_vec()));
    let byte = 0x5au8;
    assert_eq!(hash::hash(&byte), hash::hash(&vec![0x5au8]));
}
