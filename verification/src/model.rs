//! The mathematical model of the hash: every step of absorption and
//! finalization as a spec function over byte and word sequences. The digest of
//! a byte stream under a seed is `hash_of`, and the executable engine is
//! verified against it.

use vstd::prelude::*;
use vstd::arithmetic::div_mod::{
    lemma_fundamental_div_mod, lemma_fundamental_div_mod_converse, lemma_mod_bound,
};
use vstd::bytes::{spec_u32_from_le_bytes, spec_u64_from_le_bytes};
use vstd::wrapping::u64_specs;
use crate::constants::{PRIME_DIFFUSE, PRIME_FINAL, PRIME_LANE, PRIME_MIX, PRIME_TAIL};

verus! {

/// Addition modulo 2^64.
pub open spec fn wadd(a: u64, b: u64) -> u64 {
    u64_specs::wrapping_add(a, b)
}

/// Multiplication modulo 2^64.
pub open spec fn wmul(a: u64, b: u64) -> u64 {
    u64_specs::wrapping_mul(a, b)
}

/// Left rotation of a 64-bit word by `n` bit positions.
pub open spec fn rotl(x: u64, n: u64) -> u64
    recommends
        1 <= n <= 63,
{
    (x << n) | (x >> (64 - n) as u64)
}

/// The mixing primitive: an accumulator absorbs one 64-bit word.
pub open spec fn combine(acc: u64, word: u64) -> u64 {
    wmul(rotl(wadd(acc, wmul(word, PRIME_MIX)), 31), PRIME_DIFFUSE)
}

/// The four seed-derived initial lane values. Each lane gets a distinct
/// offset so identical seeds never collapse into identical lanes.
pub open spec fn init_lanes(seed: u64) -> Seq<u64> {
    seq![
        wadd(wadd(seed, PRIME_DIFFUSE), PRIME_MIX),
        wadd(seed, PRIME_MIX),
        seed,
        wadd(seed, PRIME_DIFFUSE),
    ]
}

/// The four little-endian 64-bit lane words of one 32-byte stripe.
pub open spec fn stripe_words(stripe: Seq<u8>) -> Seq<u64>
    recommends
        stripe.len() == 32,
{
    seq![
        spec_u64_from_le_bytes(stripe.subrange(0, 8)),
        spec_u64_from_le_bytes(stripe.subrange(8, 16)),
        spec_u64_from_le_bytes(stripe.subrange(16, 24)),
        spec_u64_from_le_bytes(stripe.subrange(24, 32)),
    ]
}

/// One mixing pass: each lane independently absorbs its own stripe word.
pub open spec fn mix_stripe(lanes: Seq<u64>, stripe: Seq<u8>) -> Seq<u64>
    recommends
        lanes.len() == 4,
        stripe.len() == 32,
{
    let words = stripe_words(stripe);
    seq![
        combine(lanes[0], words[0]),
        combine(lanes[1], words[1]),
        combine(lanes[2], words[2]),
        combine(lanes[3], words[3]),
    ]
}

/// Lane state after greedily absorbing every full 32-byte stripe of `data`;
/// the trailing partial stripe contributes nothing here.
pub open spec fn lanes_from(lanes: Seq<u64>, data: Seq<u8>) -> Seq<u64>
    decreases data.len(),
{
    if data.len() < 32 {
        lanes
    } else {
        lanes_from(mix_stripe(lanes, data.take(32)), data.skip(32))
    }
}

/// The 0-31 trailing bytes of `data` that do not form a full stripe.
pub open spec fn tail_of(data: Seq<u8>) -> Seq<u8> {
    data.skip(data.len() as int - (data.len() % 32) as int)
}

/// Working state seeded from the four lanes in the mixed regime: distinct
/// rotations are summed, then every lane is folded in sequentially.
pub open spec fn merge_lanes(lanes: Seq<u64>) -> u64
    recommends
        lanes.len() == 4,
{
    let s = wadd(
        wadd(wadd(rotl(lanes[0], 1), rotl(lanes[1], 7)), rotl(lanes[2], 12)),
        rotl(lanes[3], 18),
    );
    let s = wadd(wmul(s ^ combine(0, lanes[0]), PRIME_DIFFUSE), PRIME_FINAL);
    let s = wadd(wmul(s ^ combine(0, lanes[1]), PRIME_DIFFUSE), PRIME_FINAL);
    let s = wadd(wmul(s ^ combine(0, lanes[2]), PRIME_DIFFUSE), PRIME_FINAL);
    wadd(wmul(s ^ combine(0, lanes[3]), PRIME_DIFFUSE), PRIME_FINAL)
}

/// One 8-byte tail step.
pub open spec fn tail_step8(state: u64, word: u64) -> u64 {
    wadd(wmul(rotl(state ^ combine(0, word), 27), PRIME_DIFFUSE), PRIME_FINAL)
}

/// One 4-byte tail step; the word is widened to 64 bits.
pub open spec fn tail_step4(state: u64, word: u32) -> u64 {
    wadd(wmul(rotl(state ^ wmul(word as u64, PRIME_DIFFUSE), 23), PRIME_MIX), PRIME_LANE)
}

/// One single-byte tail step.
pub open spec fn tail_step1(state: u64, byte: u8) -> u64 {
    wmul(rotl(state ^ wmul(byte as u64, PRIME_TAIL), 11), PRIME_DIFFUSE)
}

/// Folds a partial stripe into the working state in decreasing granularity:
/// 8-byte words, then one 4-byte word, then single bytes, each granularity
/// with its own rotation amount and multiplier pair.
pub open spec fn fold_tail(state: u64, tail: Seq<u8>) -> u64
    decreases tail.len(),
{
    if tail.len() >= 8 {
        fold_tail(tail_step8(state, spec_u64_from_le_bytes(tail.take(8))), tail.skip(8))
    } else if tail.len() >= 4 {
        fold_tail(tail_step4(state, spec_u32_from_le_bytes(tail.take(4))), tail.skip(4))
    } else if tail.len() >= 1 {
        fold_tail(tail_step1(state, tail[0]), tail.skip(1))
    } else {
        state
    }
}

/// The final avalanche cascade: three xor-shift/multiply stages that
/// decorrelate the output bits.
pub open spec fn avalanche(state: u64) -> u64 {
    let a = state ^ (state >> 33);
    let b = wmul(a, PRIME_MIX);
    let c = b ^ (b >> 29);
    let d = wmul(c, PRIME_LANE);
    d ^ (d >> 32)
}

/// The digest of the byte stream `data` under `seed`: the lane state after
/// all full stripes is merged (or, below one stripe, a seed lane plus a
/// dedicated offset), whitened by the total length, folded with the tail
/// bytes, and sent through the avalanche cascade.
pub open spec fn hash_of(seed: u64, data: Seq<u8>) -> u64 {
    let lanes = lanes_from(init_lanes(seed), data);
    let state = if data.len() >= 32 {
        merge_lanes(lanes)
    } else {
        wadd(lanes[2], PRIME_TAIL)
    };
    avalanche(fold_tail(wadd(state, data.len() as u64), tail_of(data)))
}

/// Absorbing the full stripes of `data` is the same as absorbing those of a
/// stripe-aligned prefix and then those of the rest.
pub proof fn lemma_lanes_from_split(lanes: Seq<u64>, data: Seq<u8>, k: int)
    requires
        0 <= k <= data.len(),
        k % 32 == 0,
    ensures
        lanes_from(lanes, data) == lanes_from(lanes_from(lanes, data.take(k)), data.skip(k)),
    decreases k,
{
    if k == 0 {
        assert(data.take(0) =~= Seq::<u8>::empty());
        assert(data.skip(0) =~= data);
    } else {
        let mixed = mix_stripe(lanes, data.take(32));
        lemma_lanes_from_split(mixed, data.skip(32), k - 32);
        assert(data.skip(32).take(k - 32) =~= data.take(k).skip(32));
        assert(data.skip(32).skip(k - 32) =~= data.skip(k));
        assert(data.take(k).take(32) =~= data.take(32));
    }
}

/// Appending `more` to an absorbed stream touches the lanes exactly through
/// the staged tail of the stream followed by the new bytes: the stripes that
/// were already mixed stay mixed, and only full stripes of `tail + more` can
/// change the lane state.
pub proof fn lemma_absorb_pending(seed: u64, stream: Seq<u8>, more: Seq<u8>)
    ensures
        lanes_from(init_lanes(seed), stream + more) == lanes_from(
            lanes_from(init_lanes(seed), stream),
            tail_of(stream) + more,
        ),
        (stream + more).skip(stream.len() as int - (stream.len() % 32) as int) == tail_of(stream)
            + more,
{
    let n = stream.len() as int;
    lemma_mod_bound(n, 32);
    let r = n % 32;
    lemma_fundamental_div_mod(n, 32);
    lemma_fundamental_div_mod_converse(n - r, 32, n / 32, 0);
    lemma_lanes_from_split(init_lanes(seed), stream + more, n - r);
    lemma_lanes_from_split(init_lanes(seed), stream, n - r);
    assert((stream + more).take(n - r) =~= stream.take(n - r));
    assert((stream + more).skip(n - r) =~= tail_of(stream) + more);
    assert(stream.skip(n - r) =~= tail_of(stream));
}

/// A stream grows by fewer bytes than the staging buffer has room for: the
/// remainder modulo one stripe grows by exactly that count.
pub proof fn lemma_mod32_small_growth(n: int, b: int)
    requires
        n >= 0,
        b >= 0,
        n % 32 + b < 32,
    ensures
        (n + b) % 32 == n % 32 + b,
{
    lemma_fundamental_div_mod(n, 32);
    lemma_fundamental_div_mod_converse(n + b, 32, n / 32, n % 32 + b);
}

/// After mixing everything up to an aligned offset, the bytes left over are
/// exactly the remainder of the grown stream modulo one stripe.
pub proof fn lemma_mod32_after_mixing(n: int, b: int, off: int)
    requires
        n >= 0,
        b >= 0,
        0 <= off <= b,
        (n % 32 + off) % 32 == 0,
        b - off < 32,
    ensures
        (n + b) % 32 == b - off,
{
    lemma_fundamental_div_mod(n, 32);
    lemma_fundamental_div_mod(n % 32 + off, 32);
    lemma_fundamental_div_mod_converse(n + b, 32, n / 32 + (n % 32 + off) / 32, b - off);
}

} // verus!
