//! Executable mixing primitives: the scalar round function, little-endian
//! word loads, and the four-lane operations that one stripe pass is built
//! from. The four-lane functions are proved bit-identical to four independent
//! scalar operations, so a vectorized evaluation and a scalar loop agree.

use vstd::prelude::*;
use vstd::bytes::{spec_u32_from_le_bytes, spec_u64_from_le_bytes, u32_from_le_bytes, u64_from_le_bytes};
use vstd::slice::slice_subrange;
use crate::constants::{PRIME_DIFFUSE, PRIME_MIX};
use crate::model::{combine, rotl, stripe_words};

verus! {

/// Left-rotates a 64-bit word by `n` bit positions.
pub(crate) fn rotl64(x: u64, n: u64) -> (r: u64)
    requires
        1 <= n <= 63,
    ensures
        r == rotl(x, n),
{
    (x << n) | (x >> (64 - n))
}

/// The scalar mixing round: one accumulator absorbs one input word.
pub fn round(accumulator: u64, input: u64) -> (r: u64)
    ensures
        r == combine(accumulator, input),
{
    let acc = accumulator.wrapping_add(input.wrapping_mul(PRIME_MIX));
    rotl64(acc, 31).wrapping_mul(PRIME_DIFFUSE)
}

/// Reads one little-endian 64-bit word.
pub fn load_u64(bytes: &[u8]) -> (r: u64)
    requires
        bytes@.len() == 8,
    ensures
        r == spec_u64_from_le_bytes(bytes@),
{
    u64_from_le_bytes(bytes)
}

/// Reads one little-endian 32-bit word.
pub fn load_u32(bytes: &[u8]) -> (r: u32)
    requires
        bytes@.len() == 4,
    ensures
        r == spec_u32_from_le_bytes(bytes@),
{
    u32_from_le_bytes(bytes)
}

/// Rotates all four lanes left by the same amount, lane by lane.
pub fn rotate_left_simd(acc: [u64; 4], shift: u32) -> (r: [u64; 4])
    requires
        1 <= shift <= 63,
    ensures
        forall|i: int| 0 <= i < 4 ==> r@[i] == rotl(acc@[i], shift as u64),
{
    let n = shift as u64;
    [rotl64(acc[0], n), rotl64(acc[1], n), rotl64(acc[2], n), rotl64(acc[3], n)]
}

/// One mixing round across all four lanes: each lane independently absorbs
/// its own input word, exactly as four scalar `round` calls would.
pub fn round_simd(acc: [u64; 4], input: [u64; 4]) -> (r: [u64; 4])
    ensures
        forall|i: int| 0 <= i < 4 ==> r@[i] == combine(acc@[i], input@[i]),
{
    let mixed = [
        acc[0].wrapping_add(input[0].wrapping_mul(PRIME_MIX)),
        acc[1].wrapping_add(input[1].wrapping_mul(PRIME_MIX)),
        acc[2].wrapping_add(input[2].wrapping_mul(PRIME_MIX)),
        acc[3].wrapping_add(input[3].wrapping_mul(PRIME_MIX)),
    ];
    let rotated = rotate_left_simd(mixed, 31);
    [
        rotated[0].wrapping_mul(PRIME_DIFFUSE),
        rotated[1].wrapping_mul(PRIME_DIFFUSE),
        rotated[2].wrapping_mul(PRIME_DIFFUSE),
        rotated[3].wrapping_mul(PRIME_DIFFUSE),
    ]
}

/// Splits one 32-byte stripe into its four little-endian lane words; lane `i`
/// maps to byte offset `8 * i`.
pub fn load_stripe(bytes: &[u8]) -> (r: [u64; 4])
    requires
        bytes@.len() == 32,
    ensures
        r@ == stripe_words(bytes@),
{
    let r = [
        load_u64(slice_subrange(bytes, 0, 8)),
        load_u64(slice_subrange(bytes, 8, 16)),
        load_u64(slice_subrange(bytes, 16, 24)),
        load_u64(slice_subrange(bytes, 24, 32)),
    ];
    proof {
        assert(r@ =~= stripe_words(bytes@));
    }
    r
}

} // verus!
