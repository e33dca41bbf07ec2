//! Laws of the hash, proved once and for all over the model that the
//! engine's contracts speak of.

use vstd::prelude::*;
use crate::constants::PRIME_TAIL;
use crate::engine::HashEngine;
use crate::model::{avalanche, fold_tail, hash_of, tail_of, wadd};

verus! {

/// Determinism: the digest is a function of the seed and the absorbed byte
/// stream alone. Two well-formed engines given the same seed that have
/// absorbed the same bytes always produce the same digest.
pub proof fn lemma_digest_deterministic(left: HashEngine, right: HashEngine)
    requires
        left.wf(),
        right.wf(),
        left.seed() == right.seed(),
        left.stream() == right.stream(),
    ensures
        hash_of(left.seed(), left.stream()) == hash_of(right.seed(), right.stream()),
{
}

/// Chunk invariance: absorbing `first` and then `second` leaves an engine
/// with the same absorbed stream as absorbing `first + second` in one call,
/// so by `absorb`'s and `digest`'s contracts the final digest is the same
/// for every way of splitting a byte sequence into consecutive calls.
pub proof fn lemma_chunk_invariance(seed: u64, stream: Seq<u8>, first: Seq<u8>, second: Seq<u8>)
    ensures
        hash_of(seed, (stream + first) + second) == hash_of(seed, stream + (first + second)),
{
    assert((stream + first) + second =~= stream + (first + second));
}

/// Small-input regime: below one full stripe the lanes never absorbed any
/// data, and the digest reads only the seed itself, the total length, and
/// the staged bytes; the lane-fold of the mixed regime is never consulted.
pub proof fn lemma_unmixed_regime(seed: u64, data: Seq<u8>)
    requires
        data.len() < 32,
    ensures
        hash_of(seed, data) == avalanche(
            fold_tail(wadd(wadd(seed, PRIME_TAIL), data.len() as u64), data),
        ),
{
    assert(tail_of(data) =~= data);
}

} // verus!
