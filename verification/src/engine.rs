//! The streaming hash engine: four 64-bit accumulator lanes, a 32-byte
//! staging buffer for the unprocessed tail of the input, and a running byte
//! count. Absorption mixes every full 32-byte stripe into the lanes as soon
//! as it is available and buffers the remainder; digest production is a pure
//! projection of the current state and never mutates it.

use vstd::prelude::*;
use vstd::slice::slice_subrange;
use crate::constants::{BASE, PRIME_DIFFUSE, PRIME_FINAL, PRIME_LANE, PRIME_MIX, PRIME_TAIL};
use crate::helper::{load_stripe, load_u32, load_u64, rotl64, round, round_simd};
use crate::model::{
    fold_tail, hash_of, init_lanes, lanes_from, lemma_absorb_pending, lemma_mod32_after_mixing,
    lemma_mod32_small_growth, merge_lanes, mix_stripe, tail_of,
};

verus! {

/// Copies `count` bytes of `bytes` starting at `from` into the staging area
/// beginning at `start`; every other staging byte keeps its value.
#[verifier::loop_isolation(false)]
fn copy_into_buffer(buffer: &mut [u8; 32], start: usize, bytes: &[u8], from: usize, count: usize)
    requires
        start + count <= 32,
        from + count <= bytes@.len(),
    ensures
        forall|i: int| 0 <= i < start ==> final(buffer)@[i] == old(buffer)@[i],
        forall|i: int| start <= i < start + count ==> final(buffer)@[i] == bytes@[from + i - start],
        forall|i: int| start + count <= i < 32 ==> final(buffer)@[i] == old(buffer)@[i],
{
    let total = bytes.len();
    let mut j: usize = 0;
    while j < count
        invariant
            j <= count,
            forall|i: int| 0 <= i < start ==> buffer@[i] == old(buffer)@[i],
            forall|i: int| start <= i < start + j ==> buffer@[i] == bytes@[from + i - start],
            forall|i: int| start + count <= i < 32 ==> buffer@[i] == old(buffer)@[i],
        decreases count - j,
    {
        buffer[start + j] = bytes[from + j];
        j = j + 1;
    }
}

/// Mixes every full 32-byte stripe of `bytes` at or after `from` into the
/// lanes, in order, and reports where the full stripes end: fewer than 32
/// bytes remain past the returned offset.
#[verifier::loop_isolation(false)]
fn mix_full_chunks(lanes: [u64; 4], bytes: &[u8], from: usize) -> (res: ([u64; 4], usize))
    requires
        from <= bytes@.len(),
    ensures
        from <= res.1 <= bytes@.len(),
        (res.1 - from) % 32 == 0,
        bytes@.len() - res.1 < 32,
        res.0@ == lanes_from(lanes@, bytes@.skip(from as int)),
    decreases bytes@.len() - from,
{
    let mut cur = lanes;
    let mut offset = from;
    while bytes.len() - offset >= 32
        invariant
            from <= offset <= bytes@.len(),
            (offset - from) % 32 == 0,
            lanes_from(cur@, bytes@.skip(offset as int)) == lanes_from(lanes@, bytes@.skip(from as int)),
        decreases bytes@.len() - offset,
    {
        let ghost before = cur@;
        let chunk = slice_subrange(bytes, offset, offset + 32);
        let input = load_stripe(chunk);
        cur = round_simd(cur, input);
        proof {
            let remdata = bytes@.skip(offset as int);
            assert(remdata.take(32) =~= bytes@.subrange(offset as int, offset as int + 32));
            assert(cur@ =~= mix_stripe(before, remdata.take(32)));
            assert(remdata.skip(32) =~= bytes@.skip(offset as int + 32));
            vstd::arithmetic::div_mod::lemma_mod_add_multiples_vanish(offset - from, 32);
        }
        offset = offset + 32;
    }
    proof {
        assert(lanes_from(cur@, bytes@.skip(offset as int)) == cur@);
    }
    (cur, offset)
}

/// Tops off a non-empty staging buffer with the leading bytes of `bytes`.
/// If that completes a full 32-byte stripe, the stripe is mixed into the
/// lanes and the buffer emptied; otherwise the new bytes are merely staged.
/// Returns the new lanes, the new staging length, and the count consumed.
#[verifier::loop_isolation(false)]
fn top_off(lanes: [u64; 4], buffer: &mut [u8; 32], buffer_len: usize, bytes: &[u8]) -> (res: (
    [u64; 4],
    usize,
    usize,
))
    requires
        0 < buffer_len < 32,
    ensures
        buffer_len + bytes@.len() < 32 ==> {
            &&& res.0@ == lanes@
            &&& res.1 == buffer_len + bytes@.len()
            &&& res.2 == bytes@.len()
            &&& final(buffer)@.take(res.1 as int) == old(buffer)@.take(buffer_len as int) + bytes@
        },
        buffer_len + bytes@.len() >= 32 ==> {
            &&& res.0@ == mix_stripe(
                lanes@,
                old(buffer)@.take(buffer_len as int) + bytes@.take(32 - buffer_len as int),
            )
            &&& res.1 == 0
            &&& res.2 == 32 - buffer_len
        },
{
    let remaining = 32 - buffer_len;
    let take_n = if remaining < bytes.len() {
        remaining
    } else {
        bytes.len()
    };
    copy_into_buffer(buffer, buffer_len, bytes, 0, take_n);
    if buffer_len + take_n < 32 {
        proof {
            assert(buffer@.take((buffer_len + take_n) as int) =~= old(buffer)@.take(
                buffer_len as int,
            ) + bytes@);
        }
        (lanes, buffer_len + take_n, take_n)
    } else {
        let input = load_stripe(slice_subrange(buffer.as_slice(), 0, 32));
        let mixed = round_simd(lanes, input);
        proof {
            assert(buffer@.subrange(0, 32) =~= old(buffer)@.take(buffer_len as int)
                + bytes@.take(32 - buffer_len as int));
            assert(mixed@ =~= mix_stripe(
                lanes@,
                old(buffer)@.take(buffer_len as int) + bytes@.take(32 - buffer_len as int),
            ));
        }
        (mixed, 0, take_n)
    }
}

/// Stages the trailing partial chunk of `bytes`, from `from` on, at the
/// start of the staging buffer.
#[verifier::loop_isolation(false)]
fn stage_remainder(buffer: &mut [u8; 32], bytes: &[u8], from: usize) -> (staged: usize)
    requires
        from <= bytes@.len(),
        bytes@.len() - from < 32,
    ensures
        staged == bytes@.len() - from,
        final(buffer)@.take(staged as int) == bytes@.skip(from as int),
{
    let rem = bytes.len() - from;
    copy_into_buffer(buffer, 0, bytes, from, rem);
    proof {
        assert(buffer@.take(rem as int) =~= bytes@.skip(from as int));
    }
    rem
}

/// One in-flight hash computation.
pub struct HashEngine {
    lanes: [u64; 4],
    buffer: [u8; 32],
    buffer_len: usize,
    bytes_done: usize,
    seed: Ghost<u64>,
    stream: Ghost<Seq<u8>>,
}

impl HashEngine {
    /// The seed this engine was created with.
    pub closed spec fn seed(self) -> u64 {
        self.seed@
    }

    /// Every byte absorbed so far, in order, across all `absorb` calls.
    pub closed spec fn stream(self) -> Seq<u8> {
        self.stream@
    }

    /// The engine is exactly the state reached by absorbing `stream()` from a
    /// fresh engine seeded with `seed()`: the lanes hold every full stripe,
    /// the staging buffer holds the 0-31 trailing bytes, and the byte count
    /// is the stream length.
    pub closed spec fn wf(self) -> bool {
        &&& self.buffer_len < 32
        &&& self.bytes_done == self.stream@.len()
        &&& self.buffer_len == self.stream@.len() % 32
        &&& self.lanes@ == lanes_from(init_lanes(self.seed@), self.stream@)
        &&& self.buffer@.take(self.buffer_len as int) == tail_of(self.stream@)
    }

    /// Creates an engine whose lanes are initialized from `seed` by fixed
    /// seed-derived offsets; nothing has been absorbed yet.
    pub fn new(seed: u64) -> (engine: Self)
        ensures
            engine.wf(),
            engine.seed() == seed,
            engine.stream() == Seq::<u8>::empty(),
    {
        let lanes = [
            seed.wrapping_add(PRIME_DIFFUSE).wrapping_add(PRIME_MIX),
            seed.wrapping_add(PRIME_MIX),
            seed,
            seed.wrapping_add(PRIME_DIFFUSE),
        ];
        let engine = HashEngine {
            lanes,
            buffer: [0u8; 32],
            buffer_len: 0,
            bytes_done: 0,
            seed: Ghost(seed),
            stream: Ghost(Seq::empty()),
        };
        proof {
            assert(engine.lanes@ =~= init_lanes(seed));
            assert(engine.buffer@.take(0) =~= tail_of(Seq::<u8>::empty()));
        }
        engine
    }

    /// Appends `bytes` to the absorbed stream. The byte count grows by the
    /// input length unconditionally; a previously staged partial stripe is
    /// topped off and mixed as soon as it is full, every remaining full
    /// 32-byte chunk is mixed directly, and the final partial chunk is staged.
    /// Any length, including zero, is valid.
    #[verifier::loop_isolation(false)]
    #[verifier::rlimit(60)]
    pub fn absorb(&mut self, bytes: &[u8])
        requires
            old(self).wf(),
            old(self).stream().len() + bytes@.len() <= usize::MAX,
        ensures
            final(self).wf(),
            final(self).seed() == old(self).seed(),
            final(self).stream() == old(self).stream() + bytes@,
    {
        let ghost old_stream = self.stream@;
        let ghost n = old_stream.len() as int;
        let ghost r = n % 32;
        let ghost seed = self.seed@;
        let ghost l0 = self.lanes@;
        let ghost new_stream = old_stream + bytes@;
        let ghost pending = tail_of(old_stream) + bytes@;
        let ghost target = lanes_from(l0, pending);

        proof {
            lemma_absorb_pending(seed, old_stream, bytes@);
        }

        self.bytes_done = self.bytes_done + bytes.len();
        self.stream = Ghost(new_stream);

        let mut lanes = self.lanes;
        let mut buffer = self.buffer;
        let mut buffer_len = self.buffer_len;
        let mut offset: usize = 0;

        if buffer_len > 0 {
            let ghost staged = tail_of(old_stream);
            let res = top_off(lanes, &mut buffer, buffer_len, bytes);
            lanes = res.0;
            buffer_len = res.1;
            offset = res.2;

            if buffer_len > 0 {
                self.lanes = lanes;
                self.buffer = buffer;
                self.buffer_len = buffer_len;
                proof {
                    lemma_mod32_small_growth(n, bytes@.len() as int);
                    assert(pending.len() < 32);
                    assert(tail_of(new_stream) == new_stream.skip(n - r));
                    assert(buffer@.take(buffer_len as int) == tail_of(new_stream));
                }
                return ;
            }
            proof {
                assert(staged.len() == r);
                assert(pending.take(32) =~= staged + bytes@.take(32 - r));
                assert(lanes@ == mix_stripe(l0, pending.take(32)));
                assert(pending.skip(32) =~= bytes@.skip(offset as int));
                assert(lanes_from(lanes@, bytes@.skip(offset as int)) == target);
                assert((r + offset) % 32 == 0);
            }
        } else {
            proof {
                assert(tail_of(old_stream) =~= Seq::<u8>::empty());
                assert(pending =~= bytes@);
                assert(bytes@.skip(0) =~= bytes@);
            }
        }

        let ghost offset0 = offset as int;
        let mixed = mix_full_chunks(lanes, bytes, offset);
        lanes = mixed.0;
        offset = mixed.1;
        proof {
            assert(lanes@ == target);
            vstd::arithmetic::div_mod::lemma_add_mod_noop(r + offset0, offset as int - offset0, 32);
            assert((r + offset) % 32 == 0);
        }

        buffer_len = stage_remainder(&mut buffer, bytes, offset);

        self.lanes = lanes;
        self.buffer = buffer;
        self.buffer_len = buffer_len;
        proof {
            lemma_mod32_after_mixing(n, bytes@.len() as int, offset as int);
            assert(new_stream.skip(
                new_stream.len() as int - (new_stream.len() % 32) as int,
            ) =~= bytes@.skip(offset as int));
            assert(buffer@.take(buffer_len as int) == tail_of(new_stream));
        }
    }

    /// Produces the 64-bit digest of every byte absorbed so far: a pure
    /// projection of the current state, callable any number of times and
    /// freely interleaved with further absorption.
    #[verifier::loop_isolation(false)]
    pub fn digest(&self) -> (digest: u64)
        requires
            self.wf(),
        ensures
            digest == hash_of(self.seed(), self.stream()),
    {
        let ghost data = self.stream@;

        let mut state: u64;
        if self.bytes_done >= 32 {
            state = rotl64(self.lanes[0], 1).wrapping_add(rotl64(self.lanes[1], 7)).wrapping_add(
                rotl64(self.lanes[2], 12),
            ).wrapping_add(rotl64(self.lanes[3], 18));
            state = (state ^ round(0, self.lanes[0])).wrapping_mul(PRIME_DIFFUSE).wrapping_add(
                PRIME_FINAL,
            );
            state = (state ^ round(0, self.lanes[1])).wrapping_mul(PRIME_DIFFUSE).wrapping_add(
                PRIME_FINAL,
            );
            state = (state ^ round(0, self.lanes[2])).wrapping_mul(PRIME_DIFFUSE).wrapping_add(
                PRIME_FINAL,
            );
            state = (state ^ round(0, self.lanes[3])).wrapping_mul(PRIME_DIFFUSE).wrapping_add(
                PRIME_FINAL,
            );
            assert(state == merge_lanes(lanes_from(init_lanes(self.seed@), data)));
        } else {
            state = self.lanes[2].wrapping_add(PRIME_TAIL);
        }

        state = state.wrapping_add(self.bytes_done as u64);

        let tail_len = self.buffer_len;
        let buf = slice_subrange(self.buffer.as_slice(), 0, tail_len);
        proof {
            assert(buf@ == tail_of(data));
        }
        let ghost state_entry = state;
        let mut pos: usize = 0;
        proof {
            assert(buf@.skip(0) =~= buf@);
        }

        while pos + 8 <= tail_len
            invariant
                pos <= tail_len,
                fold_tail(state, buf@.skip(pos as int)) == fold_tail(state_entry, buf@),
            decreases tail_len - pos,
        {
            let word = load_u64(slice_subrange(buf, pos, pos + 8));
            proof {
                assert(buf@.subrange(pos as int, pos as int + 8) =~= buf@.skip(pos as int).take(
                    8,
                ));
                assert(buf@.skip(pos as int).skip(8) =~= buf@.skip(pos as int + 8));
            }
            state = rotl64(state ^ round(0, word), 27).wrapping_mul(PRIME_DIFFUSE).wrapping_add(
                PRIME_FINAL,
            );
            pos = pos + 8;
        }

        while pos + 4 <= tail_len
            invariant
                pos <= tail_len,
                tail_len - pos < 8,
                fold_tail(state, buf@.skip(pos as int)) == fold_tail(state_entry, buf@),
            decreases tail_len - pos,
        {
            let word = load_u32(slice_subrange(buf, pos, pos + 4));
            proof {
                assert(buf@.subrange(pos as int, pos as int + 4) =~= buf@.skip(pos as int).take(
                    4,
                ));
                assert(buf@.skip(pos as int).skip(4) =~= buf@.skip(pos as int + 4));
            }
            state = rotl64(state ^ (word as u64).wrapping_mul(PRIME_DIFFUSE), 23).wrapping_mul(
                PRIME_MIX,
            ).wrapping_add(PRIME_LANE);
            pos = pos + 4;
        }

        while pos < tail_len
            invariant
                pos <= tail_len,
                tail_len - pos < 4,
                fold_tail(state, buf@.skip(pos as int)) == fold_tail(state_entry, buf@),
            decreases tail_len - pos,
        {
            let byte = buf[pos];
            proof {
                assert(buf@.skip(pos as int)[0] == buf@[pos as int]);
                assert(buf@.skip(pos as int).skip(1) =~= buf@.skip(pos as int + 1));
            }
            state = rotl64(state ^ (byte as u64).wrapping_mul(PRIME_TAIL), 11).wrapping_mul(
                PRIME_DIFFUSE,
            );
            pos = pos + 1;
        }

        proof {
            assert(buf@.skip(tail_len as int) =~= Seq::<u8>::empty());
            assert(state == fold_tail(state_entry, tail_of(data)));
        }

        state = state ^ (state >> 33u64);
        state = state.wrapping_mul(PRIME_MIX);
        state = state ^ (state >> 29u64);
        state = state.wrapping_mul(PRIME_LANE);
        state ^ (state >> 32u64)
    }
}

impl Default for HashEngine {
    /// A fresh engine seeded with the built-in default seed.
    fn default() -> (engine: Self)
        ensures
            engine.wf(),
            engine.seed() == BASE,
            engine.stream() == Seq::<u8>::empty(),
    {
        Self::new(BASE)
    }
}

} // verus!
