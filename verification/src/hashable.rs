//! The generic "hashable" capability: a value contributes a canonical byte
//! encoding, written into an engine as a fixed sequence of primitive
//! absorptions, so that any structured value can be hashed in one call.

use vstd::prelude::*;
use vstd::bytes::{
    spec_u32_to_le_bytes, spec_u64_to_le_bytes, u32_to_le_bytes, u64_to_le_bytes,
    lemma_auto_spec_u32_to_from_le_bytes, lemma_auto_spec_u64_to_from_le_bytes,
};
use crate::engine::HashEngine;

verus! {

/// A value with a canonical byte representation that an engine can absorb.
pub trait Hashable {
    /// The canonical byte encoding this value contributes.
    spec fn encoded(&self) -> Seq<u8>;

    /// The encoding fits in memory.
    proof fn encoded_len_bounded(&self)
        ensures
            self.encoded().len() <= usize::MAX,
    ;

    /// Writes the canonical encoding into `engine`.
    fn feed(&self, engine: &mut HashEngine)
        requires
            old(engine).wf(),
            old(engine).stream().len() + self.encoded().len() <= usize::MAX,
        ensures
            final(engine).wf(),
            final(engine).seed() == old(engine).seed(),
            final(engine).stream() == old(engine).stream() + self.encoded(),
    ;
}

impl Hashable for u8 {
    /// One byte: itself.
    open spec fn encoded(&self) -> Seq<u8> {
        seq![*self]
    }

    proof fn encoded_len_bounded(&self) {
    }

    fn feed(&self, engine: &mut HashEngine) {
        let bytes: [u8; 1] = [*self];
        proof {
            assert(bytes@ =~= seq![*self]);
        }
        engine.absorb(bytes.as_slice());
    }
}

impl Hashable for u32 {
    /// Four little-endian bytes.
    open spec fn encoded(&self) -> Seq<u8> {
        spec_u32_to_le_bytes(*self)
    }

    proof fn encoded_len_bounded(&self) {
        lemma_auto_spec_u32_to_from_le_bytes();
    }

    fn feed(&self, engine: &mut HashEngine) {
        proof {
            lemma_auto_spec_u32_to_from_le_bytes();
        }
        let bytes = u32_to_le_bytes(*self);
        engine.absorb(bytes.as_slice());
    }
}

impl Hashable for u64 {
    /// Eight little-endian bytes.
    open spec fn encoded(&self) -> Seq<u8> {
        spec_u64_to_le_bytes(*self)
    }

    proof fn encoded_len_bounded(&self) {
        lemma_auto_spec_u64_to_from_le_bytes();
    }

    fn feed(&self, engine: &mut HashEngine) {
        proof {
            lemma_auto_spec_u64_to_from_le_bytes();
        }
        let bytes = u64_to_le_bytes(*self);
        engine.absorb(bytes.as_slice());
    }
}

impl Hashable for Vec<u8> {
    /// The bytes themselves, in order.
    open spec fn encoded(&self) -> Seq<u8> {
        self@
    }

    proof fn encoded_len_bounded(&self) {
        vstd::std_specs::vec::axiom_spec_len(self);
    }

    fn feed(&self, engine: &mut HashEngine) {
        engine.absorb(self.as_slice());
    }
}

} // verus!
