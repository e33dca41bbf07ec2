pub mod constants;
pub mod engine;
pub mod into_iter;
pub mod hashable;
pub mod helper;
pub mod laws;
pub mod model;
pub mod pow2;
pub mod vector;

use vstd::prelude::*;
use crate::constants::BASE;
use crate::engine::HashEngine;
use crate::hashable::Hashable;
use crate::model::hash_of;

verus! {

/// Hashes one value in a single call: a fresh engine with the built-in
/// default seed absorbs the value's canonical byte encoding, and the digest
/// is returned.
pub fn hash<T: Hashable>(value: &T) -> (digest: u64)
    ensures
        digest == hash_of(BASE, value.encoded()),
{
    let mut engine = HashEngine::default();
    proof {
        value.encoded_len_bounded();
        assert(engine.stream() + value.encoded() =~= value.encoded());
    }
    value.feed(&mut engine);
    engine.digest()
}

} // verus!
