use vstd::prelude::*;

verus! {

/// Multiplier applied to each input word before it enters an accumulator.
pub const PRIME_MIX: u64 = 0x9E3779B185EBCA87;

/// Multiplier applied after every rotation to diffuse the rotated bits.
pub const PRIME_DIFFUSE: u64 = 0xC2B2AE3D27D4EB4F;

/// Multiplier used in the last avalanche stage and the 4-byte tail stage.
pub const PRIME_LANE: u64 = 0x165667B19E3779F9;

/// Offset for the unmixed regime and multiplier for single tail bytes.
pub const PRIME_TAIL: u64 = 0x27D4EB2F165667C5;

/// Offset added after each lane is folded into the working state.
pub const PRIME_FINAL: u64 = 0x85EBCA77C2B2AE63;

/// The built-in default seed.
pub const BASE: u64 = 0xcafecafecafecafe;

} // verus!
