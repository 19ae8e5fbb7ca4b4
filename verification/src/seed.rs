//! The 128-bit seed: a fixed-size array of bytes, copied by value.

use vstd::prelude::*;

verus! {

/// Number of bytes in a seed.
pub const SEED_BYTE_LEN: usize = 16;

/// A 128-bit value, used as cipher key and as cipher block alike.
pub type SeedU8x16 = [u8; SEED_BYTE_LEN];

/// The sequence of `SEED_BYTE_LEN` bytes that all equal `byte`.
pub open spec fn constant_block(byte: u8) -> Seq<u8> {
    Seq::new(SEED_BYTE_LEN as nat, |i: int| byte)
}

} // verus!
