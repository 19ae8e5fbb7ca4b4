//! The block cipher that the generator is built on: AES with a 128-bit key,
//! encryption of single blocks only.

use aes::cipher::generic_array::GenericArray;
use aes::cipher::{BlockEncrypt, KeyInit};
use aes::Aes128;
use vstd::prelude::*;

use crate::seed::{SeedU8x16, SEED_BYTE_LEN};

verus! {

/// The AES-128 encryption of the 16-byte `block` under the 16-byte `key`.
///
/// The cipher itself is not modelled: this is a name for what the `aes`
/// crate computes, a function of the key and the block alone.
pub uninterp spec fn aes128_encrypt(key: Seq<u8>, block: Seq<u8>) -> Seq<u8>;

/// Encrypts one block under a key.
///
/// Trusted, not proved: keys `aes::Aes128` with `key` through
/// `KeyInit::new` and runs `BlockEncrypt::encrypt_block` on a copy of
/// `block`. The contract claims that the ciphertext is `aes128_encrypt` of
/// the two inputs, and that under one key no other block encrypts to the
/// same ciphertext: the cipher is a permutation of the blocks, which its
/// `decrypt_block` undoes.
#[verifier::external_body]
pub(crate) fn encrypt_block(key: &SeedU8x16, block: &SeedU8x16) -> (out: SeedU8x16)
    ensures
        out@ == aes128_encrypt(key@, block@),
        forall|other: Seq<u8>|
            other.len() == SEED_BYTE_LEN && #[trigger] aes128_encrypt(key@, other) == out@
                ==> other == block@,
{
    let cipher = Aes128::new(&GenericArray::from(*key));
    let mut buffer = GenericArray::from(*block);
    cipher.encrypt_block(&mut buffer);
    buffer.into()
}

} // verus!
