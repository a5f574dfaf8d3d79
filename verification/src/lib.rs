//! Reversible obfuscation of fonts embedded in a packaged publication.
//!
//! A 20-byte key is derived from the publication's identifier
//! ([`key::hash_key`]) and XOR-ed cyclically over the first 1040 bytes of the
//! font ([`mask::mask`]); the rest of the font is left as it is. Masking
//! twice with the same key gives the font back, so one operation serves both
//! directions.

pub mod key;
pub mod mask;

use crate::key::{derived_key, hash_key, MAX_ID_LEN};
use crate::mask::{lemma_mask_involution, mask, masked, WINDOW_LEN};
use vstd::prelude::*;

verus! {

/// The obfuscated form of `input` under the identifier `id`: the input masked
/// with the key that belongs to the identifier.
pub open spec fn obfuscated(input: Seq<u8>, id: Seq<char>) -> Seq<u8> {
    masked(input, derived_key(id))
}

/// Obfuscates a font, or restores an obfuscated one, under the publication
/// identifier `key`.
///
/// The key is derived from the identifier with [`hash_key`] and the input is
/// masked with it by [`mask`]. The result is as long as the input; bytes from
/// position 1040 on are copied unchanged. The identifier has to be at most
/// [`MAX_ID_LEN`] characters long.
pub fn obfuscate(input: &[u8], key: &str) -> (output: Vec<u8>)
    requires
        key@.len() <= MAX_ID_LEN,
    ensures
        output@ == obfuscated(input@, key@),
        output@.len() == input@.len(),
        forall|i: int| WINDOW_LEN <= i < input@.len() ==> output@[i] == input@[i],
{
    let hashed_key = hash_key(key);
    mask(input, &hashed_key)
}

/// Obfuscating twice under the same identifier gives the input back.
pub proof fn lemma_obfuscate_involution(input: Seq<u8>, id: Seq<char>)
    ensures
        obfuscated(obfuscated(input, id), id) == input,
{
    lemma_mask_involution(input, derived_key(id));
}

} // verus!
