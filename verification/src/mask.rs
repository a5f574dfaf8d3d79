//! The masking engine: a key XOR-ed cyclically over a bounded prefix.

use vstd::prelude::*;

verus! {

/// Number of bytes in a key.
pub const KEY_LEN: usize = 20;

/// Number of leading bytes that are masked: 52 repetitions of the key.
pub const WINDOW_LEN: usize = 1040;

/// The byte at position `i` of the masked stream: inside the window the
/// input byte XOR-ed with the key byte at `i` modulo the key length, beyond
/// the window the input byte itself.
pub open spec fn masked_byte(input: Seq<u8>, key: Seq<u8>, i: int) -> u8 {
    if i < WINDOW_LEN {
        input[i] ^ key[i % KEY_LEN as int]
    } else {
        input[i]
    }
}

/// The masked stream: as long as `input`, each byte given by [`masked_byte`].
pub open spec fn masked(input: Seq<u8>, key: Seq<u8>) -> Seq<u8> {
    Seq::new(input.len(), |i: int| masked_byte(input, key, i))
}

/// Masks `input` with `key`.
///
/// The result is as long as the input. Its first 1040 bytes (all of them, if
/// the input is shorter) are the input bytes XOR-ed with the key repeated
/// cyclically; every later byte is copied unchanged.
pub fn mask(input: &[u8], key: &[u8; KEY_LEN]) -> (output: Vec<u8>)
    ensures
        output@ == masked(input@, key@),
        output@.len() == input@.len(),
        forall|i: int|
            0 <= i < input@.len() && i < WINDOW_LEN ==> output@[i] == input@[i] ^ key@[i
                % KEY_LEN as int],
        forall|i: int| WINDOW_LEN <= i < input@.len() ==> output@[i] == input@[i],
{
    let mut output: Vec<u8> = Vec::with_capacity(input.len());
    let mut i: usize = 0;
    while i < input.len()
        invariant
            i <= input@.len(),
            output@.len() == i,
            forall|j: int| 0 <= j < i ==> output@[j] == masked_byte(input@, key@, j),
        decreases input@.len() - i,
    {
        let byte: u8 = if i < WINDOW_LEN {
            input[i] ^ key[i % KEY_LEN]
        } else {
            input[i]
        };
        output.push(byte);
        i += 1;
    }
    output
}

/// Masking twice with the same key gives the input back, whatever the input
/// and the key are.
pub proof fn lemma_mask_involution(input: Seq<u8>, key: Seq<u8>)
    ensures
        masked(masked(input, key), key) == input,
{
    let once = masked(input, key);
    let twice = masked(once, key);
    assert forall|i: int| 0 <= i < input.len() implies twice[i] == input[i] by {
        if i < WINDOW_LEN {
            let b = input[i];
            let k = key[i % KEY_LEN as int];
            assert((b ^ k) ^ k == b) by (bit_vector);
        }
    }
    assert(twice =~= input);
}

/// Masking keeps the length of the input.
pub proof fn lemma_mask_preserves_len(input: Seq<u8>, key: Seq<u8>)
    ensures
        masked(input, key).len() == input.len(),
{
}

/// Every byte at or beyond the end of the window is the same in the masked
/// stream as in the input.
pub proof fn lemma_mask_keeps_tail(input: Seq<u8>, key: Seq<u8>)
    ensures
        forall|i: int| WINDOW_LEN <= i < input.len() ==> masked(input, key)[i] == input[i],
        input.len() > WINDOW_LEN ==> masked(input, key).subrange(
            WINDOW_LEN as int,
            input.len() as int,
        ) == input.subrange(WINDOW_LEN as int, input.len() as int),
{
    if input.len() > WINDOW_LEN {
        assert(masked(input, key).subrange(WINDOW_LEN as int, input.len() as int)
            =~= input.subrange(WINDOW_LEN as int, input.len() as int));
    }
}

} // verus!
