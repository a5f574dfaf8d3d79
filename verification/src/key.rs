//! The key deriver: whitespace is removed from the identifier and the rest,
//! as UTF-8, is hashed to 20 bytes.
//!
//! An identifier is a `&str` and so always well-formed Unicode text. It is
//! hashed in its UTF-8 encoding, whatever characters it holds; no identifier
//! is rejected for its content.
//!
//! The whitespace is removed by the `regex` crate and the digest is computed
//! by the `sha` crate. Both calls are made through a private function whose
//! contract is believed, not proved; everything else here is proved from
//! these two contracts.

use crate::mask::KEY_LEN;
use regex::Regex;
use sha::sha1::Sha1;
use sha::utils::{Digest, DigestExt};
use vstd::prelude::*;
use vstd::utf8::encode_utf8;

verus! {

/// The regular expression that matches one whitespace character: a class of
/// the space and the escapes for tab, newline and carriage return.
pub const WHITESPACE_CLASS: &'static str = "[ \\t\\n\\r]";

/// The longest text, in bytes, that can be hashed: its length in bits has to
/// fit in 64 bits.
pub const MAX_MESSAGE_LEN: u64 = 0x1fff_ffff_ffff_ffff;

/// The longest identifier, in characters, that a key is derived from. A
/// character takes at most four bytes, so the text that is hashed for such an
/// identifier is at most [`MAX_MESSAGE_LEN`] bytes long.
pub const MAX_ID_LEN: u64 = 0x07ff_ffff_ffff_ffff;

/// The characters that are removed from an identifier: space, tab, newline
/// and carriage return.
pub open spec fn is_whitespace(c: char) -> bool {
    c == ' ' || c == '\t' || c == '\n' || c == '\r'
}

/// `text` without its whitespace characters; the others stay, in their order.
pub open spec fn strip_whitespace(text: Seq<char>) -> Seq<char> {
    text.filter(|c: char| !is_whitespace(c))
}

/// The bytes that are hashed for an identifier: the UTF-8 encoding of the
/// identifier without its whitespace.
pub open spec fn key_material(id: Seq<char>) -> Seq<u8> {
    encode_utf8(strip_whitespace(id))
}

/// The SHA-1 digest of `message`, as the `sha` crate computes it.
pub uninterp spec fn sha1_digest(message: Seq<u8>) -> Seq<u8>;

/// The key that belongs to an identifier: the digest of its key material.
pub open spec fn derived_key(id: Seq<char>) -> Seq<u8> {
    sha1_digest(key_material(id))
}

/// Compiles `pattern` with `regex::Regex::new` and replaces every match in
/// `text` by `replacement` with `regex::Regex::replace_all`.
///
/// Trusted. The contract is stated for one pattern and one replacement only.
/// The pattern is [`WHITESPACE_CLASS`]: it compiles, and a match of it is
/// exactly one character out of space, tab, newline and carriage return. The
/// replacement is empty. Replacing all matches, which do not overlap, by
/// nothing then leaves the text without these four characters and with all
/// others in place.
#[verifier::external_body]
fn replace_all(pattern: &str, text: &str, replacement: &str) -> (replaced: String)
    requires
        pattern@ == WHITESPACE_CLASS@,
        replacement@.len() == 0,
    ensures
        replaced@ == strip_whitespace(text@),
{
    Regex::new(pattern).unwrap().replace_all(text, replacement).into_owned()
}

/// Hashes `message` with a fresh `sha::sha1::Sha1`: `Digest::digest` followed
/// by `DigestExt::to_bytes`.
///
/// Trusted. The digest depends on the message alone, and it is 20 bytes
/// long: the length that the crate reads out for SHA-1. For its padding the
/// crate multiplies the length of the message by eight in 64 bits, which is
/// why longer messages are left out.
#[verifier::external_body]
fn sha1(message: &[u8]) -> (digest: Vec<u8>)
    requires
        message@.len() <= MAX_MESSAGE_LEN,
    ensures
        digest@ == sha1_digest(message@),
        digest@.len() == KEY_LEN,
{
    Sha1::default().digest(message).to_bytes()
}

/// Derives the 20-byte key of the identifier `id`.
///
/// Spaces, tabs, newlines and carriage returns are removed from the
/// identifier; what is left is hashed as UTF-8. The key depends on the
/// identifier alone. The identifier may be empty. It has to be at most
/// [`MAX_ID_LEN`] characters long.
pub fn hash_key(id: &str) -> (key: [u8; KEY_LEN])
    requires
        id@.len() <= MAX_ID_LEN,
    ensures
        key@ == derived_key(id@),
        key@.len() == KEY_LEN,
{
    proof {
        reveal_strlit("");
        lemma_key_material_len(id@);
        lemma_encode_utf8_len(id@);
    }
    let stripped = replace_all(WHITESPACE_CLASS, id, "");
    let digest = sha1(stripped.as_str().as_bytes());
    let mut key = [0u8; KEY_LEN];
    let mut i: usize = 0;
    while i < KEY_LEN
        invariant
            i <= KEY_LEN,
            digest@.len() == KEY_LEN,
            forall|j: int| 0 <= j < i ==> key@[j] == digest@[j],
        decreases KEY_LEN - i,
    {
        key[i] = digest[i];
        i += 1;
    }
    assert(key@ =~= digest@);
    key
}

/// The encoding of a concatenation is the concatenation of the encodings.
proof fn lemma_encode_utf8_add(a: Seq<char>, b: Seq<char>)
    ensures
        encode_utf8(a + b) == encode_utf8(a) + encode_utf8(b),
    decreases a.len(),
{
    if a.len() == 0 {
        assert(a + b =~= b);
        assert(encode_utf8(a) + encode_utf8(b) =~= encode_utf8(b));
    } else {
        assert((a + b).drop_first() =~= a.drop_first() + b);
        lemma_encode_utf8_add(a.drop_first(), b);
        assert(encode_utf8(a + b) =~= encode_utf8(a) + encode_utf8(b));
    }
}

/// The encoding of a text has at least one byte and at most four bytes for
/// each character.
pub proof fn lemma_encode_utf8_len(text: Seq<char>)
    ensures
        text.len() <= encode_utf8(text).len() <= 4 * text.len(),
    decreases text.len(),
{
    if text.len() > 0 {
        lemma_encode_utf8_len(text.drop_first());
    }
}

/// The key material of an identifier is never longer than the identifier's
/// own encoding.
pub proof fn lemma_key_material_len(id: Seq<char>)
    ensures
        key_material(id).len() <= encode_utf8(id).len(),
    decreases id.len(),
{
    reveal(Seq::filter);
    if id.len() > 0 {
        let front = id.drop_last();
        let last = seq![id.last()];
        assert(id =~= front + last);
        lemma_key_material_len(front);
        lemma_encode_utf8_add(front, last);
        if !is_whitespace(id.last()) {
            assert(strip_whitespace(id) =~= strip_whitespace(front) + last);
            lemma_encode_utf8_add(strip_whitespace(front), last);
        }
    }
}

/// Identifiers that differ in whitespace only have the same key; so, in
/// particular, have equal identifiers.
pub proof fn lemma_key_ignores_whitespace(a: Seq<char>, b: Seq<char>)
    requires
        strip_whitespace(a) == strip_whitespace(b),
    ensures
        derived_key(a) == derived_key(b),
{
}

/// A whitespace character put anywhere into an identifier changes neither
/// what is hashed nor the key.
pub proof fn lemma_whitespace_insertion(id: Seq<char>, i: int, c: char)
    requires
        0 <= i <= id.len(),
        is_whitespace(c),
    ensures
        strip_whitespace(id.insert(i, c)) == strip_whitespace(id),
        derived_key(id.insert(i, c)) == derived_key(id),
{
    let keep = |c: char| !is_whitespace(c);
    let front = id.subrange(0, i);
    let back = id.subrange(i, id.len() as int);
    let gap = seq![c];
    assert(id =~= front + back);
    assert(id.insert(i, c) =~= front + gap + back);
    Seq::filter_distributes_over_add(front, back, keep);
    Seq::filter_distributes_over_add(front, gap, keep);
    Seq::filter_distributes_over_add(front + gap, back, keep);
    assert(gap.filter(keep) =~= Seq::<char>::empty()) by {
        reveal_with_fuel(Seq::filter, 2);
        assert(gap.drop_last() =~= Seq::<char>::empty());
    }
    assert(strip_whitespace(id.insert(i, c)) =~= strip_whitespace(id));
}

} // verus!
