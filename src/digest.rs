//! Content hashes: the identity of a source text across runs.
use vstd::prelude::*;
use sha1::{Digest, Sha1};

verus! {

/// The SHA-1 digest of the UTF-8 encoding of `text`.
pub uninterp spec fn sha1_of(text: Seq<char>) -> Seq<u8>;

/// The lowercase hexadecimal digits.
pub open spec fn hex_digits() -> Seq<char> {
    seq!['0', '1', '2', '3', '4', '5', '6', '7', '8', '9', 'a', 'b', 'c', 'd', 'e', 'f']
}

/// Lowercase hexadecimal text of `bytes`: two digits per byte, the high
/// half first.
pub open spec fn hex_of(bytes: Seq<u8>) -> Seq<char>
    decreases bytes.len(),
{
    if bytes.len() == 0 {
        Seq::empty()
    } else {
        hex_of(bytes.drop_last()) + seq![
            hex_digits()[(bytes.last() / 16) as int],
            hex_digits()[(bytes.last() % 16) as int],
        ]
    }
}

/// The content hash of a source text: its SHA-1 digest in lowercase hex.
pub open spec fn content_hash_of(text: Seq<char>) -> Seq<char> {
    hex_of(sha1_of(text))
}

/// Relies on sha1's `Sha1::digest` over the text's UTF-8 bytes: the digest
/// depends on the text alone and is 20 bytes long.
#[verifier::external_body]
fn sha1_digest(text: &str) -> (r: Vec<u8>)
    ensures
        r@ == sha1_of(text@),
        r@.len() == 20,
{
    Sha1::digest(text.as_bytes()).to_vec()
}

/// Relies on `hex::encode`: two lowercase hex digits per byte, high half
/// first.
#[verifier::external_body]
fn hex_encode(bytes: &Vec<u8>) -> (r: String)
    ensures
        r@ == hex_of(bytes@),
{
    hex::encode(bytes)
}

/// The content hash of a source text.
pub fn content_hash(source: &str) -> (r: String)
    ensures
        r@ == content_hash_of(source@),
        r@.len() == 40,
{
    let digest = sha1_digest(source);
    proof {
        lemma_hex_len(digest@);
    }
    hex_encode(&digest)
}

/// Hex text has two digits per byte.
pub proof fn lemma_hex_len(bytes: Seq<u8>)
    ensures
        hex_of(bytes).len() == 2 * bytes.len(),
    decreases bytes.len(),
{
    if bytes.len() > 0 {
        lemma_hex_len(bytes.drop_last());
    }
}

} // verus!
