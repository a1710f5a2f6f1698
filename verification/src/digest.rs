//! Text digests. Captures and leases keep a digest where they need not keep the text.
use crate::text::utf8;
use sha2::Digest;
use vstd::prelude::*;

verus! {

/// A SHA-256 digest, as its upper and lower 128 bits.
#[derive(Clone, Copy, Debug, PartialEq, Eq, Structural)]
pub struct TextDigest {
    pub upper: u128,
    pub lower: u128,
}

/// The SHA-256 digest of `data`, as its upper and lower 128 bits.
pub uninterp spec fn sha256(data: Seq<u8>) -> (u128, u128);

/// The digest of the UTF-8 bytes of `text`.
pub open spec fn text_digest(text: Seq<char>) -> TextDigest {
    TextDigest { upper: sha256(utf8(text)).0, lower: sha256(utf8(text)).1 }
}

/// `sha2::Sha256::digest`: the 32 bytes that the hash function gives for `data`, read as two
/// big-endian halves. They depend on `data` alone; nothing is claimed of which bytes they are.
#[verifier::external_body]
fn sha256_of(data: &[u8]) -> (halves: (u128, u128))
    ensures
        halves == sha256(data@),
{
    let bytes: [u8; 32] = sha2::Sha256::digest(data).into();
    let (upper, lower) = bytes.split_at(16);
    let mut halves = [[0u8; 16]; 2];
    halves[0].copy_from_slice(upper);
    halves[1].copy_from_slice(lower);
    (u128::from_be_bytes(halves[0]), u128::from_be_bytes(halves[1]))
}

/// The digest of `text`.
pub fn text_hash(text: &str) -> (digest: TextDigest)
    ensures
        digest == text_digest(text@),
{
    proof {
        reveal(utf8);
    }
    let (upper, lower) = sha256_of(text.as_bytes());
    TextDigest { upper, lower }
}

} // verus!
