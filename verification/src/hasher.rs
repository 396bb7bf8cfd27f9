//! Content fingerprints: a SHA-1 digest over a bounded prefix of the bytes.

use crypto::digest::Digest;
use vstd::prelude::*;
use vstd::slice::slice_subrange;

verus! {

/// The SHA-1 digest of a byte sequence, as 40 lower-case hexadecimal digits.
pub uninterp spec fn sha1_hex(bytes: Seq<u8>) -> Seq<char>;

/// A digit of lower-case hexadecimal notation.
pub open spec fn spec_is_hex_digit(c: char) -> bool {
    ('0' <= c && c <= '9') || ('a' <= c && c <= 'f')
}

/// A text of the size and alphabet of a fingerprint: 40 hexadecimal digits.
pub open spec fn spec_is_fingerprint(text: Seq<char>) -> bool {
    &&& text.len() == 40
    &&& forall|i: int| 0 <= i < text.len() ==> spec_is_hex_digit(#[trigger] text[i])
}

/// Feeds `bytes` to a fresh `crypto::sha1::Sha1` with `Digest::input` and
/// reads the digest with `Digest::result_str`. The text is a function of the
/// bytes alone, and `result_str` writes each of the 20 bytes of the digest as
/// two digits out of `0123456789abcdef`; nothing else is claimed of it.
#[verifier::external_body]
fn sha1_hex_text(bytes: &[u8]) -> (res: String)
    ensures
        res@ == sha1_hex(bytes@),
        spec_is_fingerprint(res@),
{
    let mut hasher = crypto::sha1::Sha1::new();
    hasher.input(bytes);
    hasher.result_str()
}

/// Computes fingerprints.
pub struct Sha1Hasher {}

impl Sha1Hasher {
    /// How many leading bytes of a payload its fingerprint covers.
    pub const BYTES_LEN: usize = 2048;

    /// The part of a payload that its fingerprint covers: the first
    /// `BYTES_LEN` bytes, or all of them where there are fewer.
    pub open spec fn spec_prefix(bytes: Seq<u8>) -> Seq<u8> {
        if bytes.len() <= 2048 {
            bytes
        } else {
            bytes.take(2048)
        }
    }

    /// The fingerprint of a payload: the digest of its covered part. Two
    /// payloads that agree on that part have the same fingerprint.
    pub open spec fn spec_sha1(bytes: Seq<u8>) -> Seq<char> {
        sha1_hex(Sha1Hasher::spec_prefix(bytes))
    }

    pub fn new() -> (res: Sha1Hasher) {
        Sha1Hasher {  }
    }

    /// The part of a payload that its fingerprint covers.
    pub fn prefix(bytes: &[u8]) -> (res: &[u8])
        ensures
            res@ == Sha1Hasher::spec_prefix(bytes@),
    {
        if bytes.len() <= Sha1Hasher::BYTES_LEN {
            bytes
        } else {
            let head = slice_subrange(bytes, 0, Sha1Hasher::BYTES_LEN);
            head
        }
    }

    /// The fingerprint of a payload.
    pub fn create_sha1(&mut self, bytes: &[u8]) -> (res: String)
        ensures
            res@ == Sha1Hasher::spec_sha1(bytes@),
            spec_is_fingerprint(res@),
    {
        sha1_hex_text(Sha1Hasher::prefix(bytes))
    }
}

/// Payloads that agree on the covered prefix are not told apart.
pub proof fn lemma_same_prefix_same_sha1(a: Seq<u8>, b: Seq<u8>)
    requires
        Sha1Hasher::spec_prefix(a) == Sha1Hasher::spec_prefix(b),
    ensures
        Sha1Hasher::spec_sha1(a) == Sha1Hasher::spec_sha1(b),
{
}

} // verus!
