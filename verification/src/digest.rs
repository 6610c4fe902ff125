//! Content hashes of asset sources.

use sha2::{Digest, Sha256};
use vstd::prelude::*;
use vstd::string::StringSliceAdditionalSpecFns;

verus! {

/// The SHA-256 digest of a byte string.
pub uninterp spec fn sha256(bytes: Seq<u8>) -> Seq<u8>;

/// `Sha256::digest`: the digest of `data`, which SHA-256 defines as 32 bytes.
#[verifier::external_body]
fn sha256_bytes(data: &[u8]) -> (digest: Vec<u8>)
    ensures
        digest@ == sha256(data@),
        digest@.len() == 32,
{
    Sha256::digest(data).to_vec()
}

/// The eight bytes of `bytes` from `at` on, read as a big-endian number.
pub open spec fn be_word(bytes: Seq<u8>, at: int) -> int {
    ((((((bytes[at] * 256 + bytes[at + 1]) * 256 + bytes[at + 2]) * 256 + bytes[at + 3]) * 256
        + bytes[at + 4]) * 256 + bytes[at + 5]) * 256 + bytes[at + 6]) * 256 + bytes[at + 7]
}

/// A 256-bit digest, held as four big-endian words.
#[derive(Clone, Copy, Debug, PartialEq, Eq, Hash, Structural)]
pub struct ContentHash {
    pub w0: u64,
    pub w1: u64,
    pub w2: u64,
    pub w3: u64,
}

fn read_word(bytes: &[u8], at: usize) -> (word: u64)
    requires
        at + 8 <= bytes@.len(),
    ensures
        word == be_word(bytes@, at as int),
{
    let b0: u64 = bytes[at] as u64;
    let b1: u64 = bytes[at + 1] as u64;
    let b2: u64 = bytes[at + 2] as u64;
    let b3: u64 = bytes[at + 3] as u64;
    let b4: u64 = bytes[at + 4] as u64;
    let b5: u64 = bytes[at + 5] as u64;
    let b6: u64 = bytes[at + 6] as u64;
    let b7: u64 = bytes[at + 7] as u64;
    let acc1: u64 = b0 * 256 + b1;
    let acc2: u64 = acc1 * 256 + b2;
    let acc3: u64 = acc2 * 256 + b3;
    let acc4: u64 = acc3 * 256 + b4;
    let acc5: u64 = acc4 * 256 + b5;
    let acc6: u64 = acc5 * 256 + b6;
    acc6 * 256 + b7
}

impl ContentHash {
    /// The hash that a 32-byte digest stands for.
    pub open spec fn of_bytes(bytes: Seq<u8>) -> ContentHash {
        ContentHash {
            w0: be_word(bytes, 0) as u64,
            w1: be_word(bytes, 8) as u64,
            w2: be_word(bytes, 16) as u64,
            w3: be_word(bytes, 24) as u64,
        }
    }

    /// Packs a digest of exactly 32 bytes; any other length is refused.
    pub fn from_bytes(bytes: &[u8]) -> (hash: Option<ContentHash>)
        ensures
            hash == if bytes@.len() == 32 {
                Some(ContentHash::of_bytes(bytes@))
            } else {
                None
            },
    {
        if bytes.len() != 32 {
            return None;
        }
        Some(
            ContentHash {
                w0: read_word(bytes, 0),
                w1: read_word(bytes, 8),
                w2: read_word(bytes, 16),
                w3: read_word(bytes, 24),
            },
        )
    }

    /// Hashes the source text of an asset.
    pub fn of_source(source: &str) -> (hash: ContentHash)
        ensures
            hash == ContentHash::of_bytes(sha256(source.spec_bytes())),
    {
        let digest = sha256_bytes(source.as_bytes());
        let packed = ContentHash::from_bytes(digest.as_slice());
        packed.unwrap()
    }
}

proof fn lemma_last_digit(high_a: int, low_a: int, high_b: int, low_b: int)
    requires
        0 <= low_a < 256,
        0 <= low_b < 256,
        high_a * 256 + low_a == high_b * 256 + low_b,
    ensures
        high_a == high_b,
        low_a == low_b,
{
}

/// Eight bytes are determined by the big-endian word they spell.
pub proof fn lemma_be_word_injective(a: Seq<u8>, b: Seq<u8>, at: int)
    requires
        0 <= at,
        at + 8 <= a.len(),
        at + 8 <= b.len(),
        be_word(a, at) == be_word(b, at),
    ensures
        forall|j: int| at <= j < at + 8 ==> a[j] == b[j],
{
    let a1 = a[at] * 256 + a[at + 1];
    let b1 = b[at] * 256 + b[at + 1];
    let a2 = a1 * 256 + a[at + 2];
    let b2 = b1 * 256 + b[at + 2];
    let a3 = a2 * 256 + a[at + 3];
    let b3 = b2 * 256 + b[at + 3];
    let a4 = a3 * 256 + a[at + 4];
    let b4 = b3 * 256 + b[at + 4];
    let a5 = a4 * 256 + a[at + 5];
    let b5 = b4 * 256 + b[at + 5];
    let a6 = a5 * 256 + a[at + 6];
    let b6 = b5 * 256 + b[at + 6];
    lemma_last_digit(a6, a[at + 7] as int, b6, b[at + 7] as int);
    lemma_last_digit(a5, a[at + 6] as int, b5, b[at + 6] as int);
    lemma_last_digit(a4, a[at + 5] as int, b4, b[at + 5] as int);
    lemma_last_digit(a3, a[at + 4] as int, b3, b[at + 4] as int);
    lemma_last_digit(a2, a[at + 3] as int, b2, b[at + 3] as int);
    lemma_last_digit(a1, a[at + 2] as int, b1, b[at + 2] as int);
    lemma_last_digit(a[at] as int, a[at + 1] as int, b[at] as int, b[at + 1] as int);
    assert forall|j: int| at <= j < at + 8 implies a[j] == b[j] by {
        assert(j == at || j == at + 1 || j == at + 2 || j == at + 3 || j == at + 4 || j == at + 5
            || j == at + 6 || j == at + 7);
    }
}

/// Two digests of 32 bytes that pack to the same hash are the same digest.
pub proof fn lemma_of_bytes_injective(a: Seq<u8>, b: Seq<u8>)
    requires
        a.len() == 32,
        b.len() == 32,
        ContentHash::of_bytes(a) == ContentHash::of_bytes(b),
    ensures
        a == b,
{
    lemma_be_word_injective(a, b, 0);
    lemma_be_word_injective(a, b, 8);
    lemma_be_word_injective(a, b, 16);
    lemma_be_word_injective(a, b, 24);
    assert(a =~= b);
}

} // verus!
