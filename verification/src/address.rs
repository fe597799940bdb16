//! Addresses: identifiers derived deterministically from content bytes.

use vstd::prelude::*;
use vstd::utf8::encode_utf8;

verus! {

/// Identifier of a piece of content, used as a storage key and as a link
/// between records. Equal content always has the same address.
#[derive(Clone, Copy, Debug, PartialEq, Eq, Structural, PartialOrd, Ord, Hash)]
pub struct Address {
    pub digest: u64,
}

/// Starting value of every digest.
pub const DIGEST_SEED: u64 = 0xcbf29ce484222325u64;

/// Multiplier of the digest's mixing step.
pub const DIGEST_PRIME: u64 = 0x100000001b3u64;

/// One mixing step: fold `word` into `acc`.
pub open spec fn mix(acc: u64, word: u64) -> u64 {
    (acc ^ word).wrapping_mul(DIGEST_PRIME)
}

/// Fold the bytes of `bytes`, first to last, into `acc`.
pub open spec fn mix_bytes(acc: u64, bytes: Seq<u8>) -> u64
    decreases bytes.len(),
{
    if bytes.len() == 0 {
        acc
    } else {
        mix(mix_bytes(acc, bytes.drop_last()), bytes.last() as u64)
    }
}

/// Fold a length-prefixed text into `acc`, so that adjacent texts cannot
/// run into each other.
pub open spec fn mix_text(acc: u64, text: Seq<char>) -> u64 {
    let bytes = encode_utf8(text);
    mix_bytes(mix(acc, bytes.len() as u64), bytes)
}

/// Fold an optional link into `acc`: a marker, then the address if present.
pub open spec fn mix_link(acc: u64, link: Option<Address>) -> u64 {
    match link {
        None => mix(acc, 0),
        Some(a) => mix(mix(acc, 1), a.digest),
    }
}

pub fn digest_word(acc: u64, word: u64) -> (r: u64)
    ensures
        r == mix(acc, word),
{
    (acc ^ word).wrapping_mul(DIGEST_PRIME)
}

pub fn digest_text(acc: u64, text: &String) -> (r: u64)
    ensures
        r == mix_text(acc, text@),
{
    let bytes = text.as_str().as_bytes();
    let n: usize = bytes.len();
    let mut h: u64 = digest_word(acc, n as u64);
    let mut i: usize = 0;
    while i < n
        invariant
            i <= n,
            n == bytes@.len(),
            h == mix_bytes(mix(acc, n as u64), bytes@.take(i as int)),
        decreases n - i,
    {
        proof {
            assert(bytes@.take(i + 1).drop_last() =~= bytes@.take(i as int));
        }
        h = digest_word(h, bytes[i] as u64);
        i += 1;
    }
    proof {
        assert(bytes@.take(n as int) =~= bytes@);
    }
    h
}

pub fn digest_link(acc: u64, link: &Option<Address>) -> (r: u64)
    ensures
        r == mix_link(acc, *link),
{
    match link {
        None => digest_word(acc, 0),
        Some(a) => digest_word(digest_word(acc, 1), a.digest),
    }
}

} // verus!
