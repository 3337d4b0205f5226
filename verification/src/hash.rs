//! Content addressing for the simulated dataset.
//!
//! Records are content-addressed: a header's address is a deterministic
//! digest of its serialized fields, and an entry's address is a digest of its
//! bytes. The simulator only needs addresses that are deterministic and well
//! spread over the ring, so the digest is a 64-bit multiply-xor fold, defined
//! here as a spec function and implemented against it.

use vstd::prelude::*;

verus! {

/// Multiplier of the digest fold.
pub const HASH_PRIME: u64 = 0x100000001b3;

/// Starting value of the digest fold.
pub const HASH_OFFSET: u64 = 0xcbf29ce484222325;

/// One fold step: absorb the word `v` into the state `h`.
pub open spec fn mix(h: u64, v: u64) -> u64 {
    vstd::wrapping::u64_specs::wrapping_mul(h ^ v, HASH_PRIME)
}

/// Digest of a word sequence: the fold of `mix` from the fixed offset.
pub open spec fn digest_of(words: Seq<u64>) -> u64
    decreases words.len(),
{
    if words.len() == 0 {
        HASH_OFFSET
    } else {
        mix(digest_of(words.drop_last()), words.last())
    }
}

/// Digest of a word slice.
pub fn digest_words(words: &Vec<u64>) -> (r: u64)
    ensures
        r == digest_of(words@),
{
    let mut h: u64 = HASH_OFFSET;
    let mut i: usize = 0;
    while i < words.len()
        invariant
            i <= words.len(),
            h == digest_of(words@.take(i as int)),
        decreases words.len() - i,
    {
        proof {
            assert(words@.take(i + 1).drop_last() =~= words@.take(i as int));
            assert(words@.take(i + 1).last() == words@[i as int]);
        }
        h = (h ^ words[i]).wrapping_mul(HASH_PRIME);
        i = i + 1;
    }
    proof {
        assert(words@.take(words@.len() as int) =~= words@);
    }
    h
}

/// Digest of a byte sequence, each byte absorbed as one word.
pub open spec fn byte_digest_of(bytes: Seq<u8>) -> u64
    decreases bytes.len(),
{
    if bytes.len() == 0 {
        HASH_OFFSET
    } else {
        mix(byte_digest_of(bytes.drop_last()), bytes.last() as u64)
    }
}

/// Digest of a byte slice: the address of an entry's content.
pub fn digest_bytes(bytes: &Vec<u8>) -> (r: u64)
    ensures
        r == byte_digest_of(bytes@),
{
    let mut h: u64 = HASH_OFFSET;
    let mut i: usize = 0;
    while i < bytes.len()
        invariant
            i <= bytes.len(),
            h == byte_digest_of(bytes@.take(i as int)),
        decreases bytes.len() - i,
    {
        proof {
            assert(bytes@.take(i + 1).drop_last() =~= bytes@.take(i as int));
            assert(bytes@.take(i + 1).last() == bytes@[i as int]);
        }
        h = (h ^ (bytes[i] as u64)).wrapping_mul(HASH_PRIME);
        i = i + 1;
    }
    proof {
        assert(bytes@.take(bytes@.len() as int) =~= bytes@);
    }
    h
}

/// The ring location of an address: its low-order 32 bits.
pub open spec fn spec_loc_of(address: u64) -> u32 {
    (address % 0x1_0000_0000) as u32
}

/// The ring location of an address.
pub fn loc_of(address: u64) -> (r: u32)
    ensures
        r == spec_loc_of(address),
{
    (address % 0x1_0000_0000) as u32
}

} // verus!
