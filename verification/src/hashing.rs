//! The hash scheme: a fixed palette of hashing strategies, cycled to give
//! each probe position its own way of turning a value's base hash into a
//! 64-bit hash. The fast strategy uses the base hash as it stands; the two
//! digest strategies run the base hash's little-endian bytes through a
//! cryptographic digest and fold the digest bytes back into 64 bits.

use vstd::prelude::*;
use std::collections::hash_map::DefaultHasher;

verus! {

/// One hashing strategy of the palette.
#[derive(Clone, Copy)]
pub enum HashAlgorithm {
    /// The standard library's general-purpose hasher, used as it stands.
    Fast,
    /// The base hash's bytes run through the MD5 digest.
    Md5,
    /// The base hash's bytes run through the SHA-256 digest.
    Sha256,
}

/// The strategy assigned to probe position `j`: the palette of three
/// strategies, repeated in cyclic order.
pub open spec fn palette_alg(j: int) -> HashAlgorithm {
    if j % 3 == 0 {
        HashAlgorithm::Fast
    } else if j % 3 == 1 {
        HashAlgorithm::Md5
    } else {
        HashAlgorithm::Sha256
    }
}

/// Picks the palette strategy for probe position `j`.
pub(crate) fn palette_entry(j: usize) -> (r: HashAlgorithm)
    ensures
        r == palette_alg(j as int),
{
    let rem: usize = j % 3;
    if rem == 0 {
        HashAlgorithm::Fast
    } else if rem == 1 {
        HashAlgorithm::Md5
    } else {
        HashAlgorithm::Sha256
    }
}

/// The MD5 digest of a byte sequence.
pub uninterp spec fn spec_md5_digest(input: Seq<u8>) -> Seq<u8>;

/// The SHA-256 digest of a byte sequence.
pub uninterp spec fn spec_sha256_digest(input: Seq<u8>) -> Seq<u8>;

/// Relies on the md5 crate's `Md5` through the `Digest` trait: the digest
/// is a pure function of the input bytes and is always 16 bytes long.
#[verifier::external_body]
fn md5_digest(input: &[u8]) -> (r: Vec<u8>)
    ensures
        r@ == spec_md5_digest(input@),
        r@.len() == 16,
{
    let digest = <md5::Md5 as md5::Digest>::digest(input);
    digest.to_vec()
}

/// Relies on the sha2 crate's `Sha256` through the `Digest` trait: the
/// digest is a pure function of the input bytes and is always 32 bytes long.
#[verifier::external_body]
fn sha256_digest(input: &[u8]) -> (r: Vec<u8>)
    ensures
        r@ == spec_sha256_digest(input@),
        r@.len() == 32,
{
    let digest = <sha2::Sha256 as sha2::Digest>::digest(input);
    digest.to_vec()
}

/// Folds a digest's bytes into a single 64-bit value by shifting the
/// accumulator left by eight bits and OR-ing in the next byte (a big-endian
/// byte-to-integer fold with well-defined wrap-around, so on a digest longer
/// than eight bytes only the last eight matter).
pub open spec fn spec_fold_bytes(s: Seq<u8>) -> u64
    decreases s.len(),
{
    if s.len() == 0 {
        0u64
    } else {
        (spec_fold_bytes(s.drop_last()) << 8) | (s.last() as u64)
    }
}

/// Computes the big-endian fold of a byte sequence into a `u64`.
pub fn fold_bytes(bytes: &Vec<u8>) -> (r: u64)
    ensures
        r == spec_fold_bytes(bytes@),
{
    let mut acc: u64 = 0;
    let mut i: usize = 0;
    while i < bytes.len()
        invariant
            0 <= i <= bytes@.len(),
            acc == spec_fold_bytes(bytes@.take(i as int)),
        decreases bytes@.len() - i,
    {
        acc = (acc << 8) | (bytes[i] as u64);
        proof {
            assert(bytes@.take(i + 1).drop_last() =~= bytes@.take(i as int));
            assert(bytes@.take(i + 1).last() == bytes@[i as int]);
        }
        i = i + 1;
    }
    proof {
        assert(bytes@.take(bytes@.len() as int) =~= bytes@);
    }
    acc
}

/// The 64-bit hash that strategy `alg` derives from a base hash.
pub open spec fn spec_strategy_hash(base: u64, alg: HashAlgorithm) -> u64 {
    match alg {
        HashAlgorithm::Fast => base,
        HashAlgorithm::Md5 => spec_fold_bytes(
            spec_md5_digest(vstd::bytes::spec_u64_to_le_bytes(base)),
        ),
        HashAlgorithm::Sha256 => spec_fold_bytes(
            spec_sha256_digest(vstd::bytes::spec_u64_to_le_bytes(base)),
        ),
    }
}

/// Applies strategy `alg` to a base hash.
pub(crate) fn strategy_hash(base: u64, alg: HashAlgorithm) -> (r: u64)
    ensures
        r == spec_strategy_hash(base, alg),
{
    match alg {
        HashAlgorithm::Fast => base,
        HashAlgorithm::Md5 => {
            let bytes = vstd::bytes::u64_to_le_bytes(base);
            let digest = md5_digest(bytes.as_slice());
            fold_bytes(&digest)
        },
        HashAlgorithm::Sha256 => {
            let bytes = vstd::bytes::u64_to_le_bytes(base);
            let digest = sha256_digest(bytes.as_slice());
            fold_bytes(&digest)
        },
    }
}

/// Relies on `core::hash::Hash::hash`: feeds the value's structural content
/// to the hasher. Nothing is assumed about the bytes it writes.
#[verifier::external_body]
fn feed_hasher<T: core::hash::Hash>(value: &T, hasher: &mut DefaultHasher) {
    core::hash::Hash::hash(value, hasher);
}

/// Computes the base 64-bit hash of a value with the standard library's
/// general-purpose hasher. The result is deterministic for values of equal
/// structural content, but nothing about it is stated here: every caller
/// must hold for any value the hasher may return.
pub(crate) fn base_hash<T: core::hash::Hash>(value: &T) -> u64 {
    let mut hasher = DefaultHasher::new();
    feed_hasher(value, &mut hasher);
    core::hash::Hasher::finish(&hasher)
}

} // verus!
