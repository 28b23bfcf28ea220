//! The 64-bit content hash that every commitment in this library goes through.
//!
//! Values are hashed through a canonical encoding as a sequence of words, so that a single
//! trusted hash function serves every type.
use vstd::prelude::*;

verus! {

/// The hash of a sequence of words. It depends on the words alone.
pub uninterp spec fn words_hash(words: Seq<u64>) -> u64;

/// Relies on `BuildHasher::hash_one` over std's `DefaultHasher` (created by `Default`, hence with
/// fixed keys): the hash of the slice depends on its contents alone.
#[verifier::external_body]
fn hash_slice(words: &[u64]) -> (r: u64)
    ensures
        r == words_hash(words@),
{
    let builder = std::hash::BuildHasherDefault::<std::collections::hash_map::DefaultHasher>::default();
    std::hash::BuildHasher::hash_one(&builder, words)
}

/// Hashes a sequence of words.
pub fn hash_words(words: &Vec<u64>) -> (r: u64)
    ensures
        r == words_hash(words@),
{
    hash_slice(words.as_slice())
}

} // verus!
