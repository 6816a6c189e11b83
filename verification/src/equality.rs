//! Content equality and hashing. Two ropes are equal when they report the same
//! length and their contents have the same 64-bit XXH3 digest, however the
//! contents are split into chunks.
use crate::buffer::Rope;
use std::borrow::Cow;
use std::collections::hash_map::DefaultHasher;
use std::hash::Hasher;
use vstd::prelude::*;
use vstd::std_specs::cmp::PartialEqSpec;

verus! {

/// The 64-bit XXH3 digest, with seed 0, of a byte sequence.
pub uninterp spec fn xxh3_64(bytes: Seq<u8>) -> u64;

/// `twox_hash::xxh3::hash64`: the digest of `bytes` as a whole. It is computed
/// from the bytes alone, so equal byte sequences have equal digests.
#[verifier::external_body]
pub(crate) fn xxh3_hash64(bytes: &[u8]) -> (digest: u64)
    ensures
        digest == xxh3_64(bytes@),
{
    twox_hash::xxh3::hash64(bytes)
}

impl Rope {
    /// The fast content hash: the XXH3 digest of the flattened content. The
    /// hasher is given the content in one piece, so the digest does not
    /// depend on where the chunk boundaries are.
    pub fn content_hash(&self) -> (digest: u64)
        ensures
            digest == xxh3_64(self@),
    {
        match self.flatten() {
            Cow::Borrowed(bytes) => xxh3_hash64(bytes.as_slice()),
            Cow::Owned(bytes) => xxh3_hash64(bytes.as_slice()),
        }
    }

    /// Whether two ropes with the given lengths and content hashes count as
    /// equal: the lengths are the same, and so are the hashes.
    pub fn same_content(len: usize, hash: u64, other_len: usize, other_hash: u64) -> (same: bool)
        ensures
            same == (len == other_len && hash == other_hash),
    {
        len == other_len && hash == other_hash
    }

    /// Feeds the content to `state`, in one write, so that ropes with the same
    /// content feed the same bytes whatever their chunks are.
    pub fn hash(&self, state: &mut DefaultHasher)
        ensures
            final(state)@ == old(state)@.push(self@),
    {
        match self.flatten() {
            Cow::Borrowed(bytes) => state.write(bytes.as_slice()),
            Cow::Owned(bytes) => state.write(bytes.as_slice()),
        }
    }

    /// Ropes of different lengths are not equal, whatever their hashes are.
    pub proof fn lemma_lengths_differ(&self, other: &Rope)
        requires
            self.wf(),
            other.wf(),
            self@.len() != other@.len(),
        ensures
            !self.eq_spec(other),
    {
        self.lemma_cached_len();
        other.lemma_cached_len();
    }

    /// Ropes with the same content are equal and have the same content hash,
    /// however each of them is split into chunks.
    pub proof fn lemma_same_content(&self, other: &Rope)
        requires
            self.wf(),
            other.wf(),
            self@ == other@,
        ensures
            self.eq_spec(other),
            xxh3_64(self@) == xxh3_64(other@),
    {
        self.lemma_cached_len();
        other.lemma_cached_len();
    }
}

impl PartialEq for Rope {
    /// Compares the lengths first, and the content hashes only if the lengths
    /// are the same.
    fn eq(&self, other: &Self) -> (equal: bool)
    {
        let len: usize = self.len();
        let other_len: usize = other.len();
        if len != other_len {
            return false;
        }
        Rope::same_content(len, self.content_hash(), other_len, other.content_hash())
    }
}

impl vstd::std_specs::cmp::PartialEqSpecImpl for Rope {
    open spec fn obeys_eq_spec() -> bool {
        true
    }

    open spec fn eq_spec(&self, other: &Self) -> bool {
        self.cached_len() == other.cached_len() && xxh3_64(self@) == xxh3_64(other@)
    }
}

impl Eq for Rope {

}

} // verus!
