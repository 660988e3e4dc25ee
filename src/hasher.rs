//! Accumulates the words that a widget tree's layout hash is made of.
use vstd::prelude::*;

verus! {

/// The fixed-width digest of a word stream, as std's `DefaultHasher`
/// computes it.
pub uninterp spec fn default_digest(words: Seq<u64>) -> u64;

/// Relies on `BuildHasher::hash_one` over `BuildHasherDefault<DefaultHasher>`:
/// every hasher it builds starts from the same fixed state, so the digest
/// depends on the words alone.
#[verifier::external_body]
fn digest(words: &[u64]) -> (r: u64)
    ensures
        r == default_digest(words@),
{
    std::hash::BuildHasher::hash_one(&std::hash::BuildHasherDefault::<std::collections::hash_map::DefaultHasher>::default(), words)
}

/// The state of a structural hash: the words written so far.
pub struct Hasher {
    words: Vec<u64>,
}

impl View for Hasher {
    type V = Seq<u64>;

    closed spec fn view(&self) -> Seq<u64> {
        self.words@
    }
}

impl Hasher {
    /// A hasher with nothing written yet.
    pub fn new() -> (r: Hasher)
        ensures
            r@ == Seq::<u64>::empty(),
    {
        Hasher { words: Vec::new() }
    }

    /// Appends one word.
    pub fn write(&mut self, word: u64)
        ensures
            final(self)@ == old(self)@.push(word),
    {
        self.words.push(word);
    }

    /// The fingerprint of everything written.
    pub fn finish(&self) -> (r: u64)
        ensures
            r == default_digest(self@),
    {
        digest(self.words.as_slice())
    }
}

} // verus!
