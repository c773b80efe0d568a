//! A probabilistic duplicate filter over a Bloom filter: it never lets an
//! inserted token through, and may refuse some tokens it was never given.

use bloomfilter::Bloom;
use vstd::prelude::*;

use crate::filter_box::base::Entry;

verus! {

/// `bloomfilter::Bloom`, held opaque.
#[verifier::external_type_specification]
#[verifier::external_body]
#[verifier::reject_recursive_types(T)]
pub struct ExBloom<T: ?Sized>(bloomfilter::Bloom<T>);

/// The entries set into a Bloom filter since it was made, each taken as its
/// 32 bytes.
pub uninterp spec fn bloom_items(b: Bloom<Entry>) -> Set<Seq<u8>>;

/// What `Bloom::check` answers for an entry: whether all of the entry's bits
/// are set.
pub uninterp spec fn bloom_check(b: Bloom<Entry>, item: Seq<u8>) -> bool;

/// The number of bits of a Bloom filter.
pub uninterp spec fn bloom_bits(b: Bloom<Entry>) -> u64;

/// `Bloom::new_with_seed`: an empty filter of `bitmap_size` bytes, sized for
/// `items_count` entries, whose hash keys are taken from `seed`. It cannot
/// fail for positive sizes whose bit count fits in a `u64`.
#[verifier::external_body]
fn bloom_with_seed(bitmap_size: usize, items_count: usize, seed: &[u8; 32]) -> (r: Bloom<Entry>)
    requires
        bitmap_size > 0,
        items_count > 0,
        bitmap_size * 8 <= u64::MAX,
    ensures
        bloom_items(r) == Set::<Seq<u8>>::empty(),
        bloom_bits(r) == bitmap_size * 8,
{
    Bloom::new_with_seed(bitmap_size, items_count, seed).unwrap()
}

/// `Bloom::check`: whether the entry's bits are all set. An entry that was
/// set is always found (no false negatives).
#[verifier::external_body]
fn bloom_check_entry(b: &Bloom<Entry>, item: &Entry) -> (r: bool)
    requires
        bloom_bits(*b) > 0,
    ensures
        r == bloom_check(*b, item@),
        bloom_items(*b).contains(item@) ==> r,
{
    b.check(item)
}

/// `Bloom::set`: sets the entry's bits. Afterwards the entry is found, every
/// entry found before is still found, and the size is unchanged.
#[verifier::external_body]
fn bloom_set(b: &mut Bloom<Entry>, item: &Entry)
    requires
        bloom_bits(*old(b)) > 0,
    ensures
        bloom_items(*final(b)) == bloom_items(*old(b)).insert(item@),
        bloom_bits(*final(b)) == bloom_bits(*old(b)),
        bloom_check(*final(b), item@),
        forall|t: Seq<u8>| bloom_check(*old(b), t) ==> #[trigger] bloom_check(*final(b), t),
{
    b.set(item)
}

/// A Bloom filter of tokens.
pub struct BloomFilterBox {
    inner: Bloom<Entry>,
}

impl BloomFilterBox {
    /// The tokens inserted so far.
    pub closed spec fn tokens(&self) -> Set<Seq<u8>> {
        bloom_items(self.inner)
    }

    /// Whether `test` calls a token new: not all of its bits are set.
    pub closed spec fn admits(&self, token: Seq<u8>) -> bool {
        !bloom_check(self.inner, token)
    }

    /// The filter has bits.
    pub closed spec fn wf(&self) -> bool {
        bloom_bits(self.inner) > 0
    }

    /// An empty filter of `bitmap_size` bytes sized for `items_count`
    /// entries, with a fixed all-zero seed.
    pub fn with_sizes(bitmap_size: usize, items_count: usize) -> (r: Self)
        requires
            bitmap_size > 0,
            items_count > 0,
            bitmap_size * 8 <= u64::MAX,
        ensures
            r.wf(),
            r.tokens() == Set::<Seq<u8>>::empty(),
    {
        let seed: [u8; 32] = [0u8; 32];
        Self { inner: bloom_with_seed(bitmap_size, items_count, &seed) }
    }

    /// A filter of `bitmap_size` bytes sized for `items_count` entries,
    /// holding `tokens`.
    pub fn with_entries(bitmap_size: usize, items_count: usize, tokens: &[Entry]) -> (r: Self)
        requires
            bitmap_size > 0,
            items_count > 0,
            bitmap_size * 8 <= u64::MAX,
        ensures
            r.wf(),
            forall|i: int| 0 <= i < tokens@.len() ==> #[trigger] r.tokens().contains(tokens@[i]@),
    {
        let mut filter = Self::with_sizes(bitmap_size, items_count);
        let mut i: usize = 0;
        while i < tokens.len()
            invariant
                0 <= i <= tokens@.len(),
                filter.wf(),
                forall|k: int| 0 <= k < i ==> #[trigger] filter.tokens().contains(tokens@[k]@),
            decreases tokens@.len() - i,
        {
            let _ = filter.insert(&tokens[i]);
            i = i + 1;
        }
        filter
    }

    /// Remembers a token; it is never admitted again.
    pub fn insert(&mut self, token: &Entry) -> (r: std::io::Result<()>)
        requires
            old(self).wf(),
        ensures
            r is Ok,
            final(self).wf(),
            final(self).tokens() == old(self).tokens().insert(token@),
            !final(self).admits(token@),
            forall|t: Seq<u8>| !old(self).admits(t) ==> !#[trigger] final(self).admits(t),
    {
        bloom_set(&mut self.inner, token);
        Ok(())
    }

    /// Whether a token is new to the filter; an inserted token never is.
    pub fn test(&self, token: &Entry) -> (r: bool)
        requires
            self.wf(),
        ensures
            r == self.admits(token@),
            self.tokens().contains(token@) ==> !r,
    {
        !bloom_check_entry(&self.inner, token)
    }

    /// Tests a token and, when it is new, remembers it: `Ok(true)` for a
    /// token the filter admits, which is then inserted, and `Ok(false)` for
    /// one it refuses, which changes nothing.
    pub fn test_and_insert(&mut self, token: &Entry) -> (r: std::io::Result<bool>)
        requires
            old(self).wf(),
        ensures
            final(self).wf(),
            r matches Ok(b) && b == old(self).admits(token@),
            old(self).tokens().contains(token@) ==> r matches Ok(false),
            old(self).admits(token@) ==> final(self).tokens() == old(self).tokens().insert(token@),
            !old(self).admits(token@) ==> *final(self) == *old(self),
    {
        let is_new = self.test(token);
        if is_new {
            let _ = self.insert(token);
        }
        Ok(is_new)
    }
}

} // verus!
