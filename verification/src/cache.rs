//! A small memo of blurred images, keyed by image identity and blur
//! strength, that empties itself rather than grow past a fixed size.
use vstd::prelude::*;
use std::collections::HashMap;

verus! {

broadcast use vstd::std_specs::hash::group_hash_axioms;

/// Most entries the blur memo keeps.
pub const BLUR_CACHE_LIMIT: usize = 128;

/// The memo key of an image identity and a blur strength (the bits of
/// the blur sigma).
pub open spec fn cache_key(image_hash: u64, sigma_bits: u32) -> u128 {
    (image_hash * 0x1_0000_0000 + sigma_bits) as u128
}

fn make_key(image_hash: u64, sigma_bits: u32) -> (k: u128)
    ensures
        k == cache_key(image_hash, sigma_bits),
{
    image_hash as u128 * 0x1_0000_0000 + sigma_bits as u128
}

/// Distinct (image, strength) pairs have distinct keys.
pub proof fn lemma_cache_key_injective(h1: u64, s1: u32, h2: u64, s2: u32)
    requires
        cache_key(h1, s1) == cache_key(h2, s2),
    ensures
        h1 == h2,
        s1 == s2,
{
}

/// Memoised results of blurring, at most [`BLUR_CACHE_LIMIT`] of them.
pub struct BlurCache<V> {
    map: HashMap<u128, V>,
}

impl<V> BlurCache<V> {
    /// The memoised results by key.
    pub closed spec fn entries(&self) -> Map<u128, V> {
        self.map@
    }

    /// Never more entries than the limit.
    pub open spec fn wf(&self) -> bool {
        self.entries().len() <= BLUR_CACHE_LIMIT
    }

    /// An empty memo.
    pub fn new() -> (c: Self)
        ensures
            c.wf(),
            c.entries() == Map::<u128, V>::empty(),
    {
        BlurCache { map: HashMap::new() }
    }

    /// The memoised result for an image and blur strength, if any.
    pub fn get(&self, image_hash: u64, sigma_bits: u32) -> (r: Option<&V>)
        ensures
            match r {
                Some(v) => self.entries().contains_key(cache_key(image_hash, sigma_bits))
                    && *v == self.entries()[cache_key(image_hash, sigma_bits)],
                None => !self.entries().contains_key(cache_key(image_hash, sigma_bits)),
            },
    {
        let k = make_key(image_hash, sigma_bits);
        self.map.get(&k)
    }

    /// Number of memoised results.
    pub fn len(&self) -> (n: usize)
        ensures
            n == self.entries().len(),
    {
        self.map.len()
    }

    /// Remember `value` for an image and blur strength. A memo that is full
    /// and does not hold the key yet is emptied first.
    pub fn insert(&mut self, image_hash: u64, sigma_bits: u32, value: V)
        requires
            old(self).wf(),
        ensures
            final(self).wf(),
            final(self).entries() == (if old(self).entries().len() >= BLUR_CACHE_LIMIT
                && !old(self).entries().contains_key(cache_key(image_hash, sigma_bits)) {
                Map::<u128, V>::empty().insert(cache_key(image_hash, sigma_bits), value)
            } else {
                old(self).entries().insert(cache_key(image_hash, sigma_bits), value)
            }),
    {
        let k = make_key(image_hash, sigma_bits);
        if self.map.len() >= BLUR_CACHE_LIMIT && !self.map.contains_key(&k) {
            self.map.clear();
        }
        self.map.insert(k, value);
        proof {
            if old(self).entries().contains_key(k) && !(old(self).entries().len() >= BLUR_CACHE_LIMIT
                && !old(self).entries().contains_key(k)) {
                assert(old(self).entries().insert(k, value).dom() =~= old(self).entries().dom());
            }
        }
    }
}


/// Right after a result is remembered it is found again, and the memo stays
/// within its limit.
pub proof fn lemma_insert_then_get<V>(before: Map<u128, V>, after: Map<u128, V>, image_hash: u64, sigma_bits: u32, value: V)
    requires
        before.dom().finite(),
        before.len() <= BLUR_CACHE_LIMIT,
        after == (if before.len() >= BLUR_CACHE_LIMIT && !before.contains_key(
            cache_key(image_hash, sigma_bits),
        ) {
            Map::<u128, V>::empty().insert(cache_key(image_hash, sigma_bits), value)
        } else {
            before.insert(cache_key(image_hash, sigma_bits), value)
        }),
    ensures
        after.contains_key(cache_key(image_hash, sigma_bits)),
        after[cache_key(image_hash, sigma_bits)] == value,
        after.len() <= BLUR_CACHE_LIMIT,
{
    let k = cache_key(image_hash, sigma_bits);
    if !(before.len() >= BLUR_CACHE_LIMIT && !before.contains_key(k)) {
        if before.contains_key(k) {
            assert(before.insert(k, value).dom() =~= before.dom());
        }
    }
}

} // verus!
