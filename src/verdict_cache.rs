//! A bounded cache of classification verdicts, kept in a `mini_moka` cache.

use mini_moka::unsync::Cache;
use vstd::prelude::*;

verus! {

#[verifier::external_type_specification]
#[verifier::external_body]
#[verifier::reject_recursive_types(K)]
#[verifier::reject_recursive_types(V)]
#[verifier::reject_recursive_types(S)]
pub struct ExCache<K, V, S>(Cache<K, V, S>);

/// Class identifier to verdict.
pub type VerdictCache = Cache<u64, bool>;

/// The entries a verdict cache currently holds.
pub uninterp spec fn cache_contents(c: VerdictCache) -> Map<u64, bool>;

/// Every entry of `after` was in `before`, with the same verdict.
pub open spec fn only_evicted(before: Map<u64, bool>, after: Map<u64, bool>) -> bool {
    forall|k: u64| #[trigger]
        after.contains_key(k) ==> before.contains_key(k) && after[k] == before[k]
}

/// Relies on `Cache::builder().max_capacity(..).build()`: an empty cache.
#[verifier::external_body]
pub(crate) fn cache_with_capacity(capacity: u64) -> (r: VerdictCache)
    ensures
        cache_contents(r).dom() == Set::<u64>::empty(),
{
    Cache::builder().max_capacity(capacity).build()
}

/// Relies on `Cache::get`: a hit returns the stored verdict. The call may
/// evict entries, and never adds or changes one.
#[verifier::external_body]
pub(crate) fn cache_get(c: &mut VerdictCache, k: u64) -> (r: Option<bool>)
    ensures
        only_evicted(cache_contents(*old(c)), cache_contents(*final(c))),
        r matches Some(b) ==> cache_contents(*old(c)).contains_key(k) && cache_contents(
            *old(c),
        )[k] == b,
{
    c.get(&k).copied()
}

/// Relies on `Cache::insert`: afterwards the key maps to the new verdict or
/// is absent (the admission policy may refuse it); other entries may be
/// evicted but never changed.
#[verifier::external_body]
pub(crate) fn cache_insert(c: &mut VerdictCache, k: u64, v: bool)
    ensures
        forall|j: u64| #[trigger]
            cache_contents(*final(c)).contains_key(j) ==> if j == k {
                cache_contents(*final(c))[j] == v
            } else {
                cache_contents(*old(c)).contains_key(j) && cache_contents(*final(c))[j]
                    == cache_contents(*old(c))[j]
            },
{
    c.insert(k, v);
}

} // verus!
