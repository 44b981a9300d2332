//! The class index: a `multimap` from class identifier to the identifiers of
//! the objects that declare it.

use multimap::MultiMap;
use vstd::prelude::*;

verus! {

#[verifier::external_type_specification]
#[verifier::external_body]
#[verifier::reject_recursive_types(K)]
#[verifier::reject_recursive_types(V)]
#[verifier::reject_recursive_types(S)]
pub struct ExMultiMap<K, V, S>(MultiMap<K, V, S>);

/// Class identifier to object identifiers, in insertion order.
pub type ClassIndex = MultiMap<u64, u64>;

/// What a class index holds: each key present maps to its values in the order
/// they were inserted.
pub uninterp spec fn index_contents(m: ClassIndex) -> Map<u64, Seq<u64>>;

/// Relies on `MultiMap::new`: an empty multimap.
#[verifier::external_body]
pub(crate) fn index_new() -> (r: ClassIndex)
    ensures
        index_contents(r).dom() == Set::<u64>::empty(),
{
    MultiMap::new()
}

/// Relies on `MultiMap::insert`: the value is appended to the key's vector, or
/// a one-element vector is created for a new key.
#[verifier::external_body]
pub(crate) fn index_insert(m: &mut ClassIndex, k: u64, v: u64)
    ensures
        index_contents(*final(m)) == (if index_contents(*old(m)).contains_key(k) {
            index_contents(*old(m)).insert(k, index_contents(*old(m))[k].push(v))
        } else {
            index_contents(*old(m)).insert(k, seq![v])
        }),
{
    m.insert(k, v);
}

/// Relies on `MultiMap::get_vec`: the values of a present key, `None` for an
/// absent one.
#[verifier::external_body]
pub(crate) fn index_get(m: &ClassIndex, k: u64) -> (r: Option<&Vec<u64>>)
    ensures
        match r {
            Some(v) => index_contents(*m).contains_key(k) && v@ == index_contents(*m)[k],
            None => !index_contents(*m).contains_key(k),
        },
{
    m.get_vec(&k)
}

} // verus!
