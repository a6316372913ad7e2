//! A hashed index from small integer keys to positions in a vector, kept in
//! an `ahash::AHashMap`.
//!
//! The map is opaque to the verifier. `index_entries` names what it holds, and
//! the functions below state, without proof, what the map's own methods do to
//! that.

use ahash::AHashMap;
use vstd::prelude::*;

verus! {

/// `ahash::AHashMap`, as a type whose inside the verifier does not see.
#[verifier::external_type_specification]
#[verifier::external_body]
#[verifier::reject_recursive_types(K)]
#[verifier::reject_recursive_types(V)]
#[verifier::reject_recursive_types(S)]
pub struct ExAHashMap<K, V, S>(ahash::AHashMap<K, V, S>);

/// `ahash::RandomState`, the hasher state that such a map is made with, as
/// a type whose inside the verifier does not see.
#[verifier::external_type_specification]
#[verifier::external_body]
pub struct ExRandomState(ahash::RandomState);

/// The key-value pairs that the map holds.
pub uninterp spec fn index_entries(map: AHashMap<usize, usize>) -> Map<usize, usize>;

/// `AHashMap::new`: a map that holds nothing.
#[verifier::external_body]
pub(crate) fn index_new() -> (r: AHashMap<usize, usize>)
    ensures
        index_entries(r) =~= Map::empty(),
{
    AHashMap::new()
}

/// `AHashMap::insert`: afterwards the key maps to the value and every other
/// key is as before. Returns the value that the key mapped to before, if any.
#[verifier::external_body]
pub(crate) fn index_insert(map: &mut AHashMap<usize, usize>, key: usize, value: usize) -> (r:
    Option<usize>)
    ensures
        index_entries(*final(map)) == index_entries(*old(map)).insert(key, value),
        r == (if index_entries(*old(map)).dom().contains(key) {
            Some(index_entries(*old(map))[key])
        } else {
            None
        }),
{
    map.insert(key, value)
}

/// `AHashMap::get`: the value that the key maps to, if the map holds the key.
#[verifier::external_body]
pub(crate) fn index_get(map: &AHashMap<usize, usize>, key: usize) -> (r: Option<usize>)
    ensures
        r == (if index_entries(*map).dom().contains(key) {
            Some(index_entries(*map)[key])
        } else {
            None
        }),
{
    map.get(&key).copied()
}

/// `HashMap::contains_key`, reached through the map's `Deref`: whether the
/// map holds the key.
#[verifier::external_body]
pub(crate) fn index_contains_key(map: &AHashMap<usize, usize>, key: usize) -> (r: bool)
    ensures
        r == index_entries(*map).dom().contains(key),
{
    map.contains_key(&key)
}

} // verus!
