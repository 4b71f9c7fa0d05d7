//! The hash maps of the interpreter: `rustc_hash::FxHashMap`, which is std's
//! `HashMap` with the deterministic Fx hasher. Verus knows std's map only
//! for hashers it has been told about, so the calls this crate makes on an
//! Fx-hashed map are stated here, over the map's view.

use rustc_hash::FxHashMap;
use rustc_hash::FxHasher;
use vstd::prelude::*;

verus! {

#[verifier::external_type_specification]
#[verifier::external_body]
pub struct ExFxHasher(FxHasher);

#[verifier::external_type_specification]
#[verifier::external_body]
#[verifier::reject_recursive_types(H)]
pub struct ExBuildHasherDefault<H>(std::hash::BuildHasherDefault<H>);

/// `FxHashMap::default()`: a fresh map holds no entry.
#[verifier::external_body]
pub(crate) fn fx_new<V>() -> (r: FxHashMap<usize, V>)
    ensures
        r@ == (Map::<usize, V>::empty()),
{
    FxHashMap::default()
}

/// `HashMap::insert` on an Fx-hashed map: the key is bound to the new value,
/// and the value it was bound to before, if any, comes back.
#[verifier::external_body]
pub(crate) fn fx_insert<V>(m: &mut FxHashMap<usize, V>, k: usize, v: V) -> (r: Option<V>)
    ensures
        final(m)@ == old(m)@.insert(k, v),
        r == (if old(m)@.contains_key(k) { Some(old(m)@[k]) } else { None::<V> }),
{
    m.insert(k, v)
}

/// `HashMap::get` on an Fx-hashed map: the value bound to the key, if any.
#[verifier::external_body]
pub(crate) fn fx_get<'a, V>(m: &'a FxHashMap<usize, V>, k: usize) -> (r: Option<&'a V>)
    ensures
        r == (if m@.contains_key(k) { Some(&m@[k]) } else { None::<&V> }),
{
    m.get(&k)
}

/// `HashMap::get_mut` on an Fx-hashed map, for a key that is bound: the
/// place of its value. What is written there is what the key is bound to
/// afterwards; no other binding changes.
#[verifier::external_body]
pub(crate) fn fx_get_mut<'a, V>(m: &'a mut FxHashMap<usize, V>, k: usize) -> (r: &'a mut V)
    requires
        old(m)@.contains_key(k),
    ensures
        *r == old(m)@[k],
        final(m)@ == old(m)@.insert(k, *final(r)),
{
    m.get_mut(&k).unwrap()
}

/// `HashMap::contains_key` on an Fx-hashed map.
#[verifier::external_body]
pub(crate) fn fx_contains<V>(m: &FxHashMap<usize, V>, k: usize) -> (r: bool)
    ensures
        r == m@.contains_key(k),
{
    m.contains_key(&k)
}

/// `HashMap::keys` on an Fx-hashed map, collected: every key of the map
/// once, in the order in which the map happens to be walked.
#[verifier::external_body]
pub(crate) fn fx_keys<V>(m: &FxHashMap<usize, V>) -> (r: Vec<usize>)
    ensures
        r@.no_duplicates(),
        r@.to_set() == m@.dom(),
{
    m.keys().copied().collect()
}

/// What a map from names to numbers holds, by the characters of each name.
pub uninterp spec fn name_index(m: FxHashMap<String, usize>) -> Map<Seq<char>, usize>;

/// `FxHashMap::default()` for a map keyed by names.
#[verifier::external_body]
pub(crate) fn fx_names_new() -> (r: FxHashMap<String, usize>)
    ensures
        name_index(r) == (Map::<Seq<char>, usize>::empty()),
{
    FxHashMap::default()
}

/// `HashMap::get` on a map keyed by names: strings are equal, and hash
/// alike, exactly when they hold the same characters.
#[verifier::external_body]
pub(crate) fn fx_names_get(m: &FxHashMap<String, usize>, name: &str) -> (r: Option<usize>)
    ensures
        r == (if name_index(*m).contains_key(name@) {
            Some(name_index(*m)[name@])
        } else {
            None::<usize>
        }),
{
    m.get(name).copied()
}

/// `HashMap::insert` on a map keyed by names.
#[verifier::external_body]
pub(crate) fn fx_names_insert(m: &mut FxHashMap<String, usize>, name: String, id: usize)
    ensures
        name_index(*final(m)) == name_index(*old(m)).insert(name@, id),
{
    m.insert(name, id);
}

/// `HashMap::clone` on a map keyed by names.
#[verifier::external_body]
pub(crate) fn fx_names_clone(m: &FxHashMap<String, usize>) -> (r: FxHashMap<String, usize>)
    ensures
        name_index(r) == name_index(*m),
{
    m.clone()
}

} // verus!
