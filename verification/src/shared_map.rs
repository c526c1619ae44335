//! The concurrent maps of the `dashmap` crate that the middleware keeps its
//! per-key state in, seen through the contents they hold.

use vstd::prelude::*;
use dashmap::DashMap;

verus! {

#[verifier::external_type_specification]
#[verifier::external_body]
#[verifier::reject_recursive_types(K)]
#[verifier::reject_recursive_types(V)]
#[verifier::reject_recursive_types(S)]
pub struct ExDashMap<K, V, S>(DashMap<K, V, S>);

/// The keys held by a set of API keys kept as a `DashMap<String, ()>`.
pub uninterp spec fn key_set_contents(m: DashMap<String, ()>) -> Set<Seq<char>>;

/// `DashMap::new`: a map that holds no key.
#[verifier::external_body]
pub(crate) fn key_set_new() -> (m: DashMap<String, ()>)
    ensures
        key_set_contents(m) == Set::<Seq<char>>::empty(),
{
    DashMap::new()
}

/// `DashMap::insert`: afterwards the map holds `key` besides what it held.
#[verifier::external_body]
pub(crate) fn key_set_insert(m: &mut DashMap<String, ()>, key: String)
    ensures
        key_set_contents(*final(m)) == key_set_contents(*old(m)).insert(key@),
{
    m.insert(key, ());
}

/// `DashMap::contains_key`: whether the map holds `key`.
#[verifier::external_body]
pub(crate) fn key_set_contains(m: &DashMap<String, ()>, key: &str) -> (res: bool)
    ensures
        res == key_set_contents(*m).contains(key@),
{
    m.contains_key(key)
}

/// `DashMap::is_empty`: whether the map holds no key.
#[verifier::external_body]
pub(crate) fn key_set_is_empty(m: &DashMap<String, ()>) -> (res: bool)
    ensures
        res == (key_set_contents(*m) == Set::<Seq<char>>::empty()),
{
    m.is_empty()
}

} // verus!
