//! The ordered maps that hold the sources and the catalog. They are
//! `indexmap::IndexMap`s keyed by the 32 bytes of an identifier; what one
//! holds is known here by name, and each method that the library calls has
//! its contract over that name.

use vstd::prelude::*;
use indexmap::IndexMap;
use crate::asset::{Asset, Metadata};
use crate::source::EntrySource;

verus! {

#[verifier::external_type_specification]
#[verifier::external_body]
#[verifier::reject_recursive_types(K)]
#[verifier::reject_recursive_types(V)]
#[verifier::reject_recursive_types(S)]
pub struct ExIndexMap<K, V, S>(IndexMap<K, V, S>);

/// `key` stands at position `at` of `items`, and at no other.
pub open spec fn keyed_at<K, V>(items: Seq<(K, V)>, key: K, at: int) -> bool {
    &&& 0 <= at < items.len()
    &&& items[at].0 == key
    &&& forall|j: int| 0 <= j < items.len() && (#[trigger] items[j]).0 == key ==> j == at
}

/// `key` stands nowhere in `items`.
pub open spec fn lacks_key<K, V>(items: Seq<(K, V)>, key: K) -> bool {
    forall|j: int| 0 <= j < items.len() ==> (#[trigger] items[j]).0 != key
}

/// No key stands twice in `items`.
pub open spec fn distinct_keys<K, V>(items: Seq<(K, V)>) -> bool {
    forall|i: int, j: int|
        0 <= i < j < items.len() ==> (#[trigger] items[i]).0 != (#[trigger] items[j]).0
}

/// What `items` holds under `key`.
pub open spec fn value_of<K, V>(items: Seq<(K, V)>, key: K) -> Option<V> {
    if exists|at: int| keyed_at(items, key, at) {
        Some(items[choose|at: int| keyed_at(items, key, at)].1)
    } else {
        None
    }
}

/// Where a key stands, its value is what the catalog holds under it; a key
/// that stands nowhere has none.
pub proof fn lemma_value_of<K, V>(items: Seq<(K, V)>, key: K)
    ensures
        forall|at: int| keyed_at(items, key, at) ==> value_of(items, key) == Some(items[at].1),
        lacks_key(items, key) ==> value_of(items, key) is None,
{
    assert forall|at: int| keyed_at(items, key, at) implies value_of(items, key) == Some(
        items[at].1,
    ) by {
        let chosen = choose|a: int| keyed_at(items, key, a);
        assert(keyed_at(items, key, chosen));
        assert(items[chosen].0 == key);
    }
    if lacks_key(items, key) {
        if exists|at: int| keyed_at(items, key, at) {
            let at = choose|at: int| keyed_at(items, key, at);
            assert(items[at].0 == key);
        }
    }
}

/// Keys that hold the same bytes are the same key.
pub proof fn lemma_key_by_bytes(a: [u8; 32], b: [u8; 32])
    ensures
        a@ == b@ <==> a == b,
{
    if a@ == b@ {
        assert forall|i: int| 0 <= i < 32 implies a[i] == b[i] by {
            assert(a@[i] == b@[i]);
        }
        assert(a =~= b);
    }
}

/// The pairs of a catalog, in the order in which their keys came in.
pub uninterp spec fn catalog_items(m: IndexMap<[u8; 32], Asset>) -> Seq<([u8; 32], Asset)>;

/// The pairs of a source of entries, in the order in which their keys came
/// in.
pub uninterp spec fn source_items(m: IndexMap<[u8; 32], EntrySource>) -> Seq<
    ([u8; 32], EntrySource),
>;

/// What a source of classifications holds, key by key.
pub uninterp spec fn metadata_of(m: IndexMap<[u8; 32], Metadata>) -> Map<[u8; 32], Metadata>;

/// What a source of icons holds, key by key.
pub uninterp spec fn icons_of(m: IndexMap<[u8; 32], String>) -> Map<[u8; 32], String>;

/// `IndexMap::new`: a map that holds nothing.
#[verifier::external_body]
pub(crate) fn catalog_new() -> (m: IndexMap<[u8; 32], Asset>)
    ensures
        catalog_items(m) == Seq::<([u8; 32], Asset)>::empty(),
{
    IndexMap::new()
}

/// `IndexMap::insert`: a key that the map lacks goes to the end with its
/// value, and nothing is returned; under a key that the map has, the value
/// is replaced where it stands and the one it replaces is returned.
#[verifier::external_body]
pub(crate) fn catalog_insert(m: &mut IndexMap<[u8; 32], Asset>, key: [u8; 32], asset: Asset) -> (previous:
    Option<Asset>)
    ensures
        lacks_key(catalog_items(*old(m)), key) ==> previous is None && catalog_items(*final(m))
            == catalog_items(*old(m)).push((key, asset)),
        forall|at: int|
            keyed_at(catalog_items(*old(m)), key, at) ==> previous == Some(
                catalog_items(*old(m))[at].1,
            ) && catalog_items(*final(m)) == catalog_items(*old(m)).update(at, (key, asset)),
{
    m.insert(key, asset)
}

/// `IndexMap::len`: the number of pairs.
#[verifier::external_body]
pub(crate) fn catalog_len(m: &IndexMap<[u8; 32], Asset>) -> (n: usize)
    ensures
        n == catalog_items(*m).len(),
{
    m.len()
}

/// `IndexMap::get_index`: the pair at a position, if the map reaches that
/// far. Its key stands at no other position.
#[verifier::external_body]
pub(crate) fn catalog_get_index(m: &IndexMap<[u8; 32], Asset>, index: usize) -> (r: Option<
    (&[u8; 32], &Asset),
>)
    ensures
        match r {
            Some((key, asset)) => keyed_at(catalog_items(*m), *key, index as int)
                && catalog_items(*m)[index as int].1 == *asset,
            None => index >= catalog_items(*m).len(),
        },
{
    m.get_index(index)
}

/// `IndexMap::get`: the value under a key, if the map has the key.
#[verifier::external_body]
pub(crate) fn catalog_get<'a>(m: &'a IndexMap<[u8; 32], Asset>, key: &[u8; 32]) -> (r: Option<
    &'a Asset,
>)
    ensures
        match r {
            Some(asset) => exists|at: int|
                keyed_at(catalog_items(*m), *key, at) && catalog_items(*m)[at].1 == *asset,
            None => lacks_key(catalog_items(*m), *key),
        },
{
    m.get(key)
}

/// `IndexMap::len`: the number of pairs.
#[verifier::external_body]
pub(crate) fn source_len(m: &IndexMap<[u8; 32], EntrySource>) -> (n: usize)
    ensures
        n == source_items(*m).len(),
{
    m.len()
}

/// `IndexMap::get_index`: the pair at a position, if the map reaches that
/// far. Its key stands at no other position.
#[verifier::external_body]
pub(crate) fn source_get_index(m: &IndexMap<[u8; 32], EntrySource>, index: usize) -> (r: Option<
    (&[u8; 32], &EntrySource),
>)
    ensures
        match r {
            Some((key, source)) => keyed_at(source_items(*m), *key, index as int)
                && source_items(*m)[index as int].1 == *source,
            None => index >= source_items(*m).len(),
        },
{
    m.get_index(index)
}

/// `IndexMap::get`: the value under a key, if the map has the key.
#[verifier::external_body]
pub(crate) fn metadata_get<'a>(m: &'a IndexMap<[u8; 32], Metadata>, key: &[u8; 32]) -> (r: Option<
    &'a Metadata,
>)
    ensures
        match r {
            Some(metadata) => metadata_of(*m).contains_key(*key) && metadata_of(*m)[*key]
                == *metadata,
            None => !metadata_of(*m).contains_key(*key),
        },
{
    m.get(key)
}

/// `IndexMap::get`: the value under a key, if the map has the key.
#[verifier::external_body]
pub(crate) fn icons_get<'a>(m: &'a IndexMap<[u8; 32], String>, key: &[u8; 32]) -> (r: Option<
    &'a String,
>)
    ensures
        match r {
            Some(icon) => icons_of(*m).contains_key(*key) && icons_of(*m)[*key] == *icon,
            None => !icons_of(*m).contains_key(*key),
        },
{
    m.get(key)
}

} // verus!
