//! Caching layers for repositories, chosen per repository at compile time.
use dashmap::DashMap;
use std::marker::PhantomData;
use std::sync::Arc;
use vstd::prelude::*;

use crate::entities::prefix_trie_node::PrefixTrieNode;
use crate::text::copy_string;

verus! {

/// An entity that a repository can cache under a key of its own.
pub trait Cacheable: Sized {
    /// The key the entity is cached under.
    fn cache_key(&self) -> String;
}

impl Cacheable for PrefixTrieNode {
    /// A node is cached under its prefix.
    fn cache_key(&self) -> (r: String)
        ensures
            r@ == self.prefix@,
    {
        copy_string(&self.prefix)
    }
}

/// The behaviour of a caching layer.
pub trait CacheStrategy<T>: Sized {
    /// A new, empty cache.
    fn new() -> Self;

    /// The cached item of `key`, if any.
    fn get_from_cache(&self, key: &str) -> Option<T>;

    /// Caches `value` under `key`.
    fn insert_into_cache(&self, key: String, value: T);
}

/// A caching layer that caches nothing.
pub struct NoCache<T>(pub PhantomData<T>);

impl<T: Cacheable> CacheStrategy<T> for NoCache<T> {
    fn new() -> (r: Self)
        ensures
            r == NoCache::<T>(PhantomData),
    {
        NoCache(PhantomData)
    }

    /// Nothing is ever cached.
    fn get_from_cache(&self, key: &str) -> (r: Option<T>)
        ensures
            r is None,
    {
        None
    }

    /// Forgets the value.
    fn insert_into_cache(&self, key: String, value: T) {
    }
}

/// `dashmap::DashMap`, a map that many threads can share and change
/// through shared references.
#[verifier::external_type_specification]
#[verifier::external_body]
#[verifier::reject_recursive_types(K)]
#[verifier::reject_recursive_types(V)]
#[verifier::reject_recursive_types(S)]
pub struct ExDashMap<K, V, S>(DashMap<K, V, S>);

/// `DashMap::new`: an empty map. The map is changed through shared
/// references and shared between the clones of a cache, so no contract
/// over its contents could hold; none is stated here or below.
#[verifier::external_body]
fn new_cache_map<T>() -> Arc<DashMap<String, T>> {
    Arc::new(DashMap::new())
}

/// `DashMap::get`, cloning the value found under `key`, if any.
#[verifier::external_body]
fn cached_value<T: Clone>(map: &Arc<DashMap<String, T>>, key: &str) -> Option<T> {
    map.get(key).map(|v| v.value().clone())
}

/// `DashMap::insert`: stores `value` under `key`, replacing any value there.
#[verifier::external_body]
fn store_cached_value<T>(map: &Arc<DashMap<String, T>>, key: String, value: T) {
    map.insert(key, value);
}

/// A caching layer that keeps entities in a map shared by its clones.
#[derive(Clone)]
#[verifier::reject_recursive_types(T)]
pub struct InMemoryCache<T> {
    cache: Arc<DashMap<String, T>>,
}

impl<T: Cacheable + Clone> CacheStrategy<T> for InMemoryCache<T> {
    fn new() -> (r: Self) {
        InMemoryCache { cache: new_cache_map() }
    }

    /// The entity cached under `key`, if any.
    fn get_from_cache(&self, key: &str) -> (r: Option<T>) {
        cached_value(&self.cache, key)
    }

    /// Caches `value` under `key`.
    fn insert_into_cache(&self, key: String, value: T) {
        store_cached_value(&self.cache, key, value)
    }
}

} // verus!
