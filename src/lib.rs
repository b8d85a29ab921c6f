//! An embedded document store: a collection of typed records addressed by
//! caller keys, kept by a pluggable storage engine behind an in-memory cache.
//!
//! A collection serves one writer in one process. Between the existence
//! check of `insert` or `modify` and the write that follows it, another
//! writer of the same data directory could interleave: guard a shared
//! directory with a lock of your own.
use vstd::prelude::*;

pub mod cache;
pub mod config;
pub mod errors;
pub mod keys;
pub mod memory;
pub mod storage;

use crate::cache::{
    cache_map, cache_wf, distinct_keys, from_entries, lemma_cache_keys_only, lemma_cache_map_keys,
    lemma_cache_map_push, pairs, take,
};
use crate::config::{Config, ConfigView};
use crate::errors::Errors;
use crate::keys::{derive_key, internal_key, prefix_of};
use crate::storage::StorageEngine;

verus! {

/// What a collection holds, by internal key: the values in its cache, and
/// the records its storage engine keeps.
pub struct CollectionView<T> {
    pub cache: Map<Seq<char>, T>,
    pub stored: Map<Seq<char>, T>,
}

impl<T> CollectionView<T> {
    /// The value a read of internal key `k` finds: the cached one first,
    /// then the stored one.
    pub open spec fn lookup(self, k: Seq<char>) -> Option<T> {
        if self.cache.contains_key(k) {
            Some(self.cache[k])
        } else if self.stored.contains_key(k) {
            Some(self.stored[k])
        } else {
            None
        }
    }

    /// The state with `k` taken out of the cache.
    pub open spec fn evicted(self, k: Seq<char>) -> CollectionView<T> {
        CollectionView { cache: self.cache.remove(k), stored: self.stored }
    }

    /// The state after `v` is written as the record of `k`.
    pub open spec fn inserted(self, k: Seq<char>, v: T) -> CollectionView<T> {
        CollectionView { cache: self.cache.remove(k), stored: self.stored.insert(k, v) }
    }

    /// The state after the record of `k` is deleted.
    pub open spec fn removed(self, k: Seq<char>) -> CollectionView<T> {
        CollectionView { cache: self.cache.remove(k), stored: self.stored.remove(k) }
    }

    /// The state with nothing cached and nothing stored.
    pub open spec fn emptied(self) -> CollectionView<T> {
        CollectionView { cache: Map::empty(), stored: Map::empty() }
    }
}

/// A read after a successful write of `v` under `k`, by `insert` or by
/// `modify`, finds `v`: `get` returns exactly `lookup` on a reliable
/// engine, and whenever it does not fail.
pub proof fn lemma_read_after_write<T>(s: CollectionView<T>, k: Seq<char>, v: T)
    ensures
        s.inserted(k, v).lookup(k) == Some(v),
        !s.inserted(k, v).cache.contains_key(k) && s.inserted(k, v).stored.contains_key(k),
{
}

/// After a successful insert of `v1` under `k`, `k` is present, so a second
/// insert under `k` fails: with `AlreadyExists` on a reliable engine, and
/// otherwise unless the engine cannot read the record back. The state that
/// failure leaves still holds `v1`.
pub proof fn lemma_insert_twice<T>(s: CollectionView<T>, k: Seq<char>, v1: T)
    requires
        s.lookup(k) is None,
    ensures
        s.inserted(k, v1).lookup(k) is Some,
        s.inserted(k, v1).evicted(k).stored[k] == v1,
        s.inserted(k, v1).evicted(k).lookup(k) == Some(v1),
{
}

/// A key that was never stored cannot be deleted; after a successful insert
/// it is stored, so its delete does not report `EntryNotFound` and succeeds
/// on a reliable engine; after a successful delete a read finds nothing.
pub proof fn lemma_delete<T>(s: CollectionView<T>, k: Seq<char>, v: T)
    ensures
        s.inserted(k, v).stored.contains_key(k),
        s.removed(k).lookup(k) is None,
        s.inserted(k, v).removed(k).lookup(k) is None,
{
}

/// After a successful truncate no key is found.
pub proof fn lemma_truncate<T>(s: CollectionView<T>, k: Seq<char>)
    ensures
        s.emptied().lookup(k) is None,
{
}

/// A modify of a key that is absent leaves the state as it was; a modify
/// that succeeds leaves `v2` to be read.
pub proof fn lemma_modify<T>(s: CollectionView<T>, k: Seq<char>, v2: T)
    ensures
        s.lookup(k) is None ==> s.evicted(k) == s,
        s.inserted(k, v2).lookup(k) == Some(v2),
{
    if s.lookup(k) is None {
        assert(s.cache.remove(k) =~= s.cache);
    }
}

/// A collection of documents of type `T`, kept by storage engine `E` and
/// addressed by caller keys.
///
/// Caller keys are turned into internal keys: the collection prefix
/// followed by the hex MD5 digest of the key. Reads consult the cache before
/// the engine; a read takes its entry out of the cache. Inserts, modifies
/// and deletes reach the engine at once; only changes made through
/// `iter_mut` wait for `flush`.
pub struct Collection<T, E: StorageEngine<T>> {
    config: Config,
    cached_keys: Vec<String>,
    cached_docs: Vec<T>,
    storage_engine: E,
}

impl<T, E: StorageEngine<T>> View for Collection<T, E> {
    type V = CollectionView<T>;

    closed spec fn view(&self) -> CollectionView<T> {
        CollectionView {
            cache: cache_map(pairs(self.cached_keys@, self.cached_docs@)),
            stored: self.storage_engine.stored(self.config@.data_path),
        }
    }
}

impl<T, E: StorageEngine<T>> Collection<T, E> {
    /// The configuration of the collection.
    pub closed spec fn config_view(&self) -> ConfigView {
        self.config@
    }

    /// The collection is well formed: each cached key once, with one value,
    /// and each cached key stored.
    pub closed spec fn wf(&self) -> bool {
        &&& cache_wf(self.cached_keys@, self.cached_docs@)
        &&& self@.cache.dom().subset_of(self@.stored.dom())
    }

    /// Every call of the collection's engine succeeds, but for the absence
    /// of a key.
    pub closed spec fn engine_reliable(&self) -> bool {
        self.storage_engine.reliable()
    }

    /// The internal key of caller key `k` in this collection.
    pub open spec fn key_for(&self, k: Seq<char>) -> Seq<char> {
        internal_key(prefix_of(self.config_view().coll_name), k)
    }

    /// A collection with the given configuration and engine, and an empty
    /// cache.
    pub fn new(config: Config, storage_engine: E) -> (r: Self)
        ensures
            r.wf(),
            r.config_view() == config@,
            r.engine_reliable() == storage_engine.reliable(),
            r@.cache == Map::<Seq<char>, T>::empty(),
            r@.stored == storage_engine.stored(config@.data_path),
    {
        let r = Collection {
            config,
            cached_keys: Vec::new(),
            cached_docs: Vec::new(),
            storage_engine,
        };
        assert(pairs(r.cached_keys@, r.cached_docs@) =~= Seq::<(String, T)>::empty());
        assert(r@.cache =~= Map::<Seq<char>, T>::empty());
        r
    }

    fn _gen_key(&self, pk: &str) -> (r: String)
        ensures
            r@ == self.key_for(pk@),
            r@.len() == 38,
    {
        let prefix = self.config.coll_prefix();
        derive_key(prefix.as_str(), pk)
    }

    /// Finds internal key `pk`: takes it out of the cache, or else asks the
    /// engine.
    fn _find(&mut self, pk: &String) -> (r: Result<Option<T>, Errors>)
        requires
            old(self).wf(),
        ensures
            final(self).wf(),
            final(self).config_view() == old(self).config_view(),
            final(self).engine_reliable() == old(self).engine_reliable(),
            final(self)@ == old(self)@.evicted(pk@),
            r matches Ok(o) ==> o == old(self)@.lookup(pk@),
            old(self)@.cache.contains_key(pk@) || !old(self)@.stored.contains_key(pk@)
                || old(self).engine_reliable() ==> r == Ok::<Option<T>, Errors>(
                old(self)@.lookup(pk@),
            ),
            r matches Err(e) ==> e == Errors::FsError || e == Errors::CodecError,
    {
        let r = match take(&mut self.cached_keys, &mut self.cached_docs, pk) {
            Some(e) => Ok(Some(e)),
            None => self.storage_engine.find_in_storage(self.config.data_path(), pk.as_str()),
        };
        r
    }

    /// Reads the document of caller key `k`: the cached value if there is
    /// one, which leaves the cache, or else the stored one. `Ok(None)` when
    /// neither cache nor engine has it; an error when the engine holds it but
    /// cannot read it. A value read from the engine is not cached.
    pub fn get(&mut self, k: &str) -> (r: Result<Option<T>, Errors>)
        requires
            old(self).wf(),
        ensures
            final(self).wf(),
            final(self).config_view() == old(self).config_view(),
            final(self).engine_reliable() == old(self).engine_reliable(),
            final(self)@ == old(self)@.evicted(old(self).key_for(k@)),
            r matches Ok(o) ==> o == old(self)@.lookup(old(self).key_for(k@)),
            old(self)@.cache.contains_key(old(self).key_for(k@)) || !old(self)@.stored.contains_key(
                old(self).key_for(k@),
            ) || old(self).engine_reliable() ==> r == Ok::<Option<T>, Errors>(
                old(self)@.lookup(old(self).key_for(k@)),
            ),
            r matches Err(e) ==> e == Errors::FsError || e == Errors::CodecError,
    {
        let key = self._gen_key(k);
        self._find(&key)
    }

    /// Deletes every stored document and empties the cache.
    pub fn truncate(&mut self) -> (r: Result<(), Errors>)
        requires
            old(self).wf(),
        ensures
            final(self).wf(),
            final(self).config_view() == old(self).config_view(),
            old(self).engine_reliable() ==> r is Ok && final(self).engine_reliable(),
            r is Ok ==> final(self)@ == old(self)@.emptied(),
            r is Err ==> final(self)@.cache == Map::<Seq<char>, T>::empty()
                && final(self)@.stored.submap_of(old(self)@.stored),
            r matches Err(e) ==> e == Errors::FsError,
    {
        let r = self.storage_engine.truncate_all(self.config.data_path());
        self.cached_keys = Vec::new();
        self.cached_docs = Vec::new();
        assert(pairs(self.cached_keys@, self.cached_docs@) =~= Seq::<(String, T)>::empty());
        assert(self@.cache =~= Map::<Seq<char>, T>::empty());
        r
    }

    /// Inserts `entry` under caller key `key`. Fails with `AlreadyExists`
    /// when the key is cached or stored; the existing value stays stored.
    /// The new value is written to the engine, not cached. On a reliable
    /// engine the insert of an absent key succeeds.
    pub fn insert(&mut self, key: &str, entry: T) -> (r: Result<(), Errors>)
        requires
            old(self).wf(),
        ensures
            final(self).wf(),
            final(self).config_view() == old(self).config_view(),
            old(self).engine_reliable() ==> final(self).engine_reliable(),
            r is Ok ==> old(self)@.lookup(old(self).key_for(key@)) is None && final(self)@ == old(
                self,
            )@.inserted(old(self).key_for(key@), entry),
            r is Err ==> final(self)@ == old(self)@.evicted(old(self).key_for(key@)),
            old(self)@.cache.contains_key(old(self).key_for(key@)) ==> r == Err::<(), Errors>(
                Errors::AlreadyExists,
            ),
            r == Err::<(), Errors>(Errors::AlreadyExists) <==> old(self)@.lookup(
                old(self).key_for(key@),
            ) is Some && (old(self)@.cache.contains_key(old(self).key_for(key@)) || r != Err::<
                (),
                Errors,
            >(Errors::FsError) && r != Err::<(), Errors>(Errors::CodecError)),
            old(self)@.lookup(old(self).key_for(key@)) is Some ==> r == Err::<(), Errors>(
                Errors::AlreadyExists,
            ) || r == Err::<(), Errors>(Errors::FsError) || r == Err::<(), Errors>(
                Errors::CodecError,
            ),
            old(self)@.lookup(old(self).key_for(key@)) is None ==> r is Ok || r == Err::<
                (),
                Errors,
            >(Errors::DocumentWritingError) || r == Err::<(), Errors>(Errors::CodecError),
            old(self).engine_reliable() ==> (r is Ok <==> old(self)@.lookup(
                old(self).key_for(key@),
            ) is None) && (r is Err ==> r == Err::<(), Errors>(Errors::AlreadyExists)),
            r matches Err(e) ==> e == Errors::AlreadyExists || e == Errors::FsError || e
                == Errors::CodecError || e == Errors::DocumentWritingError,
    {
        let k = self._gen_key(key);
        match self._find(&k) {
            Err(e) => Err(e),
            Ok(Some(_)) => Err(Errors::AlreadyExists),
            Ok(None) => {
                let r = self.storage_engine.write_record(self.config.data_path(), entry, k.as_str());
                r
            },
        }
    }

    /// Deletes the document of caller key `query` from the engine and the
    /// cache. Fails with `EntryNotFound` exactly when the engine holds no
    /// such document; on failure nothing changes. On a reliable engine the
    /// delete of a stored key succeeds.
    pub fn delete(&mut self, query: &str) -> (r: Result<(), Errors>)
        requires
            old(self).wf(),
        ensures
            final(self).wf(),
            final(self).config_view() == old(self).config_view(),
            old(self).engine_reliable() ==> final(self).engine_reliable(),
            r == Err::<(), Errors>(Errors::EntryNotFound) <==> !old(self)@.stored.contains_key(
                old(self).key_for(query@),
            ),
            old(self).engine_reliable() && old(self)@.stored.contains_key(old(self).key_for(query@))
                ==> r is Ok,
            r is Ok ==> final(self)@ == old(self)@.removed(old(self).key_for(query@)),
            r is Err ==> final(self)@ == old(self)@,
            r matches Err(e) ==> e == Errors::EntryNotFound || e == Errors::FsError,
    {
        let k = self._gen_key(query);
        match self.storage_engine.remove_entry(self.config.data_path(), k.as_str()) {
            Ok(()) => {
                take(&mut self.cached_keys, &mut self.cached_docs, &k);
                Ok(())
            },
            Err(e) => Err(e),
        }
    }

    /// Replaces the document of caller key `key` with `new_entry`, by a
    /// delete followed by an insert. Fails with `EntryNotFound`, changing
    /// nothing, when the key is neither cached nor stored; on a reliable
    /// engine it succeeds for any other key. The two steps are not atomic:
    /// when the insert fails after the delete, the document is gone.
    pub fn modify(&mut self, key: &str, new_entry: T) -> (r: Result<(), Errors>)
        requires
            old(self).wf(),
        ensures
            final(self).wf(),
            final(self).config_view() == old(self).config_view(),
            old(self).engine_reliable() ==> final(self).engine_reliable(),
            old(self)@.lookup(old(self).key_for(key@)) is None ==> r == Err::<(), Errors>(
                Errors::EntryNotFound,
            ) && final(self)@ == old(self)@,
            old(self).engine_reliable() && old(self)@.lookup(old(self).key_for(key@)) is Some
                ==> r is Ok,
            r == Err::<(), Errors>(Errors::EntryNotFound) ==> final(self)@.stored == old(
                self,
            )@.stored,
            r is Ok ==> old(self)@.stored.contains_key(old(self).key_for(key@)) && final(self)@
                == old(self)@.inserted(old(self).key_for(key@), new_entry),
            r is Err ==> final(self)@.cache == old(self)@.cache.remove(old(self).key_for(key@)) && (
            final(self)@.stored == old(self)@.stored || final(self)@.stored == old(
                self,
            )@.stored.remove(old(self).key_for(key@))),
            r matches Err(e) ==> e == Errors::EntryNotFound || e == Errors::FsError || e
                == Errors::CodecError || e == Errors::DocumentWritingError,
    {
        let k = self._gen_key(key);
        let ghost ik = k@;
        match self._find(&k) {
            Err(e) => Err(e),
            Ok(None) => {
                assert(self@.cache =~= old(self)@.cache);
                Err(Errors::EntryNotFound)
            },
            Ok(Some(_)) => {
                match self.delete(key) {
                    Err(e) => Err(e),
                    Ok(()) => {
                        let r = self.insert(key, new_entry);
                        assert(old(self)@.stored.remove(ik).insert(ik, new_entry) =~= old(
                            self,
                        )@.stored.insert(ik, new_entry));
                        assert(self@.cache =~= old(self)@.cache.remove(ik));
                        r
                    },
                }
            },
        }
    }

    /// Writes every cached value to the engine, so that changes made through
    /// `iter_mut` last, and empties the cache. On a reliable engine it
    /// succeeds. A failed write stops the flush: the values written before it
    /// stay written, the value it failed on has left the cache, and records
    /// of keys that were not cached are untouched.
    pub fn flush(&mut self) -> (r: Result<(), Errors>)
        requires
            old(self).wf(),
        ensures
            final(self).wf(),
            final(self).config_view() == old(self).config_view(),
            old(self).engine_reliable() ==> r is Ok && final(self).engine_reliable(),
            r is Ok ==> final(self)@ == (CollectionView {
                cache: Map::<Seq<char>, T>::empty(),
                stored: old(self)@.stored.union_prefer_right(old(self)@.cache),
            }),
            r is Err ==> final(self)@.cache.submap_of(old(self)@.cache),
            final(self)@.stored.remove_keys(old(self)@.cache.dom()) == old(
                self,
            )@.stored.remove_keys(old(self)@.cache.dom()),
            r matches Err(e) ==> e == Errors::DocumentWritingError || e == Errors::CodecError,
    {
        loop
            invariant
                self.wf(),
                self.config == old(self).config,
                old(self).engine_reliable() ==> self.engine_reliable(),
                self@.cache.submap_of(old(self)@.cache),
                self@.stored.union_prefer_right(self@.cache) == old(self)@.stored.union_prefer_right(
                    old(self)@.cache,
                ),
                self@.stored.remove_keys(old(self)@.cache.dom()) == old(self)@.stored.remove_keys(
                    old(self)@.cache.dom(),
                ),
            decreases self.cached_keys@.len(),
        {
            let ghost before = self@;
            let ghost before_pairs = pairs(self.cached_keys@, self.cached_docs@);
            match self.cached_keys.pop() {
                None => {
                    assert(pairs(self.cached_keys@, self.cached_docs@) =~= Seq::<
                        (String, T),
                    >::empty());
                    assert(self@.cache =~= Map::<Seq<char>, T>::empty());
                    assert(self@.stored.union_prefer_right(self@.cache) =~= self@.stored);
                    return Ok(());
                },
                Some(k) => {
                    let v = self.cached_docs.pop().unwrap();
                    let ghost rest = pairs(self.cached_keys@, self.cached_docs@);
                    proof {
                        assert(before_pairs =~= rest.push((k, v)));
                        lemma_cache_map_push(rest, (k, v));
                        assert forall|a: int, b: int| 0 <= a < b < rest.len() implies #[trigger] rest[a].0@
                            != #[trigger] rest[b].0@ by {
                            assert(rest[a] == before_pairs[a] && rest[b] == before_pairs[b]);
                        }
                        lemma_cache_map_keys(before_pairs, k@);
                        assert(before_pairs[before_pairs.len() - 1] == (k, v));
                        assert(cache_map(rest).submap_of(before.cache));
                        assert forall|x: Seq<char>| #[trigger] cache_map(rest).contains_key(x)
                            implies old(self)@.cache.contains_key(x) && old(self)@.cache[x]
                            == cache_map(rest)[x] by {
                            assert(before.cache.contains_key(x));
                            assert(before.cache[x] == cache_map(rest)[x]);
                            assert(before.cache.submap_of(old(self)@.cache));
                            assert(old(self)@.cache.contains_key(x));
                            assert(before.cache[x] == old(self)@.cache[x]);
                        }
                    }
                    match self.storage_engine.write_record(self.config.data_path(), v, k.as_str()) {
                        Ok(()) => {
                            let ghost m = cache_map(rest);
                            assert(before.cache == map![k@ => v].union_prefer_right(m));
                            assert(self@.stored == before.stored.insert(k@, v));
                            assert(self@.cache == m);
                            assert(before.cache.contains_key(k@));
                            assert(self@.stored.union_prefer_right(self@.cache)
                                =~= before.stored.union_prefer_right(before.cache));
                            assert(self@.stored.remove_keys(old(self)@.cache.dom())
                                =~= before.stored.remove_keys(old(self)@.cache.dom()));
                        },
                        Err(e) => return Err(e),
                    }
                },
            }
        }
    }

    /// Reloads the cache with every stored document and hands out its
    /// internal keys, and its values for change in place, at matching
    /// indices. Changes made through them stay in the cache until `flush`.
    pub fn iter_mut(&mut self) -> (r: Result<(&[String], &mut [T]), Errors>)
        requires
            old(self).wf(),
        ensures
            final(self).config_view() == old(self).config_view(),
            old(self).engine_reliable() ==> r is Ok,
            r matches Ok((ks, vs)) ==> ks@.len() == vs@.len() && distinct_keys(pairs(ks@, vs@))
                && cache_map(pairs(ks@, vs@)) == old(self)@.stored && final(self)@ == (
            CollectionView { cache: cache_map(pairs(ks@, final(vs)@)), stored: old(self)@.stored }),
            r is Err ==> final(self)@ == old(self)@ && final(self).wf(),
            r matches Ok((ks, vs)) ==> (final(vs)@.len() == vs@.len() ==> final(self).wf()),
            r matches Err(e) ==> e == Errors::FsError || e == Errors::CodecError,
    {
        let prefix = self.config.coll_prefix();
        match self.storage_engine.cache_entries(self.config.data_path(), prefix.as_str()) {
            Ok(entries) => {
                let (keys, docs) = from_entries(entries, Ghost(self@.stored));
                self.cached_keys = keys;
                self.cached_docs = docs;
                proof {
                    let ks = self.cached_keys@;
                    assert forall|vs: Seq<T>| vs.len() == ks.len() implies #[trigger] cache_wf(ks, vs)
                        && cache_map(pairs(ks, vs)).dom().subset_of(self@.stored.dom()) by {
                        lemma_cache_keys_only(ks, self.cached_docs@, vs);
                    }
                }
                Ok((self.cached_keys.as_slice(), self.cached_docs.as_mut_slice()))
            },
            Err(e) => Err(e),
        }
    }
}

} // verus!
