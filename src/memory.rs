//! A storage engine that keeps text documents in memory.
use vstd::prelude::*;

use crate::cache::{
    cache_map, cache_wf, lemma_cache_map_first, lemma_cache_map_keys, lemma_cache_map_push,
    lemma_distinct_listed, pairs, position, take,
};
use crate::errors::Errors;
use crate::storage::StorageEngine;

verus! {

/// A storage engine that keeps text documents in memory, alike for every
/// data path. Nothing it holds outlives it, and none of its calls fail.
pub struct MemStorage {
    keys: Vec<String>,
    values: Vec<String>,
}

impl MemStorage {
    #[verifier::type_invariant]
    spec fn inv(&self) -> bool {
        cache_wf(self.keys@, self.values@)
    }

    /// An engine that holds nothing.
    pub fn new() -> (r: MemStorage)
        ensures
            r.reliable(),
            forall|data_path: Seq<char>| #[trigger]
                r.stored(data_path) == Map::<Seq<char>, String>::empty(),
    {
        MemStorage { keys: Vec::new(), values: Vec::new() }
    }

    /// Takes the engine's lists out of it, leaving it empty.
    fn take_lists(&mut self) -> (r: (Vec<String>, Vec<String>))
        ensures
            cache_wf(r.0@, r.1@),
            pairs(r.0@, r.1@) == pairs(old(self).keys@, old(self).values@),
    {
        proof {
            use_type_invariant(&*self);
        }
        let mut me = MemStorage::new();
        std::mem::swap(self, &mut me);
        proof {
            use_type_invariant(&me);
        }
        let MemStorage { keys, values } = me;
        (keys, values)
    }
}

impl StorageEngine<String> for MemStorage {
    closed spec fn stored(&self, data_path: Seq<char>) -> Map<Seq<char>, String> {
        cache_map(pairs(self.keys@, self.values@))
    }

    open spec fn reliable(&self) -> bool {
        true
    }

    fn cache_entries(&self, data_path: &str, coll_prefix: &str) -> (r: Result<
        Vec<(String, String)>,
        Errors,
    >) {
        proof {
            use_type_invariant(self);
            lemma_distinct_listed(pairs(self.keys@, self.values@));
        }
        let ghost p = pairs(self.keys@, self.values@);
        let mut out: Vec<(String, String)> = Vec::new();
        let mut i: usize = 0;
        while i < self.keys.len()
            invariant
                i <= self.keys@.len() == self.values@.len(),
                p == pairs(self.keys@, self.values@),
                out@ == p.subrange(0, i as int),
            decreases self.keys@.len() - i,
        {
            out.push((self.keys[i].clone(), self.values[i].clone()));
            proof {
                assert(p.subrange(0, i + 1) =~= p.subrange(0, i as int).push(p[i as int]));
            }
            i = i + 1;
        }
        assert(p.subrange(0, p.len() as int) =~= p);
        Ok(out)
    }

    fn truncate_all(&mut self, data_path: &str) -> (r: Result<(), Errors>) {
        *self = MemStorage::new();
        Ok(())
    }

    fn remove_entry(&mut self, data_path: &str, given_key: &str) -> (r: Result<(), Errors>) {
        let (mut keys, mut values) = self.take_lists();
        let found = take(&mut keys, &mut values, &given_key.to_owned());
        *self = MemStorage { keys, values };
        match found {
            Some(_) => Ok(()),
            None => Err(Errors::EntryNotFound),
        }
    }

    fn write_record(&mut self, data_path: &str, entry: String, key: &str) -> (r: Result<
        (),
        Errors,
    >) {
        let (mut keys, mut values) = self.take_lists();
        let k = key.to_owned();
        take(&mut keys, &mut values, &k);
        let ghost rest = pairs(keys@, values@);
        proof {
            lemma_cache_map_keys(rest, k@);
            lemma_cache_map_push(rest, (k, entry));
        }
        keys.push(k);
        values.push(entry);
        proof {
            let p = pairs(keys@, values@);
            assert(p =~= rest.push((k, entry)));
            assert forall|a: int, b: int| 0 <= a < b < p.len() implies #[trigger] p[a].0@
                != #[trigger] p[b].0@ by {
                if b == p.len() - 1 {
                    assert(p[a] == rest[a]);
                } else {
                    assert(p[a] == rest[a] && p[b] == rest[b]);
                }
            }
            assert(cache_map(p) =~= cache_map(pairs(old(self).keys@, old(self).values@)).insert(
                key@,
                entry,
            ));
        }
        *self = MemStorage { keys, values };
        Ok(())
    }

    fn find_in_storage(&self, data_path: &str, key: &str) -> (r: Result<Option<String>, Errors>) {
        proof {
            use_type_invariant(self);
        }
        let ghost p = pairs(self.keys@, self.values@);
        let k = key.to_owned();
        match position(&self.keys, &k) {
            Some(i) => {
                proof {
                    assert forall|j: int| 0 <= j < i implies p[j].0@ != p[i as int].0@ by {
                        assert(p[j].0 == self.keys@[j]);
                    }
                    lemma_cache_map_first(p, i as int);
                }
                Ok(Some(self.values[i].clone()))
            },
            None => {
                proof {
                    assert forall|j: int| 0 <= j < p.len() implies p[j].0@ != k@ by {
                        assert(p[j].0 == self.keys@[j]);
                    }
                    lemma_cache_map_keys(p, k@);
                }
                Ok(None)
            },
        }
    }
}

} // verus!
