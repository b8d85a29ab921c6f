//! The in-memory cache of a collection: internal keys and values held in
//! two lists of equal length, no key twice, so that values can be changed
//! in place while the keys stay fixed.
use vstd::prelude::*;

verus! {

/// The entries that a list of keys and a list of values stand for.
pub open spec fn pairs<T>(keys: Seq<String>, values: Seq<T>) -> Seq<(String, T)> {
    Seq::new(keys.len(), |i: int| (keys[i], values[i]))
}

/// No two entries share a key.
pub open spec fn distinct_keys<T>(c: Seq<(String, T)>) -> bool {
    forall|i: int, j: int| 0 <= i < j < c.len() ==> #[trigger] c[i].0@ != #[trigger] c[j].0@
}

/// The map that a list of entries stands for: each key maps to the value
/// of its first entry.
pub open spec fn cache_map<T>(c: Seq<(String, T)>) -> Map<Seq<char>, T>
    decreases c.len(),
{
    if c.len() == 0 {
        Map::empty()
    } else {
        cache_map(c.drop_first()).insert(c[0].0@, c[0].1)
    }
}

/// `entries` lists exactly the records of `m`, each once: each entry agrees
/// with `m`, each key of `m` has an entry, and no key has two.
pub open spec fn lists_exactly<T>(entries: Seq<(String, T)>, m: Map<Seq<char>, T>) -> bool {
    &&& forall|i: int|
        0 <= i < entries.len() ==> #[trigger] m.contains_key(entries[i].0@) && m[entries[i].0@]
            == entries[i].1
    &&& forall|k: Seq<char>| #[trigger]
        m.contains_key(k) ==> exists|i: int| 0 <= i < entries.len() && entries[i].0@ == k
    &&& distinct_keys(entries)
}

/// A key is in the map exactly when some entry has it, and then the map
/// holds the value of an entry with that key.
pub proof fn lemma_cache_map_keys<T>(c: Seq<(String, T)>, k: Seq<char>)
    ensures
        cache_map(c).contains_key(k) <==> exists|i: int| 0 <= i < c.len() && c[i].0@ == k,
        cache_map(c).contains_key(k) ==> exists|i: int|
            0 <= i < c.len() && c[i].0@ == k && c[i].1 == cache_map(c)[k],
    decreases c.len(),
{
    if c.len() > 0 {
        let rest = c.drop_first();
        lemma_cache_map_keys(rest, k);
        if exists|i: int| 0 <= i < rest.len() && rest[i].0@ == k {
            let i = choose|i: int| 0 <= i < rest.len() && rest[i].0@ == k;
            assert(c[i + 1] == rest[i]);
        }
        if exists|i: int| 0 <= i < c.len() && c[i].0@ == k {
            let i = choose|i: int| 0 <= i < c.len() && c[i].0@ == k;
            if i > 0 {
                assert(rest[i - 1] == c[i]);
            }
        }
        if cache_map(rest).contains_key(k) && c[0].0@ != k {
            let i = choose|i: int|
                0 <= i < rest.len() && rest[i].0@ == k && rest[i].1 == cache_map(rest)[k];
            assert(c[i + 1] == rest[i]);
        }
    }
}

/// The first entry with a key gives that key's value.
pub proof fn lemma_cache_map_first<T>(c: Seq<(String, T)>, i: int)
    requires
        0 <= i < c.len(),
        forall|j: int| 0 <= j < i ==> c[j].0@ != c[i].0@,
    ensures
        cache_map(c).contains_key(c[i].0@),
        cache_map(c)[c[i].0@] == c[i].1,
    decreases i,
{
    if i > 0 {
        let rest = c.drop_first();
        assert forall|j: int| 0 <= j < i - 1 implies #[trigger] rest[j].0@ != rest[i - 1].0@ by {
            assert(rest[j] == c[j + 1]);
        }
        lemma_cache_map_first(rest, i - 1);
        assert(c[0].0@ != c[i].0@);
    }
}

/// Taking out one entry with key `k` changes the map of no other key.
pub proof fn lemma_cache_map_remove<T>(c: Seq<(String, T)>, i: int)
    requires
        0 <= i < c.len(),
    ensures
        cache_map(c.remove(i)).remove(c[i].0@) == cache_map(c).remove(c[i].0@),
    decreases i,
{
    let k = c[i].0@;
    if i == 0 {
        assert(c.remove(0) =~= c.drop_first());
        assert(cache_map(c.remove(i)).remove(k) =~= cache_map(c).remove(k));
    } else {
        let rest = c.drop_first();
        lemma_cache_map_remove(rest, i - 1);
        assert(rest[i - 1] == c[i]);
        assert(c.remove(i).drop_first() =~= rest.remove(i - 1));
        assert(c.remove(i)[0] == c[0]);
        let a = cache_map(rest.remove(i - 1));
        let b = cache_map(rest);
        assert(cache_map(c.remove(i)) == a.insert(c[0].0@, c[0].1));
        assert(cache_map(c) == b.insert(c[0].0@, c[0].1));
        assert(a.remove(k) == b.remove(k));
        let l = a.insert(c[0].0@, c[0].1).remove(k);
        let r = b.insert(c[0].0@, c[0].1).remove(k);
        assert forall|x: Seq<char>| #[trigger] l.contains_key(x) == r.contains_key(x) by {
            if x != k && x != c[0].0@ {
                assert(a.remove(k).contains_key(x) == b.remove(k).contains_key(x));
            }
        }
        assert forall|x: Seq<char>| #[trigger] l.contains_key(x) implies l[x] == r[x] by {
            if x != c[0].0@ {
                assert(a.remove(k).contains_key(x));
                assert(a.remove(k)[x] == b.remove(k)[x]);
            }
        }
        assert(l =~= r);
    }
}

/// An entry added at the end counts only for a key that no earlier entry
/// has.
pub proof fn lemma_cache_map_push<T>(c: Seq<(String, T)>, x: (String, T))
    ensures
        cache_map(c.push(x)) == map![x.0@ => x.1].union_prefer_right(cache_map(c)),
    decreases c.len(),
{
    if c.len() == 0 {
        assert(c.push(x).drop_first() =~= c);
        assert(cache_map(c.push(x)) =~= map![x.0@ => x.1].union_prefer_right(cache_map(c)));
    } else {
        let rest = c.drop_first();
        lemma_cache_map_push(rest, x);
        assert(c.push(x).drop_first() =~= rest.push(x));
        assert(cache_map(c.push(x)) =~= map![x.0@ => x.1].union_prefer_right(cache_map(c)));
    }
}

/// Entries that list exactly the records of `m` stand for `m`.
pub proof fn lemma_cache_map_listed<T>(c: Seq<(String, T)>, m: Map<Seq<char>, T>)
    requires
        lists_exactly(c, m),
    ensures
        cache_map(c) == m,
{
    assert forall|k: Seq<char>| cache_map(c).contains_key(k) == m.contains_key(k) by {
        lemma_cache_map_keys(c, k);
        if cache_map(c).contains_key(k) {
            let i = choose|i: int| 0 <= i < c.len() && c[i].0@ == k;
            assert(m.contains_key(c[i].0@));
        }
    }
    assert forall|k: Seq<char>| #[trigger] cache_map(c).contains_key(k) implies cache_map(c)[k]
        == m[k] by {
        lemma_cache_map_keys(c, k);
        let i = choose|i: int| 0 <= i < c.len() && c[i].0@ == k && c[i].1 == cache_map(c)[k];
        assert(m.contains_key(c[i].0@));
    }
    assert(cache_map(c) =~= m);
}

/// Entries with distinct keys list exactly the map they stand for.
pub proof fn lemma_distinct_listed<T>(c: Seq<(String, T)>)
    requires
        distinct_keys(c),
    ensures
        lists_exactly(c, cache_map(c)),
{
    assert forall|i: int| 0 <= i < c.len() implies #[trigger] cache_map(c).contains_key(c[i].0@)
        && cache_map(c)[c[i].0@] == c[i].1 by {
        assert forall|j: int| 0 <= j < i implies c[j].0@ != c[i].0@ by {}
        lemma_cache_map_first(c, i);
    }
    assert forall|k: Seq<char>| #[trigger] cache_map(c).contains_key(k) implies exists|i: int|
        0 <= i < c.len() && c[i].0@ == k by {
        lemma_cache_map_keys(c, k);
    }
    assert(distinct_keys(c));
}

/// Whether a cache is well formed, and which keys it holds, depend on its
/// keys alone.
pub proof fn lemma_cache_keys_only<T>(keys: Seq<String>, v1: Seq<T>, v2: Seq<T>)
    requires
        cache_wf(keys, v1),
        v2.len() == keys.len(),
    ensures
        cache_wf(keys, v2),
        cache_map(pairs(keys, v2)).dom() == cache_map(pairs(keys, v1)).dom(),
{
    let p1 = pairs(keys, v1);
    let p2 = pairs(keys, v2);
    assert forall|a: int, b: int| 0 <= a < b < p2.len() implies #[trigger] p2[a].0@
        != #[trigger] p2[b].0@ by {
        assert(p1[a].0 == p2[a].0 && p1[b].0 == p2[b].0);
    }
    assert forall|k: Seq<char>| #[trigger] cache_map(p2).contains_key(k) == cache_map(
        p1,
    ).contains_key(k) by {
        lemma_cache_map_keys(p1, k);
        lemma_cache_map_keys(p2, k);
        if exists|i: int| 0 <= i < p1.len() && p1[i].0@ == k {
            let i = choose|i: int| 0 <= i < p1.len() && p1[i].0@ == k;
            assert(p2[i].0 == p1[i].0);
        }
        if exists|i: int| 0 <= i < p2.len() && p2[i].0@ == k {
            let i = choose|i: int| 0 <= i < p2.len() && p2[i].0@ == k;
            assert(p2[i].0 == p1[i].0);
        }
    }
    assert(cache_map(p2).dom() =~= cache_map(p1).dom());
}

/// The index of the first key equal to `k`, if any.
pub fn position(keys: &Vec<String>, k: &String) -> (r: Option<usize>)
    ensures
        match r {
            Some(i) => i < keys@.len() && keys@[i as int]@ == k@ && forall|j: int|
                0 <= j < i ==> keys@[j]@ != k@,
            None => forall|j: int| 0 <= j < keys@.len() ==> keys@[j]@ != k@,
        },
{
    let mut i: usize = 0;
    while i < keys.len()
        invariant
            i <= keys@.len(),
            forall|j: int| 0 <= j < i ==> keys@[j]@ != k@,
        decreases keys@.len() - i,
    {
        if keys[i] == *k {
            return Some(i);
        }
        i = i + 1;
    }
    None
}

/// The cache held in `keys` and `values` is well formed: one value per key
/// and no key twice.
pub open spec fn cache_wf<T>(keys: Seq<String>, values: Seq<T>) -> bool {
    keys.len() == values.len() && distinct_keys(pairs(keys, values))
}

/// Takes the value for key `k` out of the cache.
pub fn take<T>(keys: &mut Vec<String>, values: &mut Vec<T>, k: &String) -> (r: Option<T>)
    requires
        cache_wf(old(keys)@, old(values)@),
    ensures
        cache_wf(final(keys)@, final(values)@),
        cache_map(pairs(final(keys)@, final(values)@)) == cache_map(
            pairs(old(keys)@, old(values)@),
        ).remove(k@),
        r == (if cache_map(pairs(old(keys)@, old(values)@)).contains_key(k@) {
            Some(cache_map(pairs(old(keys)@, old(values)@))[k@])
        } else {
            None::<T>
        }),
{
    let ghost c = pairs(keys@, values@);
    match position(keys, k) {
        None => {
            proof {
                assert forall|j: int| 0 <= j < c.len() implies c[j].0@ != k@ by {
                    assert(c[j].0 == keys@[j]);
                }
                lemma_cache_map_keys(c, k@);
                assert(cache_map(c).remove(k@) =~= cache_map(c));
            }
            None
        },
        Some(i) => {
            proof {
                assert(c[i as int].0 == keys@[i as int]);
                assert forall|j: int| 0 <= j < i implies c[j].0@ != c[i as int].0@ by {
                    assert(c[j].0 == keys@[j]);
                }
                lemma_cache_map_first(c, i as int);
                lemma_cache_map_remove(c, i as int);
            }
            keys.remove(i);
            let v = values.remove(i);
            proof {
                let d = pairs(keys@, values@);
                assert(d =~= c.remove(i as int));
                assert forall|a: int, b: int| 0 <= a < b < d.len() implies #[trigger] d[a].0@
                    != #[trigger] d[b].0@ by {
                    let a0 = if a < i { a } else { a + 1 };
                    let b0 = if b < i { b } else { b + 1 };
                    assert(d[a] == c[a0] && d[b] == c[b0]);
                }
                assert forall|j: int| 0 <= j < d.len() implies d[j].0@ != k@ by {
                    let j0 = if j < i { j } else { j + 1 };
                    assert(d[j] == c[j0]);
                }
                lemma_cache_map_keys(d, k@);
                assert(cache_map(d) =~= cache_map(d).remove(k@));
            }
            Some(v)
        },
    }
}

/// Splits a listing into a cache of keys and values that stands for the
/// map it lists.
pub fn from_entries<T>(entries: Vec<(String, T)>, Ghost(m): Ghost<Map<Seq<char>, T>>) -> (r: (
    Vec<String>,
    Vec<T>,
))
    requires
        lists_exactly(entries@, m),
    ensures
        cache_wf(r.0@, r.1@),
        cache_map(pairs(r.0@, r.1@)) == m,
{
    let ghost orig = entries@;
    let ghost n = orig.len();
    let mut entries = entries;
    let mut keys: Vec<String> = Vec::new();
    let mut values: Vec<T> = Vec::new();
    while entries.len() > 0
        invariant
            n == orig.len(),
            keys@.len() == values@.len(),
            entries@.len() + keys@.len() == n,
            entries@ == orig.subrange(0, entries@.len() as int),
            forall|a: int|
                0 <= a < keys@.len() ==> #[trigger] pairs(keys@, values@)[a] == orig[n - 1 - a],
        decreases entries@.len(),
    {
        let ghost before = entries@;
        let (k, v) = entries.pop().unwrap();
        proof {
            assert(entries@ =~= orig.subrange(0, entries@.len() as int));
            assert(before[before.len() - 1] == orig[n - 1 - keys@.len()]);
        }
        let ghost old_pairs = pairs(keys@, values@);
        keys.push(k);
        values.push(v);
        proof {
            assert forall|a: int| 0 <= a < keys@.len() implies #[trigger] pairs(keys@, values@)[a]
                == orig[n - 1 - a] by {
                if a < keys@.len() - 1 {
                    assert(pairs(keys@, values@)[a] == old_pairs[a]);
                }
            }
        }
    }
    let ghost p = pairs(keys@, values@);
    proof {
        assert(p.len() == n);
        assert forall|i: int, j: int| 0 <= i < j < p.len() implies #[trigger] p[i].0@
            != #[trigger] p[j].0@ by {
            assert(p[i] == orig[n - 1 - i] && p[j] == orig[n - 1 - j]);
        }
        assert forall|i: int| 0 <= i < p.len() implies #[trigger] m.contains_key(p[i].0@)
            && m[p[i].0@] == p[i].1 by {
            assert(p[i] == orig[n - 1 - i]);
        }
        assert forall|k: Seq<char>| #[trigger] m.contains_key(k) implies exists|i: int|
            0 <= i < p.len() && p[i].0@ == k by {
            let i = choose|i: int| 0 <= i < orig.len() && orig[i].0@ == k;
            assert(p[n - 1 - i] == orig[i]);
        }
        lemma_cache_map_listed(p, m);
    }
    (keys, values)
}

} // verus!
