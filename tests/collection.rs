use keratin::config::Config;
use keratin::errors::Errors;
use keratin::keys::derive_key;
use keratin::memory::MemStorage;
use keratin::storage::StorageEngine;
use keratin::Collection;

fn people() -> Collection<String, MemStorage> {
    let config = Config::resolve(
        Some("shop".to_owned()),
        Some("people".to_owned()),
        Some("id".to_owned()),
        Some("/srv/shop/data".to_owned()),
        "/srv/shop/keratin.toml".to_owned(),
    )
    .unwrap();
    Collection::new(config, MemStorage::new())
}

#[test]
fn insert_then_get_round_trip() {
    let mut c = people();
    c.insert("alice", "Alice A.".to_owned()).unwrap();
    assert_eq!(c.get("alice"), Ok(Some("Alice A.".to_owned())));
    assert_eq!(c.get("bob"), Ok(None));
}

#[test]
fn second_insert_keeps_first_value() {
    let mut c = people();
    assert_eq!(c.insert("k", "first".to_owned()), Ok(()));
    assert_eq!(c.insert("k", "second".to_owned()), Err(Errors::AlreadyExists));
    assert_eq!(c.get("k"), Ok(Some("first".to_owned())));
}

#[test]
fn delete_missing_and_present() {
    let mut c = people();
    assert_eq!(c.delete("ghost"), Err(Errors::EntryNotFound));
    c.insert("k", "v".to_owned()).unwrap();
    assert_eq!(c.delete("k"), Ok(()));
    assert_eq!(c.get("k"), Ok(None));
    assert_eq!(c.delete("k"), Err(Errors::EntryNotFound));
}

#[test]
fn modify_missing_changes_nothing() {
    let mut c = people();
    c.insert("other", "x".to_owned()).unwrap();
    assert_eq!(c.modify("nobody", "y".to_owned()), Err(Errors::EntryNotFound));
    assert_eq!(c.get("nobody"), Ok(None));
    assert_eq!(c.get("other"), Ok(Some("x".to_owned())));
}

#[test]
fn modify_present_replaces_value() {
    let mut c = people();
    c.insert("k", "old".to_owned()).unwrap();
    assert_eq!(c.modify("k", "new".to_owned()), Ok(()));
    assert_eq!(c.get("k"), Ok(Some("new".to_owned())));
}

#[test]
fn truncate_empties_collection() {
    let mut c = people();
    c.insert("a", "1".to_owned()).unwrap();
    c.insert("b", "2".to_owned()).unwrap();
    assert_eq!(c.truncate(), Ok(()));
    assert_eq!(c.get("a"), Ok(None));
    assert_eq!(c.get("b"), Ok(None));
    assert_eq!(c.insert("a", "3".to_owned()), Ok(()));
}

#[test]
fn end_to_end_scenario() {
    let mut c = people();
    assert_eq!(c.insert("user:1", "teste".to_owned()), Ok(()));
    assert_eq!(c.get("user:1"), Ok(Some("teste".to_owned())));
    assert_eq!(c.modify("user:1", "boobs".to_owned()), Ok(()));
    assert_eq!(c.get("user:1"), Ok(Some("boobs".to_owned())));
    assert_eq!(c.delete("user:1"), Ok(()));
    assert_eq!(c.get("user:1"), Ok(None));
    assert_eq!(c.delete("user:1"), Err(Errors::EntryNotFound));
}

#[test]
fn records_are_kept_under_internal_keys() {
    let mut c = people();
    c.insert("user:1", "teste".to_owned()).unwrap();
    let (keys, values) = c.iter_mut().unwrap();
    assert_eq!(keys.len(), 1);
    assert_eq!(values.len(), 1);
    assert_eq!(keys[0], "12a032bdb1dd105679979ca82b28edd1c8ccd2");
    assert_eq!(keys[0], derive_key("12a032", "user:1"));
    assert_eq!(values[0], "teste");
}

#[test]
fn iter_mut_changes_stay_in_cache() {
    let mut c = people();
    c.insert("a", "1".to_owned()).unwrap();
    c.insert("b", "2".to_owned()).unwrap();
    {
        let (keys, values) = c.iter_mut().unwrap();
        assert_eq!(keys.len(), 2);
        for v in values.iter_mut() {
            v.push('!');
        }
    }
    // The first read finds the changed value in the cache and takes it out;
    // the next one finds the stored value.
    assert_eq!(c.get("a"), Ok(Some("1!".to_owned())));
    assert_eq!(c.get("a"), Ok(Some("1".to_owned())));
}

#[test]
fn cached_read_is_taken_out_of_cache() {
    let mut c = people();
    c.insert("a", "1".to_owned()).unwrap();
    c.iter_mut().unwrap();
    assert_eq!(c.delete("a"), Ok(()));
    assert_eq!(c.get("a"), Ok(None));
}

#[test]
fn memory_engine_lists_and_overwrites() {
    let mut e = MemStorage::new();
    assert_eq!(e.write_record("/d", "v1".to_owned(), "k"), Ok(()));
    assert_eq!(e.write_record("/d", "v2".to_owned(), "k"), Ok(()));
    assert_eq!(e.find_in_storage("/d", "k"), Ok(Some("v2".to_owned())));
    assert_eq!(e.cache_entries("/d", "").unwrap(), vec![("k".to_owned(), "v2".to_owned())]);
    assert_eq!(e.remove_entry("/d", "k"), Ok(()));
    assert_eq!(e.remove_entry("/d", "k"), Err(Errors::EntryNotFound));
    assert_eq!(e.find_in_storage("/d", "k"), Ok(None));
    assert_eq!(e.write_record("/d", "a".to_owned(), "x"), Ok(()));
    assert_eq!(e.write_record("/d", "b".to_owned(), "y"), Ok(()));
    let mut listed = e.cache_entries("/d", "").unwrap();
    listed.sort();
    assert_eq!(listed, vec![("x".to_owned(), "a".to_owned()), ("y".to_owned(), "b".to_owned())]);
    assert_eq!(e.truncate_all("/d"), Ok(()));
    assert_eq!(e.cache_entries("/d", "").unwrap(), vec![]);
}

#[test]
fn iter_mut_lists_each_key_once() {
    let mut c = people();
    c.insert("a", "1".to_owned()).unwrap();
    c.insert("b", "2".to_owned()).unwrap();
    c.modify("a", "3".to_owned()).unwrap();
    let (keys, values) = c.iter_mut().unwrap();
    let mut listed: Vec<(String, String)> =
        keys.iter().cloned().zip(values.iter().cloned()).collect();
    listed.sort();
    let mut expected = vec![
        (derive_key("12a032", "a"), "3".to_owned()),
        (derive_key("12a032", "b"), "2".to_owned()),
    ];
    expected.sort();
    assert_eq!(listed, expected);
}

#[test]
fn flush_writes_cached_changes() {
    let mut c = people();
    c.insert("a", "1".to_owned()).unwrap();
    c.insert("b", "2".to_owned()).unwrap();
    for v in c.iter_mut().unwrap().1.iter_mut() {
        v.push('!');
    }
    assert_eq!(c.flush(), Ok(()));
    assert_eq!(c.get("a"), Ok(Some("1!".to_owned())));
    assert_eq!(c.get("a"), Ok(Some("1!".to_owned())));
    assert_eq!(c.get("b"), Ok(Some("2!".to_owned())));
}

#[test]
fn flush_of_empty_cache_changes_nothing() {
    let mut c = people();
    c.insert("a", "1".to_owned()).unwrap();
    assert_eq!(c.flush(), Ok(()));
    assert_eq!(c.get("a"), Ok(Some("1".to_owned())));
}
