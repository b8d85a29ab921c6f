use keratin::config::Config;
use keratin::errors::Errors;
use keratin::storage::StorageEngine;
use keratin::Collection;

/// The digest of caller key "key", whose record cannot be read.
const UNREADABLE: &str = "3c6e0b8a9c15224a8228b9a98ca1531d";

/// An engine whose disk is broken: it holds one unreadable record and
/// cannot write.
struct BrokenDisk;

impl StorageEngine<String> for BrokenDisk {
    fn cache_entries(&self, _data_path: &str, _coll_prefix: &str) -> Result<Vec<(String, String)>, Errors> {
        Err(Errors::CodecError)
    }

    fn truncate_all(&mut self, _data_path: &str) -> Result<(), Errors> {
        Err(Errors::FsError)
    }

    fn remove_entry(&mut self, _data_path: &str, given_key: &str) -> Result<(), Errors> {
        if given_key.ends_with(UNREADABLE) {
            Err(Errors::FsError)
        } else {
            Err(Errors::EntryNotFound)
        }
    }

    fn write_record(&mut self, _data_path: &str, _entry: String, _key: &str) -> Result<(), Errors> {
        Err(Errors::DocumentWritingError)
    }

    fn find_in_storage(&self, _data_path: &str, key: &str) -> Result<Option<String>, Errors> {
        if key.ends_with(UNREADABLE) {
            Err(Errors::CodecError)
        } else {
            Ok(None)
        }
    }
}

fn broken() -> Collection<String, BrokenDisk> {
    let config = Config::resolve(
        Some("p".to_owned()),
        Some("main".to_owned()),
        Some("id".to_owned()),
        Some("/d".to_owned()),
        "/etc/p.toml".to_owned(),
    )
    .unwrap();
    Collection::new(config, BrokenDisk)
}

#[test]
fn unreadable_record_is_codec_error_not_absence() {
    let mut c = broken();
    assert_eq!(c.get("key"), Err(Errors::CodecError));
    assert_eq!(c.insert("key", "v".to_owned()), Err(Errors::CodecError));
    assert_eq!(c.modify("key", "v".to_owned()), Err(Errors::CodecError));
}

#[test]
fn failed_write_is_reported() {
    let mut c = broken();
    assert_eq!(c.insert("other", "v".to_owned()), Err(Errors::DocumentWritingError));
}

#[test]
fn failed_directory_operations_are_fs_errors() {
    let mut c = broken();
    assert_eq!(c.truncate(), Err(Errors::FsError));
    assert_eq!(c.delete("key"), Err(Errors::FsError));
    assert_eq!(c.iter_mut().err(), Some(Errors::CodecError));
}

#[test]
fn absent_key_on_broken_disk_is_not_found() {
    let mut c = broken();
    assert_eq!(c.get("other"), Ok(None));
    assert_eq!(c.modify("other", "v".to_owned()), Err(Errors::EntryNotFound));
    assert_eq!(c.delete("other"), Err(Errors::EntryNotFound));
}
