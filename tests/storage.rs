use keratin::storage::{LocalFsStorage, Record};

#[test]
fn record_path_joins_dir_key_and_extension() {
    let fs = LocalFsStorage;
    assert_eq!(fs.record_path("/data", "abc123ff"), "/data/abc123ff.bson");
}

#[test]
fn record_key_of_strips_extension() {
    let fs = LocalFsStorage;
    assert_eq!(fs.record_key_of("abc123ff.bson"), Some("abc123ff".to_owned()));
    assert_eq!(fs.record_key_of(".bson"), None);
    assert_eq!(fs.record_key_of("notes.txt"), None);
    assert_eq!(fs.record_key_of("x.json"), None);
}

#[test]
fn record_envelope_has_empty_metadata() {
    let r = Record::new(5u32);
    assert_eq!(r.metadata, None);
    assert_eq!(r.into_data(), 5);
}
