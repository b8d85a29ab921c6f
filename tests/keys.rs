use keratin::keys::{collection_prefix, derive_key};

#[test]
fn derived_key_is_prefix_and_digest() {
    assert_eq!(derive_key("abc123", ""), "abc123d41d8cd98f00b204e9800998ecf8427e");
    assert_eq!(derive_key("abc123", "user:1"), "abc123bdb1dd105679979ca82b28edd1c8ccd2");
}

#[test]
fn derived_keys_differ_for_different_keys() {
    assert_ne!(derive_key("fad58d", "key"), derive_key("fad58d", "kez"));
    assert_eq!(derive_key("fad58d", "key"), derive_key("fad58d", "key"));
}

#[test]
fn prefix_is_six_hex_digits_of_name_digest() {
    assert_eq!(collection_prefix("main"), "fad58d");
    assert_eq!(collection_prefix("abc"), "900150");
    assert_eq!(collection_prefix("people"), "12a032");
}
