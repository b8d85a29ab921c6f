use keratin::config::Config;
use keratin::errors::Errors;

fn raw(s: &str) -> Option<String> {
    Some(s.to_owned())
}

#[test]
fn defaults_fill_in_default_keyword() {
    let d = ".default.";
    let c = Config::resolve(raw(d), raw(d), raw(d), raw(d), "db/keratin.toml".to_owned()).unwrap();
    assert_eq!(c.coll_name(), "main");
    assert_eq!(c.data_path(), "db/data");
    assert_eq!(c.coll_prefix(), "fad58d");
}

#[test]
fn explicit_values_are_kept() {
    let c = Config::resolve(raw("p"), raw("abc"), raw("id"), raw("/var/lib/x"), "/etc/x.toml".to_owned())
        .unwrap();
    assert_eq!(c.coll_name(), "abc");
    assert_eq!(c.data_path(), "/var/lib/x");
    assert_eq!(c.coll_prefix(), "900150");
}

#[test]
fn missing_field_is_configuration_error() {
    let r = Config::resolve(raw("p"), raw("abc"), None, raw("/x"), "/etc/x.toml".to_owned());
    assert_eq!(r.err(), Some(Errors::DbConfigurationError));
    let r = Config::resolve(None, raw("abc"), raw("id"), raw("/x"), "/etc/x.toml".to_owned());
    assert_eq!(r.err(), Some(Errors::DbConfigurationError));
}

#[test]
fn default_data_path_needs_a_parent() {
    let r = Config::resolve(raw("p"), raw("c"), raw("k"), raw(".default."), "/".to_owned());
    assert_eq!(r.err(), Some(Errors::DbConfigurationError));
    let ok = Config::resolve(raw("p"), raw(".default."), raw("k"), raw(".default."), "conf/k.toml".to_owned())
        .unwrap();
    assert_eq!(ok.data_path(), "conf/data");
    assert_eq!(ok.coll_name(), "main");
}

#[test]
fn error_messages() {
    assert_eq!(Errors::AlreadyExists.message(), "Entry already exists");
    assert_eq!(Errors::EntryNotFound.message(), "Could not find entry in FS or Cache");
}
