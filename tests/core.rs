use keratin::config::Config;
use keratin::errors::Errors;
use keratin::memory::MemStorage;
use keratin::Collection;
use rand::Rng;

/// The fields of the default configuration file, `db/keratin.toml`.
fn configure() -> Result<Collection<String, MemStorage>, Errors> {
    let config = Config::resolve(
        Some(".default.".to_owned()),
        Some(".default.".to_owned()),
        Some("id".to_owned()),
        Some(".default.".to_owned()),
        "db/keratin.toml".to_owned(),
    )?;
    Ok(Collection::new(config, MemStorage::new()))
}

#[test]
fn failed_insert() -> Result<(), Errors> {
    let mut coll = configure()?;

    coll.truncate()?;

    assert!(coll.insert("key", "teste".to_owned()).is_ok());
    assert!(coll.insert("key", "teste".to_owned()).is_err());

    Ok(())
}

#[test]
fn test_fast_setup() -> Result<(), Errors> {
    let _coll = configure()?;

    Ok(())
}

#[test]
fn modify() -> Result<(), Errors> {
    let mut coll = configure()?;

    coll.truncate()?;

    coll.insert("modifytest", "ass".to_owned())?;
    assert_eq!(coll.get("modifytest")?.unwrap(), "ass");

    coll.modify("modifytest", "boobs".to_owned())?;
    assert_eq!(coll.get("modifytest")?.unwrap(), "boobs");

    Ok(())
}

#[test]
fn random_insert_and_delete() -> Result<(), Errors> {
    let mut coll = configure()?;

    coll.truncate()?;

    let key = "random_key";

    let mut rng = rand::thread_rng();
    let nmr = rng.gen_range(0, 100).to_string();
    let result = coll.insert(key, nmr.clone());

    assert!(result.is_ok());
    assert_eq!(coll.get(key)?.unwrap(), nmr);
    assert!(coll.delete(key).is_ok());

    Ok(())
}
