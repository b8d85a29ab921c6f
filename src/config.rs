//! The configuration of a collection: its name, its data directory, and
//! the defaults that stand in for the default keyword.
use vstd::prelude::*;

use crate::errors::Errors;
use crate::keys::{collection_prefix, prefix_of};

verus! {

/// The value that asks for a field's default.
pub const DEFAULT_KEYWORD: &'static str = ".default.";

/// The project name used when the configuration asks for the default.
pub const DEFAULT_PROJECT: &'static str = "keratin";

/// The collection name used when the configuration asks for the default.
pub const DEFAULT_COLLECTION: &'static str = "main";

/// The primary key name used when the configuration asks for the default.
pub const DEFAULT_PRIMARY_KEY: &'static str = "k_hash";

/// The directory, beside the configuration file, that holds the records by
/// default.
pub const DEFAULT_DATA_DIR: &'static str = "/data";

/// The configuration of one collection; built once, read-only afterwards.
#[derive(Clone, Debug)]
pub struct Config {
    project: String,
    coll_name: String,
    config_file_path: String,
    primary_key: String,
    data_path: String,
}

/// What a configuration holds.
pub struct ConfigView {
    pub project: Seq<char>,
    pub coll_name: Seq<char>,
    pub config_file_path: Seq<char>,
    pub primary_key: Seq<char>,
    pub data_path: Seq<char>,
}

impl View for Config {
    type V = ConfigView;

    closed spec fn view(&self) -> ConfigView {
        ConfigView {
            project: self.project@,
            coll_name: self.coll_name@,
            config_file_path: self.config_file_path@,
            primary_key: self.primary_key@,
            data_path: self.data_path@,
        }
    }
}

/// A configured value: the default when the raw value is the default
/// keyword, the raw value otherwise.
pub open spec fn resolved(raw: Seq<char>, default: Seq<char>) -> Seq<char> {
    if raw == DEFAULT_KEYWORD@ {
        default
    } else {
        raw
    }
}

/// The parent directory of a path, `None` for a path that has none.
pub uninterp spec fn parent_path(p: Seq<char>) -> Option<Seq<char>>;

/// Relies on `std::path::Path::parent`: the path without its final
/// component, `None` when the path ends in a root or is empty. A parent of a
/// `str` path is valid UTF-8, so `to_str` always succeeds on it.
#[verifier::external_body]
fn parent_dir(p: &str) -> (r: Option<String>)
    ensures
        match r {
            Some(s) => parent_path(p@) == Some(s@),
            None => parent_path(p@) is None,
        },
{
    std::path::Path::new(p).parent().and_then(|d| d.to_str()).map(|d| d.to_string())
}

/// `s` with its default in place of the default keyword.
fn resolve_field(raw: String, default: &str) -> (r: String)
    ensures
        r@ == resolved(raw@, default@),
{
    if raw == DEFAULT_KEYWORD.to_owned() {
        default.to_owned()
    } else {
        raw
    }
}

impl Config {
    /// Builds a configuration from the raw values of its fields, as read
    /// from the configuration file at `config_file_path`, putting the
    /// defaults in place of the default keyword. The default data directory
    /// is `data` in the directory of the configuration file.
    /// Fails with `DbConfigurationError` when a field is missing, or when the
    /// data directory is the default and the configuration file has no
    /// parent directory.
    pub fn resolve(
        project: Option<String>,
        coll_name: Option<String>,
        primary_key: Option<String>,
        data_path: Option<String>,
        config_file_path: String,
    ) -> (r: Result<Config, Errors>)
        ensures
            r is Ok <==> project is Some && coll_name is Some && primary_key is Some
                && data_path is Some && (data_path.unwrap()@ == DEFAULT_KEYWORD@ ==> parent_path(
                config_file_path@,
            ) is Some),
            r matches Err(e) ==> e == Errors::DbConfigurationError,
            r matches Ok(c) ==> c@ == (ConfigView {
                project: resolved(project.unwrap()@, DEFAULT_PROJECT@),
                coll_name: resolved(coll_name.unwrap()@, DEFAULT_COLLECTION@),
                config_file_path: config_file_path@,
                primary_key: resolved(primary_key.unwrap()@, DEFAULT_PRIMARY_KEY@),
                data_path: if data_path.unwrap()@ == DEFAULT_KEYWORD@ {
                    parent_path(config_file_path@).unwrap() + DEFAULT_DATA_DIR@
                } else {
                    data_path.unwrap()@
                },
            }),
    {
        let (project, coll_name, primary_key, raw_data_path) = match (
            project,
            coll_name,
            primary_key,
            data_path,
        ) {
            (Some(p), Some(c), Some(k), Some(d)) => (p, c, k, d),
            _ => return Err(Errors::DbConfigurationError),
        };
        let data_path = if raw_data_path == DEFAULT_KEYWORD.to_owned() {
            match parent_dir(config_file_path.as_str()) {
                Some(mut dir) => {
                    dir.push_str(DEFAULT_DATA_DIR);
                    dir
                },
                None => return Err(Errors::DbConfigurationError),
            }
        } else {
            raw_data_path
        };
        Ok(Config {
            project: resolve_field(project, DEFAULT_PROJECT),
            coll_name: resolve_field(coll_name, DEFAULT_COLLECTION),
            config_file_path,
            primary_key: resolve_field(primary_key, DEFAULT_PRIMARY_KEY),
            data_path,
        })
    }

    /// The directory that holds the collection's records.
    pub fn data_path(&self) -> (r: &str)
        ensures
            r@ == self@.data_path,
    {
        self.data_path.as_str()
    }

    /// The name of the collection.
    pub fn coll_name(&self) -> (r: &str)
        ensures
            r@ == self@.coll_name,
    {
        self.coll_name.as_str()
    }

    /// The collection prefix: the first six hex digits of the MD5 digest of
    /// the collection name.
    pub fn coll_prefix(&self) -> (r: String)
        ensures
            r@ == prefix_of(self@.coll_name),
            r@.len() == 6,
    {
        collection_prefix(self.coll_name.as_str())
    }
}

} // verus!
