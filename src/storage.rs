//! Storage engines: durable keeping of records by internal key, and the
//! parts of the filesystem engine that decide file names and record framing.
use vstd::prelude::*;

use vstd::string::*;

use crate::cache::lists_exactly;
use crate::errors::Errors;

verus! {

/// A storage engine keeps records, addressed by internal key, in the
/// directory `data_path`. Its contract is stated over `stored`, the records
/// it holds under a directory, and `reliable`, whether its calls succeed.
///
/// The contract describes engines whose records live in the engine value
/// itself and which the verifier checks, such as `MemStorage`: what is
/// proved of a collection holds for those. An engine written in plain Rust,
/// such as a host's filesystem engine, keeps its records outside its value,
/// so `stored` cannot describe it. It keeps the defaults below, which do
/// not describe it either; nothing proved here covers it, and it rests on
/// its own tests.
pub trait StorageEngine<T>: Sized {
    /// The records held under `data_path`, by internal key.
    closed spec fn stored(&self, data_path: Seq<char>) -> Map<Seq<char>, T> {
        Map::empty()
    }

    /// Every call of the engine succeeds, but for the absence of a key.
    closed spec fn reliable(&self) -> bool {
        false
    }

    /// Lists every record under `data_path`, each once. A record that cannot
    /// be read or decoded fails the whole listing.
    fn cache_entries(&self, data_path: &str, coll_prefix: &str) -> (r: Result<
        Vec<(String, T)>,
        Errors,
    >)
        ensures
            r matches Ok(v) ==> lists_exactly(v@, self.stored(data_path@)),
            self.reliable() ==> r is Ok,
            r matches Err(e) ==> e == Errors::FsError || e == Errors::CodecError,
    ;

    /// Deletes every record under `data_path`. A failure stops at the record
    /// it failed on; those deleted before it stay deleted.
    fn truncate_all(&mut self, data_path: &str) -> (r: Result<(), Errors>)
        ensures
            r is Ok ==> final(self).stored(data_path@) == Map::<Seq<char>, T>::empty(),
            r is Err ==> final(self).stored(data_path@).submap_of(old(self).stored(data_path@)),
            old(self).reliable() ==> r is Ok && final(self).reliable(),
            r matches Err(e) ==> e == Errors::FsError,
    ;

    /// Deletes the record of `given_key`; `EntryNotFound` exactly when
    /// there is none.
    fn remove_entry(&mut self, data_path: &str, given_key: &str) -> (r: Result<(), Errors>)
        ensures
            r == Err::<(), Errors>(Errors::EntryNotFound) <==> !old(self).stored(
                data_path@,
            ).contains_key(given_key@),
            r is Ok ==> final(self).stored(data_path@) == old(self).stored(data_path@).remove(
                given_key@,
            ),
            r is Err ==> final(self).stored(data_path@) == old(self).stored(data_path@),
            old(self).reliable() ==> final(self).reliable() && (old(self).stored(
                data_path@,
            ).contains_key(given_key@) ==> r is Ok),
            r matches Err(e) ==> e == Errors::EntryNotFound || e == Errors::FsError,
    ;

    /// Writes `entry` as the record of `key`, replacing any record there.
    /// A failed write changes nothing.
    fn write_record(&mut self, data_path: &str, entry: T, key: &str) -> (r: Result<(), Errors>)
        ensures
            r is Ok ==> final(self).stored(data_path@) == old(self).stored(data_path@).insert(
                key@,
                entry,
            ),
            r is Err ==> final(self).stored(data_path@) == old(self).stored(data_path@),
            old(self).reliable() ==> r is Ok && final(self).reliable(),
            r matches Err(e) ==> e == Errors::DocumentWritingError || e == Errors::CodecError,
    ;

    /// Reads the record of `key`: `None` when there is none, an error when
    /// it is there but cannot be read or decoded.
    fn find_in_storage(&self, data_path: &str, key: &str) -> (r: Result<Option<T>, Errors>)
        ensures
            !self.stored(data_path@).contains_key(key@) ==> r == Ok::<Option<T>, Errors>(None),
            r matches Ok(o) ==> o == (if self.stored(data_path@).contains_key(key@) {
                Some(self.stored(data_path@)[key@])
            } else {
                None::<T>
            }),
            self.reliable() ==> r is Ok,
            r matches Err(e) ==> e == Errors::FsError || e == Errors::CodecError,
    ;
}

/// The envelope in which a value is stored: the value under `data`, beside
/// a slot reserved for metadata.
#[derive(Clone, Debug)]
pub struct Record<T> {
    pub metadata: Option<bool>,
    pub data: T,
}

impl<T> Record<T> {
    /// Wraps a value in an envelope with empty metadata.
    pub fn new(data: T) -> (r: Record<T>)
        ensures
            r.metadata is None,
            r.data == data,
    {
        Record { metadata: None, data }
    }

    /// The value an envelope carries.
    pub fn into_data(self) -> (r: T)
        ensures
            r == self.data,
    {
        self.data
    }
}

/// The extension of record files.
pub const RECORD_EXTENSION: &'static str = ".bson";

/// The path of the file of the record with internal key `key`.
pub open spec fn record_file(data_path: Seq<char>, key: Seq<char>) -> Seq<char> {
    data_path + "/"@ + key + RECORD_EXTENSION@
}

/// The internal key of the record file named `file_name`: the name without
/// the record extension, `None` for a name that does not end in it.
pub open spec fn record_key(file_name: Seq<char>) -> Option<Seq<char>> {
    let n = RECORD_EXTENSION@.len();
    if file_name.len() > n && file_name.subrange(file_name.len() - n, file_name.len() as int)
        == RECORD_EXTENSION@ {
        Some(file_name.subrange(0, file_name.len() - n))
    } else {
        None
    }
}

/// The filesystem storage engine: one file per record, named after its
/// internal key, in the collection's data directory. The files are read
/// and written by the host; these are the decisions the engine makes.
#[derive(Clone, Copy, Debug)]
pub struct LocalFsStorage;

impl LocalFsStorage {
    /// The path of the file of the record with internal key `key`.
    pub fn record_path(&self, data_path: &str, key: &str) -> (r: String)
        ensures
            r@ == record_file(data_path@, key@),
    {
        let mut r = data_path.to_owned();
        r.push_str("/");
        r.push_str(key);
        r.push_str(RECORD_EXTENSION);
        r
    }

    /// The internal key of the record file named `file_name`, `None` for a
    /// file that is no record.
    pub fn record_key_of(&self, file_name: &str) -> (r: Option<String>)
        ensures
            match r {
                Some(k) => record_key(file_name@) == Some(k@),
                None => record_key(file_name@) is None,
            },
    {
        let n = file_name.unicode_len();
        let ext = RECORD_EXTENSION.unicode_len();
        if n > ext {
            let tail = file_name.substring_char(n - ext, n);
            if tail.to_owned() == RECORD_EXTENSION.to_owned() {
                Some(file_name.substring_char(0, n - ext).to_owned())
            } else {
                None
            }
        } else {
            None
        }
    }
}

} // verus!
