//! The errors of the document store.
use vstd::prelude::*;

verus! {

/// What can go wrong in a collection or a storage engine.
#[derive(Clone, Copy, Debug, PartialEq, Eq, Structural)]
pub enum Errors {
    /// An insert found its key already present.
    AlreadyExists,
    /// A delete or modify found no entry for its key.
    EntryNotFound,
    /// A record could not be written to durable storage.
    DocumentWritingError,
    /// The configuration could not be read or is malformed.
    DbConfigurationError,
    /// The storage directory could not be read or changed.
    FsError,
    /// Stored bytes are not a record envelope holding a value of the
    /// expected shape.
    CodecError,
}

/// The human-readable text of an error.
pub open spec fn error_text(e: Errors) -> Seq<char> {
    match e {
        Errors::AlreadyExists => "Entry already exists"@,
        Errors::EntryNotFound => "Could not find entry in FS or Cache"@,
        Errors::DocumentWritingError => "Could not write entry to FS"@,
        Errors::DbConfigurationError => "Could not finish DB configuration"@,
        Errors::FsError => "Could not read or change the storage directory"@,
        Errors::CodecError => "Could not decode a stored record"@,
    }
}

impl Errors {
    /// The human-readable text of this error.
    pub fn message(&self) -> (r: &'static str)
        ensures
            r@ == error_text(*self),
    {
        match self {
            Errors::AlreadyExists => "Entry already exists",
            Errors::EntryNotFound => "Could not find entry in FS or Cache",
            Errors::DocumentWritingError => "Could not write entry to FS",
            Errors::DbConfigurationError => "Could not finish DB configuration",
            Errors::FsError => "Could not read or change the storage directory",
            Errors::CodecError => "Could not decode a stored record",
        }
    }
}

} // verus!
