//! The error type of the library.
use vstd::prelude::*;

verus! {

#[verifier::external_type_specification]
#[verifier::external_body]
pub struct ExSqliteError(rusqlite::Error);

#[verifier::external_type_specification]
#[verifier::external_body]
pub struct ExIoError(std::io::Error);

#[verifier::external_type_specification]
#[verifier::external_body]
pub struct ExJsonError(serde_json::Error);

#[verifier::external_type_specification]
#[verifier::external_body]
pub struct ExNotifyError(notify::Error);

/// Everything that can go wrong in the core library.
#[derive(Debug)]
pub enum JeanneError {
    /// The SQLite index refused an operation.
    Database(rusqlite::Error),
    /// A file-system operation failed.
    Io(std::io::Error),
    /// A value could not be (de)serialised as JSON.
    Serialization(serde_json::Error),
    /// The front matter of a note could not be read into a [`crate::models::NoteFrontmatter`].
    Frontmatter(String),
    /// The file watcher reported a failure.
    Watcher(notify::Error),
    /// The vault is in a state that prevents the operation.
    Vault(String),
    /// The operation is not available.
    NotImplemented(String),
}

} // verus!
