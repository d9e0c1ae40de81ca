//! Core of the Jeanne knowledge vault: Markdown notes with YAML front matter,
//! their SQLite/FTS5 index, and the decisions of the vault watcher.
use vstd::prelude::*;

pub mod access;
pub mod error;
pub mod journal;
pub mod json;
pub mod models;
pub mod parser;
pub mod paths;
pub mod sqlite;
pub mod storage;
pub mod text;
pub mod vault;
pub mod watcher;

pub use error::JeanneError;
pub use models::{IndexedChunk, NoteFrontmatter, SearchResult, VaultStats};
pub use parser::parse_markdown;
pub use storage::StorageManager;

verus! {

/// The version of this library, as its package declares it.
pub open spec fn spec_version() -> Seq<char> {
    seq!['0', '.', '1', '.', '0']
}

/// Returns the version of the core library.
pub fn version() -> (res: &'static str)
    ensures
        res@ == spec_version(),
{
    let v = "0.1.0";
    proof {
        reveal_strlit("0.1.0");
    }
    v
}

} // verus!
