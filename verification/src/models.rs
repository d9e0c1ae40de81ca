//! Plain data records shared by the parser, the index and the watcher.
use vstd::prelude::*;

verus! {

/// The note type given to a note whose front matter does not name one.
pub open spec fn spec_default_note_type() -> Seq<char> {
    seq!['s', 'e', 'm', 'a', 'n', 't', 'i', 'q', 'u', 'e']
}

/// The status given to a note whose front matter does not name one.
pub open spec fn spec_default_statut() -> Seq<char> {
    seq!['a', 'c', 't', 'i', 'f']
}

/// Returns the default note type, `"semantique"`.
pub fn default_note_type() -> (res: String)
    ensures
        res@ == spec_default_note_type(),
{
    let s = "semantique";
    proof {
        reveal_strlit("semantique");
    }
    String::from_str(s)
}

/// Returns the default status, `"actif"`.
pub fn default_statut() -> (res: String)
    ensures
        res@ == spec_default_statut(),
{
    let s = "actif";
    proof {
        reveal_strlit("actif");
    }
    String::from_str(s)
}

/// The views of a list of strings.
pub open spec fn strings_view(v: Seq<String>) -> Seq<Seq<char>> {
    v.map_values(|s: String| s@)
}

/// The view of an optional string.
pub open spec fn opt_string_view(o: Option<String>) -> Option<Seq<char>> {
    match o {
        Some(s) => Some(s@),
        None => None,
    }
}

/// The YAML front matter of a note.
#[derive(Debug, Clone, PartialEq, Eq)]
pub struct NoteFrontmatter {
    pub id: String,
    pub title: String,
    pub date_creation: String,
    pub date_modification: String,
    /// `"semantique"`, `"episodique"` or `"procedural"`.
    pub note_type: String,
    /// `"actif"`, `"obsolete"` or `"archive"`.
    pub statut: String,
    pub tags: Vec<String>,
    pub source_media: Option<String>,
}

/// The mathematical content of a [`NoteFrontmatter`].
pub struct FrontmatterView {
    pub id: Seq<char>,
    pub title: Seq<char>,
    pub date_creation: Seq<char>,
    pub date_modification: Seq<char>,
    pub note_type: Seq<char>,
    pub statut: Seq<char>,
    pub tags: Seq<Seq<char>>,
    pub source_media: Option<Seq<char>>,
}

impl View for NoteFrontmatter {
    type V = FrontmatterView;

    open spec fn view(&self) -> FrontmatterView {
        FrontmatterView {
            id: self.id@,
            title: self.title@,
            date_creation: self.date_creation@,
            date_modification: self.date_modification@,
            note_type: self.note_type@,
            statut: self.statut@,
            tags: strings_view(self.tags@),
            source_media: opt_string_view(self.source_media),
        }
    }
}

/// The front matter of a note that declares none: every text empty, the
/// default type and status, no tags and no source media.
pub open spec fn default_frontmatter_view() -> FrontmatterView {
    FrontmatterView {
        id: Seq::empty(),
        title: Seq::empty(),
        date_creation: Seq::empty(),
        date_modification: Seq::empty(),
        note_type: spec_default_note_type(),
        statut: spec_default_statut(),
        tags: Seq::empty(),
        source_media: None,
    }
}

impl Default for NoteFrontmatter {
    fn default() -> (res: Self)
        ensures
            res@ == default_frontmatter_view(),
    {
        let res = NoteFrontmatter {
            id: String::new(),
            title: String::new(),
            date_creation: String::new(),
            date_modification: String::new(),
            note_type: default_note_type(),
            statut: default_statut(),
            tags: Vec::new(),
            source_media: None,
        };
        assert(strings_view(res.tags@) =~= Seq::empty());
        res
    }
}

/// One indexed fragment of a note, as stored in the `chunks` table.
#[derive(Debug, Clone, PartialEq, Eq)]
pub struct IndexedChunk {
    pub chunk_id: String,
    pub file_path: String,
    pub chunk_index: usize,
    pub content: String,
    pub token_count: usize,
    pub note_type: String,
    pub statut: String,
    pub date_creation: i64,
}

/// One hit of a full-text search.
///
/// `score` is the BM25 relevance of the hit, as the decimal text that the
/// index reports for it (higher is more relevant).
#[derive(Debug, Clone, PartialEq, Eq)]
pub struct SearchResult {
    pub chunk_id: String,
    pub file_path: String,
    pub title: String,
    pub snippet: String,
    pub score: String,
    pub statut: String,
    pub date_creation: String,
}

/// Counters describing the indexed vault.
#[derive(Debug, Clone, PartialEq, Eq)]
pub struct VaultStats {
    pub total_files: usize,
    pub total_chunks: usize,
    pub last_scan_timestamp: i64,
}

impl Default for VaultStats {
    fn default() -> (res: Self)
        ensures
            res.total_files == 0,
            res.total_chunks == 0,
            res.last_scan_timestamp == 0,
    {
        VaultStats { total_files: 0, total_chunks: 0, last_scan_timestamp: 0 }
    }
}

} // verus!
