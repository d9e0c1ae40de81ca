//! Quick notes: a line typed in the quick-access palette (optionally after
//! `/note`) is appended, under a time heading, to the day's journal note
//! `Journal/<date>.md`, which is created with its front matter when missing.
use vstd::prelude::*;

use crate::error::JeanneError;
use crate::storage::{added, extends, ran_in_order, StorageManager};
use crate::text::{count_words, has_prefix, strip_prefix, trim, trim_ws, word_count};
use crate::vault::{
    content_hash_of, file_content_hash, hex_digits, index_note, indexing_statements,
    note_from_content, note_of_content,
};

verus! {

/// Why a quick note was refused.
#[derive(Debug, Clone, Copy, PartialEq, Eq, Structural)]
pub enum CaptureError {
    /// Nothing is left to write once the input is trimmed.
    EmptyContent,
}

impl CaptureError {
    /// The message shown to the user.
    pub fn message(&self) -> (r: String)
        ensures
            r@ == "Le contenu de la note ne peut pas être vide"@,
    {
        String::from_str("Le contenu de la note ne peut pas être vide")
    }
}

/// The command that may open a quick note.
pub open spec fn note_command() -> Seq<char> {
    seq!['/', 'n', 'o', 't', 'e']
}

/// The text a quick note records: the input trimmed, without a leading
/// `/note` command (and trimmed again); `None` when nothing is left.
pub open spec fn quick_note_text_of(content: Seq<char>) -> Option<Seq<char>> {
    let t = trim_ws(content);
    if t.len() == 0 {
        None
    } else {
        let body = if has_prefix(t, note_command()) {
            trim_ws(t.subrange(5, t.len() as int))
        } else {
            t
        };
        if body.len() == 0 {
            None
        } else {
            Some(body)
        }
    }
}

/// The text a quick note records, or [`CaptureError::EmptyContent`] when
/// the input holds nothing but whitespace (and perhaps `/note`).
pub fn quick_note_text(content: &str) -> (r: Result<String, CaptureError>)
    ensures
        match r {
            Ok(body) => quick_note_text_of(content@) == Some(body@),
            Err(_) => quick_note_text_of(content@) is None,
        },
{
    let t = trim(content);
    if t.as_str().is_empty() {
        return Err(CaptureError::EmptyContent);
    }
    let command = "/note";
    proof {
        reveal_strlit("/note");
    }
    assert(command@ =~= note_command());
    let body = match strip_prefix(t.as_str(), command) {
        Some(rest) => trim(rest.as_str()),
        None => t,
    };
    if body.as_str().is_empty() {
        return Err(CaptureError::EmptyContent);
    }
    Ok(body)
}

/// The file name of the journal note of `date`.
pub open spec fn journal_file_name_of(date: Seq<char>) -> Seq<char> {
    date + ".md"@
}

/// The path, relative to the vault, of the journal note of `date`.
pub open spec fn journal_rel_path_of(date: Seq<char>) -> Seq<char> {
    "Journal/"@ + date + ".md"@
}

/// The file name of the journal note of `date` (`<date>.md`).
pub fn journal_file_name(date: &str) -> (r: String)
    ensures
        r@ == journal_file_name_of(date@),
{
    let mut s = String::from_str(date);
    s.append(".md");
    s
}

/// The path of the journal note of `date` relative to the vault
/// (`Journal/<date>.md`).
pub fn journal_rel_path(date: &str) -> (r: String)
    ensures
        r@ == journal_rel_path_of(date@),
{
    let mut s = String::from_str("Journal/");
    s.append(date);
    s.append(".md");
    assert(s@ =~= journal_rel_path_of(date@));
    s
}

/// A new journal note: its front matter (id, title, dates, type
/// `episodique`, status `actif`, tag `journal`), its title, and the first
/// entry under a time heading.
pub open spec fn journal_initial_content_of(
    date: Seq<char>,
    time: Seq<char>,
    now_iso: Seq<char>,
    body: Seq<char>,
) -> Seq<char> {
    "---\nid: journal-"@ + date + "\ntitle: Journal "@ + date + "\ndate_creation: \""@ + now_iso
        + "\"\ndate_modification: \""@ + now_iso
        + "\"\nnote_type: episodique\nstatut: actif\ntags:\n  - journal\n---\n\n# Journal - "@
        + date + "\n\n## "@ + time + "\n"@ + body + "\n"@
}

/// One more entry of an existing journal note, under a time heading.
pub open spec fn journal_entry_of(time: Seq<char>, body: Seq<char>) -> Seq<char> {
    "\n## "@ + time + "\n"@ + body + "\n"@
}

/// The content of a new journal note for `date` holding one entry.
pub fn journal_initial_content(date: &str, time: &str, now_iso: &str, body: &str) -> (r: String)
    ensures
        r@ == journal_initial_content_of(date@, time@, now_iso@, body@),
{
    let mut s = String::from_str("---\nid: journal-");
    s.append(date);
    s.append("\ntitle: Journal ");
    s.append(date);
    s.append("\ndate_creation: \"");
    s.append(now_iso);
    s.append("\"\ndate_modification: \"");
    s.append(now_iso);
    s.append("\"\nnote_type: episodique\nstatut: actif\ntags:\n  - journal\n---\n\n# Journal - ");
    s.append(date);
    s.append("\n\n## ");
    s.append(time);
    s.append("\n");
    s.append(body);
    s.append("\n");
    assert(s@ =~= journal_initial_content_of(date@, time@, now_iso@, body@));
    s
}

/// The text appended to an existing journal note for one entry.
pub fn journal_entry(time: &str, body: &str) -> (r: String)
    ensures
        r@ == journal_entry_of(time@, body@),
{
    let mut s = String::from_str("\n## ");
    s.append(time);
    s.append("\n");
    s.append(body);
    s.append("\n");
    assert(s@ =~= journal_entry_of(time@, body@));
    s
}

/// Indexes the journal note after a capture: records the file (path, hash
/// of its content, capture time, front matter) and its single chunk, whose
/// word count is that of the captured text; stops at the first statement
/// that fails.
pub fn index_journal_note(
    storage: &mut StorageManager,
    rel_path: &String,
    file_content: &String,
    body_text: &str,
    now: i64,
) -> (r: Result<(), JeanneError>)
    ensures
        extends(old(storage).history(), final(storage).history()),
        final(storage).connection() == old(storage).connection(),
        ran_in_order(
            added(old(storage).history(), final(storage).history()),
            indexing_statements(
                rel_path@,
                hex_digits(content_hash_of(file_content@) as nat, 16),
                now,
                note_of_content(file_content@).0,
                note_of_content(file_content@).1,
                word_count(body_text@) as usize,
            ),
            r,
        ),
        r matches Err(e) ==> e is Database,
{
    let hash = file_content_hash(file_content.as_str());
    let (fm, body) = note_from_content(file_content);
    let token_count = count_words(body_text);
    index_note(storage, rel_path, hash.as_str(), now, &fm, body, token_count)
}

/// A recorded quick note is never empty and has no whitespace at either end.
pub proof fn lemma_quick_note_trimmed(content: Seq<char>)
    ensures
        quick_note_text_of(content) matches Some(b) ==> b.len() > 0 && !crate::text::is_ws(b[0])
            && !crate::text::is_ws(b.last()),
{
    let t = trim_ws(content);
    crate::text::lemma_trim_ws_ends(content);
    if t.len() > 0 && has_prefix(t, note_command()) {
        crate::text::lemma_trim_ws_ends(t.subrange(5, t.len() as int));
    }
}

/// The journal note of a day lives in `Journal/` under its file name.
pub proof fn lemma_journal_path_is_file_name(date: Seq<char>)
    ensures
        journal_rel_path_of(date) == "Journal/"@ + journal_file_name_of(date),
{
    assert(journal_rel_path_of(date) =~= "Journal/"@ + journal_file_name_of(date));
}

} // verus!
