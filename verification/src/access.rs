//! Which files the desktop client may open: Markdown notes inside the vault.
use vstd::prelude::*;

use crate::models::strings_view;
use crate::paths::{component_extension, components_extension, components_start_with, components_starts_with};

verus! {

/// Why a file may not be opened.
#[derive(Debug, Clone, Copy, PartialEq, Eq, Structural)]
pub enum NoteAccessError {
    /// The file lies outside the vault.
    AccessDenied,
    /// The file is not a Markdown note.
    FormatNotAllowed,
}

impl NoteAccessError {
    /// The message shown to the user.
    pub fn message(&self) -> (r: String)
        ensures
            r@ == (match self {
                NoteAccessError::AccessDenied => "Accès refusé : le fichier doit résider à l'intérieur du coffre"@,
                NoteAccessError::FormatNotAllowed => "Format non autorisé : seules les notes Markdown peuvent être ouvertes"@,
            }),
    {
        match self {
            NoteAccessError::AccessDenied => String::from_str(
                "Accès refusé : le fichier doit résider à l'intérieur du coffre",
            ),
            NoteAccessError::FormatNotAllowed => String::from_str(
                "Format non autorisé : seules les notes Markdown peuvent être ouvertes",
            ),
        }
    }
}

/// Whether an extension marks a Markdown note: exactly `md` or `markdown`.
pub open spec fn markdown_extension(e: Option<Seq<char>>) -> bool {
    e == Some(seq!['m', 'd']) || e == Some(seq!['m', 'a', 'r', 'k', 'd', 'o', 'w', 'n'])
}

/// The decision on opening the file with canonical components `target`
/// from the vault with canonical components `vault`: refused outside the
/// vault, refused unless it is a Markdown note, allowed otherwise.
pub open spec fn note_access(target: Seq<Seq<char>>, vault: Seq<Seq<char>>) -> Result<(), NoteAccessError> {
    if !components_start_with(target, vault) {
        Err(NoteAccessError::AccessDenied)
    } else if !markdown_extension(components_extension(target)) {
        Err(NoteAccessError::FormatNotAllowed)
    } else {
        Ok(())
    }
}

/// Checks that a note may be opened: its canonical path must lie inside the
/// canonical vault and carry the extension `md` or `markdown`. Returns the
/// note's canonical path.
pub fn validate_and_resolve_note_path(
    canonical_target: Vec<String>,
    canonical_vault: &Vec<String>,
) -> (r: Result<Vec<String>, NoteAccessError>)
    ensures
        match r {
            Ok(p) => note_access(strings_view(canonical_target@), strings_view(canonical_vault@))
                is Ok && p@ == canonical_target@,
            Err(e) => note_access(strings_view(canonical_target@), strings_view(canonical_vault@))
                == Err::<(), NoteAccessError>(e),
        },
{
    if !components_starts_with(&canonical_target, canonical_vault) {
        return Err(NoteAccessError::AccessDenied);
    }
    let ext = component_extension(&canonical_target);
    let md = String::from_str("md");
    let markdown = String::from_str("markdown");
    proof {
        reveal_strlit("md");
        reveal_strlit("markdown");
    }
    let ok = match &ext {
        Some(e) => *e == md || *e == markdown,
        None => false,
    };
    proof {
        let ev = components_extension(strings_view(canonical_target@));
        match ext {
            Some(e) => {
                assert(ev == Some(e@));
                assert(md@ =~= seq!['m', 'd']);
                assert(markdown@ =~= seq!['m', 'a', 'r', 'k', 'd', 'o', 'w', 'n']);
            },
            None => {},
        }
    }
    if !ok {
        return Err(NoteAccessError::FormatNotAllowed);
    }
    Ok(canonical_target)
}

} // verus!
