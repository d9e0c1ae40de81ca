use jeanne_core::access::{validate_and_resolve_note_path, NoteAccessError};
use jeanne_core::journal::{
    index_journal_note, journal_entry, journal_file_name, journal_initial_content,
    journal_rel_path, quick_note_text, CaptureError,
};
use jeanne_core::storage::StorageManager;
use jeanne_core::watcher::{
    is_hidden_path, is_markdown_path, is_relevant_path, Debouncer, WatchAction, WatchEvent,
};

fn parts(v: &[&str]) -> Vec<String> {
    v.iter().map(|s| s.to_string()).collect()
}

fn vault() -> Vec<String> {
    parts(&["/", "tmp", "vault"])
}

fn note(name: &str) -> Vec<String> {
    parts(&["/", "tmp", "vault", name])
}

#[test]
fn relevance_of_changed_paths() {
    let v = vault();
    assert!(is_relevant_path(&v, &note("RapidNote.md")));
    assert!(is_relevant_path(&v, &note("Upper.MARKDOWN")));
    assert!(!is_markdown_path(&note("image.png")));
    assert!(!is_markdown_path(&note("README")));
    assert!(is_hidden_path(&v, &parts(&["/", "tmp", "vault", ".jeanne", "database.md"])));
    assert!(!is_relevant_path(&v, &parts(&["/", "tmp", "vault", ".jeanne", "x.md"])));
    assert!(is_hidden_path(&v, &parts(&["/", "other", ".secret.md"])));
    assert!(!is_hidden_path(&v, &parts(&["/", ".other", "visible.md"])));
    assert!(!is_hidden_path(&parts(&["/", "tmp", ".vault"]), &parts(&["/", "tmp", ".vault", "a.md"])));
}

#[test]
fn a_burst_of_writes_is_reconciled_once() {
    let mut d = Debouncer::new(vault());
    for _ in 0..10 {
        let a = d.step(WatchEvent::Changed(vec![note("RapidNote.md")]));
        assert!(matches!(a, WatchAction::ArmTimer));
        assert!(d.timer_active());
        assert_eq!(d.pending_len(), 1);
    }
    let a = d.step(WatchEvent::TimerElapsed);
    match a {
        WatchAction::Reconcile(batch) => assert_eq!(batch, vec![note("RapidNote.md")]),
        _ => panic!("expected one reconciliation"),
    }
    assert!(!d.timer_active());
    assert_eq!(d.pending_len(), 0);
    assert!(matches!(d.step(WatchEvent::TimerElapsed), WatchAction::Wait));
}

#[test]
fn irrelevant_changes_do_not_arm_the_timer() {
    let mut d = Debouncer::new(vault());
    let a = d.step(WatchEvent::Changed(vec![
        note("photo.jpg"),
        parts(&["/", "tmp", "vault", ".jeanne", "database.db"]),
    ]));
    assert!(matches!(a, WatchAction::Wait));
    assert!(!d.timer_active());
    assert_eq!(d.pending_len(), 0);
    assert!(matches!(d.step(WatchEvent::TimerElapsed), WatchAction::Wait));
}

#[test]
fn several_files_in_one_batch_each_once() {
    let mut d = Debouncer::new(vault());
    d.step(WatchEvent::Changed(vec![note("a.md"), note("b.md"), note("a.md")]));
    d.step(WatchEvent::Changed(vec![note("b.md"), note("c.txt")]));
    match d.step(WatchEvent::TimerElapsed) {
        WatchAction::Reconcile(batch) => assert_eq!(batch, vec![note("a.md"), note("b.md")]),
        _ => panic!("expected a reconciliation"),
    }
}

#[test]
fn stop_close_and_failure_events() {
    let mut d = Debouncer::new(vault());
    assert!(matches!(d.step(WatchEvent::Failed), WatchAction::ReportFailure));
    assert!(matches!(d.step(WatchEvent::StopRequested), WatchAction::Exit));
    assert!(matches!(d.step(WatchEvent::ChannelClosed), WatchAction::Exit));
}

#[test]
fn quick_note_text_is_trimmed_and_unprefixed() {
    assert_eq!(quick_note_text("  /note   Penser au rapport  ").unwrap(), "Penser au rapport");
    assert_eq!(quick_note_text("Idée simple").unwrap(), "Idée simple");
    assert_eq!(quick_note_text("/notes").unwrap(), "s");
    assert!(matches!(quick_note_text("   "), Err(CaptureError::EmptyContent)));
    assert!(matches!(quick_note_text("  /note  \t"), Err(CaptureError::EmptyContent)));
    assert_eq!(
        CaptureError::EmptyContent.message(),
        "Le contenu de la note ne peut pas être vide"
    );
}

#[test]
fn journal_texts() {
    assert_eq!(journal_file_name("2026-09-12"), "2026-09-12.md");
    assert_eq!(journal_rel_path("2026-09-12"), "Journal/2026-09-12.md");
    assert_eq!(
        journal_initial_content("2026-09-12", "10:30:00", "2026-09-12T10:30:00+02:00", "Bonjour"),
        "---\nid: journal-2026-09-12\ntitle: Journal 2026-09-12\ndate_creation: \"2026-09-12T10:30:00+02:00\"\ndate_modification: \"2026-09-12T10:30:00+02:00\"\nnote_type: episodique\nstatut: actif\ntags:\n  - journal\n---\n\n# Journal - 2026-09-12\n\n## 10:30:00\nBonjour\n"
    );
    assert_eq!(journal_entry("11:00:00", "Suite"), "\n## 11:00:00\nSuite\n");
}

#[test]
fn captured_journal_note_is_indexed() {
    let mut s = StorageManager::open_in_memory().unwrap();
    s.init_schema().unwrap();
    let content = journal_initial_content("2026-09-12", "10:30:00", "2026-09-12T10:30:00Z", "Réunion architecture");
    index_journal_note(&mut s, &journal_rel_path("2026-09-12"), &content, "Réunion architecture", 1710000000)
        .expect("index");
    let hits = s.search_fts("architecture", 10).unwrap();
    assert_eq!(hits.len(), 1);
    assert_eq!(hits[0].chunk_id, "Journal/2026-09-12.md:0");
    assert_eq!(hits[0].title, "Journal 2026-09-12");
    assert_eq!(hits[0].statut, "actif");
    let (note_type, tokens): (String, i64) = s
        .raw_connection()
        .query_row("SELECT note_type, token_count FROM chunks", [], |r| Ok((r.get(0)?, r.get(1)?)))
        .unwrap();
    assert_eq!(note_type, "episodique");
    assert_eq!(tokens, 2);
}

#[test]
fn notes_open_only_inside_the_vault_as_markdown() {
    let v = parts(&["/", "home", "u", "vault"]);
    let ok = parts(&["/", "home", "u", "vault", "test.md"]);
    assert_eq!(validate_and_resolve_note_path(ok.clone(), &v), Ok(ok));
    let long = parts(&["/", "home", "u", "vault", "d", "n.markdown"]);
    assert!(validate_and_resolve_note_path(long, &v).is_ok());
    let outside = parts(&["/", "tmp", "evil.md"]);
    let e = validate_and_resolve_note_path(outside, &v).unwrap_err();
    assert_eq!(e, NoteAccessError::AccessDenied);
    assert!(e.message().contains("Accès refusé"));
    let script = parts(&["/", "home", "u", "vault", "script.bat"]);
    let e = validate_and_resolve_note_path(script, &v).unwrap_err();
    assert_eq!(e, NoteAccessError::FormatNotAllowed);
    assert!(e.message().contains("Format non autorisé"));
    let upper = parts(&["/", "home", "u", "vault", "N.MD"]);
    assert_eq!(validate_and_resolve_note_path(upper, &v), Err(NoteAccessError::FormatNotAllowed));
    let sibling = parts(&["/", "home", "u", "vault2", "n.md"]);
    assert_eq!(validate_and_resolve_note_path(sibling, &v), Err(NoteAccessError::AccessDenied));
}
