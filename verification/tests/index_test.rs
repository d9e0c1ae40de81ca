use std::hash::{Hash, Hasher};
use jeanne_core::models::{IndexedChunk, NoteFrontmatter};
use jeanne_core::storage::requested_limit;
use jeanne_core::vault::{configured_vault_dir, vault_location, VaultLocation};
use jeanne_core::storage::{
    chunk_params, fts_terms, search_result_from_row, sql_limit, SearchRow, SqlValue,
    StorageManager,
};
use jeanne_core::vault::{
    file_content_hash, normalize_rel_path, note_chunk, note_from_content, plan_reconciliation,
    reconcile_batch, FileItem, PathProbe,
};

fn parts(v: &[&str]) -> Vec<String> {
    v.iter().map(|s| s.to_string()).collect()
}

fn memory_store() -> StorageManager {
    let mut s = StorageManager::open_in_memory().expect("in-memory database");
    s.init_schema().expect("schema");
    s
}

fn count(s: &StorageManager, sql: &str) -> i64 {
    s.raw_connection().query_row(sql, [], |row| row.get(0)).unwrap()
}

#[test]
fn blank_query_finds_nothing() {
    let mut s = memory_store();
    assert!(s.search_fts("   \t", 10).unwrap().is_empty());
    assert!(s.search_fts("", 10).unwrap().is_empty());
    assert_eq!(fts_terms("  souveraine \n"), Some("souveraine".to_string()));
    assert_eq!(fts_terms(" \u{3000} "), None);
}

#[test]
fn row_limit_falls_back_when_too_large() {
    assert_eq!(sql_limit(10), 10);
    assert_eq!(sql_limit(0), 0);
    assert_eq!(sql_limit(usize::MAX), 50);
}

#[test]
fn chunk_parameters_follow_the_columns() {
    let c = IndexedChunk {
        chunk_id: "n.md:0".to_string(),
        file_path: "n.md".to_string(),
        chunk_index: 3,
        content: "body".to_string(),
        token_count: 1,
        note_type: "semantique".to_string(),
        statut: "actif".to_string(),
        date_creation: -7,
    };
    let p = chunk_params(&c);
    assert_eq!(p.len(), 8);
    assert!(matches!(&p[0], SqlValue::Text(t) if t == "n.md:0"));
    assert!(matches!(&p[2], SqlValue::Integer(3)));
    assert!(matches!(&p[4], SqlValue::Integer(1)));
    assert!(matches!(&p[7], SqlValue::Integer(-7)));
    let big = IndexedChunk { chunk_index: usize::MAX, ..c };
    assert!(matches!(&chunk_params(&big)[2], SqlValue::Integer(-1)));
}

#[test]
fn hit_titles_come_from_front_matter_then_path() {
    let row = |json: Option<&str>, path: &str| SearchRow {
        chunk_id: "c".to_string(),
        file_path: path.to_string(),
        snippet: "<mark>x</mark>".to_string(),
        score: "1.5".to_string(),
        statut: "actif".to_string(),
        date_creation: 1710000000,
        frontmatter_json: json.map(|s| s.to_string()),
    };
    let r = search_result_from_row(&row(Some(r#"{"title":"Recorded"}"#), "Notes/a.md"));
    assert_eq!(r.title, "Recorded");
    assert_eq!(r.date_creation, "1710000000");
    assert_eq!(r.score, "1.5");
    assert_eq!(search_result_from_row(&row(Some("{}"), "Notes/a.md")).title, "a");
    assert_eq!(search_result_from_row(&row(None, "Notes/.hidden")).title, ".hidden");
    assert_eq!(search_result_from_row(&row(None, "..")).title, "..");
}

#[test]
fn files_and_chunks_round_trip_through_search_and_cascade() {
    let mut s = memory_store();
    s.upsert_file("Journal/2026-09-12.md", "hash1", 1710000000, None).expect("upsert file");
    s.index_chunk(&IndexedChunk {
        chunk_id: "Journal/2026-09-12.md:0".to_string(),
        file_path: "Journal/2026-09-12.md".to_string(),
        chunk_index: 0,
        content: "Note rapide de réunion sur l'architecture Jeanne".to_string(),
        token_count: 8,
        note_type: "episodique".to_string(),
        statut: "actif".to_string(),
        date_creation: 1710000000,
    })
    .expect("index chunk");

    let results = s.search_fts("architecture", 10).expect("search");
    assert_eq!(results.len(), 1);
    assert_eq!(results[0].chunk_id, "Journal/2026-09-12.md:0");
    assert_eq!(results[0].title, "2026-09-12");
    assert!(results[0].snippet.contains("<mark>"));
    assert!(results[0].score.parse::<f64>().is_ok());
    let exact: f64 = s
        .raw_connection()
        .query_row("SELECT -bm25(fts_notes) FROM fts_notes WHERE fts_notes MATCH 'architecture'", [], |r| r.get(0))
        .unwrap();
    assert_eq!(results[0].score.parse::<f64>().unwrap(), exact);

    let stats = s.get_stats().expect("stats");
    assert_eq!(stats.total_files, 1);
    assert_eq!(stats.total_chunks, 1);
    assert_eq!(stats.last_scan_timestamp, 1710000000);

    s.upsert_file("Journal/2026-09-12.md", "hash2", 1710000500, Some(r#"{"title":"Jour"}"#))
        .expect("update file");
    assert_eq!(count(&s, "SELECT COUNT(*) FROM chunks"), 1);
    assert_eq!(s.search_fts("architecture", 10).unwrap()[0].title, "Jour");

    s.delete_file("Journal/2026-09-12.md").expect("delete file");
    assert_eq!(count(&s, "SELECT COUNT(*) FROM chunks"), 0);
    assert_eq!(count(&s, "SELECT COUNT(*) FROM fts_notes"), 0);
    assert!(s.search_fts("architecture", 10).unwrap().is_empty());
    let stats = s.get_stats().unwrap();
    assert_eq!((stats.total_files, stats.total_chunks, stats.last_scan_timestamp), (0, 0, 0));
}

#[test]
fn database_errors_are_reported() {
    let mut s = StorageManager::open_in_memory().unwrap();
    // No schema yet: the tables do not exist.
    assert!(matches!(s.search_fts("x", 1), Err(jeanne_core::error::JeanneError::Database(_))));
    assert!(matches!(s.get_stats(), Err(jeanne_core::error::JeanneError::Database(_))));
}

#[test]
fn relative_paths_of_changed_files() {
    let vault = parts(&["/", "v"]);
    assert_eq!(
        normalize_rel_path(&vault, &parts(&["/", "v", "Notes", "a.md"]), &None),
        Some("Notes/a.md".to_string())
    );
    assert_eq!(
        normalize_rel_path(&vault, &parts(&["/", "v", "a\\b.md"]), &None),
        Some("a/b.md".to_string())
    );
    let canonical = Some((parts(&["/", "real", "v"]), parts(&["/", "real", "v", "n.md"])));
    assert_eq!(
        normalize_rel_path(&vault, &parts(&["/", "link", "n.md"]), &canonical),
        Some("n.md".to_string())
    );
    assert_eq!(
        normalize_rel_path(&parts(&["/", "V"]), &parts(&["/", "v", "x", "n.md"]), &None),
        Some("x/n.md".to_string())
    );
    assert_eq!(
        normalize_rel_path(&vault, &parts(&["/", "elsewhere", "n.md"]), &None),
        Some("n.md".to_string())
    );
    assert_eq!(normalize_rel_path(&vault, &parts(&["/", "v"]), &None), Some("v".to_string()));
    assert_eq!(normalize_rel_path(&vault, &parts(&["/"]), &None), None);
}

#[test]
fn content_hash_is_sixteen_hex_digits() {
    let h = file_content_hash("# Note\n");
    assert_eq!(h.len(), 16);
    assert!(h.chars().all(|c| c.is_ascii_hexdigit() && !c.is_ascii_uppercase()));
    assert_eq!(h, file_content_hash("# Note\n"));
    assert_ne!(h, file_content_hash("# Note 2\n"));
    assert_ne!(file_content_hash(""), "");
}

#[test]
fn a_batch_is_sorted_into_reindexing_and_removal() {
    let entries = vec![
        (Some("a.md".to_string()), PathProbe::Readable { content: "A".to_string(), now: 5 }),
        (Some("gone.md".to_string()), PathProbe::Missing),
        (None, PathProbe::Readable { content: "ignored".to_string(), now: 6 }),
        (Some("dir.md".to_string()), PathProbe::Other),
        (Some("locked.md".to_string()), PathProbe::Unreadable),
        (None, PathProbe::Missing),
    ];
    let (up, del) = plan_reconciliation(&entries);
    assert_eq!(up.len(), 1);
    assert_eq!(up[0].rel_path, "a.md");
    assert_eq!(up[0].content, "A");
    assert_eq!(up[0].hash, file_content_hash("A"));
    assert_eq!(up[0].now, 5);
    assert_eq!(del, vec!["gone.md".to_string()]);
}

#[test]
fn notes_fall_back_to_the_whole_content() {
    let (fm, body) = note_from_content(&"---\ntitle: 1\n---\nbody".to_string());
    assert_eq!(fm, NoteFrontmatter::default());
    assert_eq!(body, "---\ntitle: 1\n---\nbody");
    let (fm, body) = note_from_content(&"---\ntitle: T\n---\n\nbody".to_string());
    assert_eq!(fm.title, "T");
    assert_eq!(body, "body");
}

#[test]
fn the_chunk_of_a_note() {
    let fm = NoteFrontmatter { note_type: "procedural".to_string(), ..NoteFrontmatter::default() };
    let c = note_chunk(&"Notes/x.md".to_string(), "text".to_string(), 4, &fm, 99);
    assert_eq!(c.chunk_id, "Notes/x.md:0");
    assert_eq!(c.file_path, "Notes/x.md");
    assert_eq!(c.chunk_index, 0);
    assert_eq!(c.content, "text");
    assert_eq!(c.token_count, 4);
    assert_eq!(c.note_type, "procedural");
    assert_eq!(c.statut, "actif");
    assert_eq!(c.date_creation, 99);
}

#[test]
fn reconciliation_indexes_and_removes_notes() {
    let mut s = memory_store();
    assert!(reconcile_batch(&mut s, &vec![], &vec![]).is_ok());
    let content = "---\ntitle: Note Éphémère\nnote_type: semantique\n---\n\nCe motclefspecifique doit disparaître.\n";
    let items = vec![FileItem {
        rel_path: "ToDelete.md".to_string(),
        content: content.to_string(),
        hash: file_content_hash(content),
        now: 1710000000,
    }];
    reconcile_batch(&mut s, &items, &vec![]).expect("reindex");
    let hits = s.search_fts("motclefspecifique", 5).unwrap();
    assert_eq!(hits.len(), 1);
    assert_eq!(hits[0].title, "Note Éphémère");
    assert_eq!(hits[0].chunk_id, "ToDelete.md:0");
    let tokens: i64 = s
        .raw_connection()
        .query_row("SELECT token_count FROM chunks", [], |r| r.get(0))
        .unwrap();
    assert_eq!(tokens, 4);

    reconcile_batch(&mut s, &vec![], &vec!["ToDelete.md".to_string()]).expect("remove");
    assert_eq!(count(&s, "SELECT COUNT(*) FROM files WHERE file_path = 'ToDelete.md'"), 0);
    assert_eq!(count(&s, "SELECT COUNT(*) FROM chunks WHERE file_path = 'ToDelete.md'"), 0);
    assert!(s.search_fts("motclefspecifique", 5).unwrap().is_empty());
}

#[test]
fn a_failed_batch_is_rolled_back() {
    let mut s = StorageManager::open_in_memory().unwrap();
    let items = vec![FileItem {
        rel_path: "a.md".to_string(),
        content: "x".to_string(),
        hash: "h".to_string(),
        now: 1,
    }];
    // Without the schema the first statement fails.
    assert!(reconcile_batch(&mut s, &items, &vec![]).is_err());
    // No transaction is left open.
    s.init_schema().unwrap();
    assert!(reconcile_batch(&mut s, &items, &vec![]).is_ok());
}

#[test]
fn vault_location_prefers_the_configured_directory() {
    match vault_location(Some("  /data/vault \n".to_string()), true, Some(parts(&["/", "home", "u"]))) {
        VaultLocation::Configured(p) => assert_eq!(p, "/data/vault"),
        _ => panic!("expected the configured directory"),
    }
    match vault_location(Some("   ".to_string()), true, Some(parts(&["/", "home", "u"]))) {
        VaultLocation::Fallback(p) => {
            assert_eq!(p, parts(&["/", "home", "u", "Documents", "JeanneVault"]))
        }
        _ => panic!("expected the fallback"),
    }
    match vault_location(None, false, None) {
        VaultLocation::Fallback(p) => assert_eq!(p, parts(&[".", "Documents", "JeanneVault"])),
        _ => panic!("expected the fallback"),
    }
    assert_eq!(configured_vault_dir(&Some(" /data/vault ".to_string())), Some("/data/vault".to_string()));
    assert_eq!(configured_vault_dir(&Some(" \t ".to_string())), None);
    assert_eq!(configured_vault_dir(&None), None);
    assert!(jeanne_core::vault::WELCOME_NOTE.starts_with("---\nid: welcome-note\n"));
    let (fm, body) = jeanne_core::parse_markdown(jeanne_core::vault::WELCOME_NOTE).unwrap();
    assert_eq!(fm.title, "Bienvenue dans Jeanne");
    assert_eq!(fm.tags, vec!["guide".to_string(), "bienvenue".to_string()]);
    assert!(body.starts_with("# Bienvenue dans Jeanne"));
}

#[test]
fn an_unusable_configured_vault_falls_back_to_home() {
    match vault_location(Some("/etc/passwd".to_string()), false, Some(parts(&["/", "home", "u"]))) {
        VaultLocation::Fallback(p) => {
            assert_eq!(p, parts(&["/", "home", "u", "Documents", "JeanneVault"]))
        }
        _ => panic!("expected the fallback"),
    }
}

#[test]
fn search_limit_defaults_to_twenty() {
    assert_eq!(requested_limit(None), 20);
    assert_eq!(requested_limit(Some(5)), 5);
    assert_eq!(jeanne_core::watcher::DEFAULT_DEBOUNCE_MS, 300);
}

#[test]
fn hexadecimal_rendering_of_hashes() {
    assert_eq!(jeanne_core::vault::hex16(0), "0000000000000000");
    assert_eq!(jeanne_core::vault::hex16(255), "00000000000000ff");
    assert_eq!(jeanne_core::vault::hex16(u64::MAX), "ffffffffffffffff");
    assert_eq!(jeanne_core::vault::hex16(0x0123456789abcdef), "0123456789abcdef");
    let content = "# Note\nbody\n".to_string();
    let mut hasher = std::collections::hash_map::DefaultHasher::new();
    content.hash(&mut hasher);
    assert_eq!(file_content_hash(&content), format!("{:016x}", hasher.finish()));
}
