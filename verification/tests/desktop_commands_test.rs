use std::sync::Mutex;

use jeanne_core::models::IndexedChunk;
use jeanne_core::storage::StorageManager;
use jeanne_core::version;

#[test]
fn test_core_version_command() {
    let version = version().to_string();
    assert!(!version.is_empty());
}

#[test]
fn test_storage_commands_in_memory() {
    let temp_dir = tempfile::tempdir().expect("tempdir");
    let db_path = temp_dir.path().join("test.db");
    let mut storage = StorageManager::open(db_path.to_str().unwrap()).expect("open storage");
    storage.init_schema().expect("init schema");

    let shared = Mutex::new(storage);

    // Test insertion manuelle et recherche
    {
        let mut s = shared.lock().unwrap();
        s.upsert_file("Journal/2026-09-12.md", "hash1", 1710000000, None)
            .expect("upsert file");
        s.index_chunk(&IndexedChunk {
            chunk_id: "Journal/2026-09-12.md:0".to_string(),
            file_path: "Journal/2026-09-12.md".to_string(),
            chunk_index: 0,
            content: "Note rapide de réunion sur l'architecture Jeanne".to_string(),
            token_count: 8,
            note_type: "episodique".to_string(),
            statut: "actif".to_string(),
            date_creation: 1710000000,
        })
        .expect("index chunk");
    }

    let mut s = shared.lock().unwrap();
    let results = s.search_fts("architecture", 10).expect("search");
    assert_eq!(results.len(), 1);
    assert_eq!(results[0].chunk_id, "Journal/2026-09-12.md:0");

    let stats = s.get_stats().expect("stats");
    assert_eq!(stats.total_files, 1);
    assert_eq!(stats.total_chunks, 1);
}
