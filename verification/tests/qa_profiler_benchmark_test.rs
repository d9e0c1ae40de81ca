use std::time::{Duration, Instant};
use tempfile::tempdir;

use jeanne_core::models::IndexedChunk;
use jeanne_core::storage::StorageManager;

/// Protocole QA-Profiler 1 : Benchmark de Latence BM25 FTS5
/// Critère contractuel : Latence de recherche < 15 ms sur un coffre indexé.
#[test]
fn benchmark_bm25_search_latency() {
    let dir = tempdir().expect("Création dossier temporaire");
    let db_path = dir.path().join("bench_fts.db");
    let mut storage = StorageManager::open(db_path.to_str().unwrap()).expect("Ouverture base SQLite");
    storage.init_schema().expect("Initialisation schéma FTS5");

    // 1. Ingestion de 50 notes diversifiées
    for i in 0..50 {
        let file_path = format!("Notes/Doc_{i:02}.md");
        let hash = format!("hash_{i:04}");
        storage.raw_connection().execute(
            "INSERT INTO files (file_path, file_hash, last_modified, frontmatter_json) VALUES (?1, ?2, ?3, ?4)",
            (&file_path, &hash, 1710000000i64 + i as i64, "{\"title\": \"Note de test\"}"),
        ).expect("Insertion fichier");

        let content = if i % 5 == 0 {
            format!("Architecture distribuée et gestion souveraine des données locales pour Jeanne document {i}.")
        } else if i % 3 == 0 {
            format!("Indexation lexicale FTS5 et synchronisation continue du coffre markdown {i}.")
        } else {
            format!("Contenu générique de réunion et journalisation périodique fragment numéro {i}.")
        };

        let chunk = IndexedChunk {
            chunk_id: format!("{file_path}:0"),
            file_path,
            chunk_index: 0,
            content,
            token_count: 15,
            note_type: "semantique".to_string(),
            statut: "actif".to_string(),
            date_creation: 1710000000 + i as i64,
        };
        storage.index_chunk(&chunk).expect("Indexation chunk");
    }

    // 2. Exécution de 100 requêtes de recherche représentatives et mesure de la latence
    let queries = ["architecture", "souveraine", "lexicale", "réunion", "Jeanne"];
    let mut latencies = Vec::with_capacity(100);

    for (idx, q) in queries.iter().cycle().take(100).enumerate() {
        let query_term = if idx % 2 == 0 { *q } else { &format!("{q}*") };
        let start = Instant::now();
        let results = storage.search_fts(query_term, 10).expect("Recherche FTS5");
        let elapsed = start.elapsed();
        latencies.push(elapsed);
        assert!(!results.is_empty(), "La recherche doit retourner des résultats pour '{query_term}'");
        assert!(
            results[0].snippet.contains("<mark>"),
            "Le snippet doit contenir le balisage <mark> pour la surbrillance"
        );
    }

    latencies.sort();
    let p50 = latencies[50];
    let p95 = latencies[95];
    let max = latencies[99];

    println!("BM25 Latency Benchmark Results (100 iterations) :");
    println!("- P50 : {p50:?}");
    println!("- P95 : {p95:?}");
    println!("- Max : {max:?}");

    // Assertion contractuelle : P95 strictement inférieur à 15 ms
    assert!(
        p95 < Duration::from_millis(15),
        "La latence P95 ({p95:?}) doit être strictement inférieure au plafond de 15 ms"
    );
}
