use jeanne_core::error::JeanneError;
use jeanne_core::json::{frontmatter_json, title_from_json};
use jeanne_core::models::{default_note_type, default_statut, NoteFrontmatter, VaultStats};
use jeanne_core::parser::parse_markdown;

#[test]
fn defaults_of_the_schema() {
    assert_eq!(default_note_type(), "semantique");
    assert_eq!(default_statut(), "actif");
    let fm = NoteFrontmatter::default();
    assert_eq!(fm.id, "");
    assert_eq!(fm.title, "");
    assert_eq!(fm.note_type, "semantique");
    assert_eq!(fm.statut, "actif");
    assert!(fm.tags.is_empty());
    assert_eq!(fm.source_media, None);
    let stats = VaultStats::default();
    assert_eq!((stats.total_files, stats.total_chunks, stats.last_scan_timestamp), (0, 0, 0));
}

#[test]
fn note_without_front_matter_gets_the_default() {
    let (fm, body) = parse_markdown("\n\n# Just a body\ntext\n").unwrap();
    assert_eq!(fm, NoteFrontmatter::default());
    assert_eq!(body, "# Just a body\ntext");
}

#[test]
fn unknown_keys_are_ignored_and_missing_fields_take_defaults() {
    let (fm, body) = parse_markdown("---\nfoo: bar\nlevel: 3\n---\nBody\n").unwrap();
    assert_eq!(fm, NoteFrontmatter::default());
    assert_eq!(body, "Body");
}

#[test]
fn note_type_alias_and_canonical_key() {
    let (fm, _) = parse_markdown("---\nnote_type: episodique\nstatut: archive\n---\nx").unwrap();
    assert_eq!(fm.note_type, "episodique");
    assert_eq!(fm.statut, "archive");
    let (fm, _) = parse_markdown("---\ntype: procedural\n---\nx").unwrap();
    assert_eq!(fm.note_type, "procedural");
}

#[test]
fn naming_the_type_twice_is_refused() {
    let r = parse_markdown("---\ntype: a\nnote_type: b\n---\nx");
    match r {
        Err(JeanneError::Frontmatter(m)) => {
            assert_eq!(m, "Échec de désérialisation du frontmatter YAML dans la note")
        }
        other => panic!("expected a front matter error, got {other:?}"),
    }
}

#[test]
fn wrongly_typed_fields_are_refused() {
    assert!(matches!(parse_markdown("---\ntitle: 42\n---\nx"), Err(JeanneError::Frontmatter(_))));
    assert!(matches!(parse_markdown("---\ntags: solo\n---\nx"), Err(JeanneError::Frontmatter(_))));
    assert!(matches!(parse_markdown("---\nsource_media: [a]\n---\nx"), Err(JeanneError::Frontmatter(_))));
    assert!(matches!(parse_markdown("---\nid: ~\n---\nx"), Err(JeanneError::Frontmatter(_))));
    assert!(matches!(parse_markdown("---\njust a sentence\n---\nx"), Err(JeanneError::Frontmatter(_))));
}

#[test]
fn null_source_media_reads_as_none() {
    let (fm, _) = parse_markdown("---\nsource_media: ~\ntitle: T\n---\nx").unwrap();
    assert_eq!(fm.source_media, None);
    assert_eq!(fm.title, "T");
}

#[test]
fn front_matter_list_reads_fields_by_position() {
    let (fm, body) = parse_markdown("---\n- the-id\n- The Title\n---\nBody").unwrap();
    assert_eq!(fm.id, "the-id");
    assert_eq!(fm.title, "The Title");
    assert_eq!(fm.note_type, "semantique");
    assert_eq!(body, "Body");
    let long = "---\n- a\n- b\n- c\n- d\n- e\n- f\n- [g]\n- h\n- i\n---\nx";
    assert!(parse_markdown(long).is_err());
}

#[test]
fn front_matter_record_as_json() {
    let fm = NoteFrontmatter {
        id: "n1".to_string(),
        title: "Titre \"cité\"".to_string(),
        date_creation: "2026-09-12".to_string(),
        date_modification: "2026-09-13".to_string(),
        note_type: "episodique".to_string(),
        statut: "actif".to_string(),
        tags: vec!["journal".to_string(), "a\\b".to_string()],
        source_media: None,
    };
    let json = frontmatter_json(&fm).unwrap();
    assert_eq!(
        json,
        r#"{"id":"n1","title":"Titre \"cité\"","date_creation":"2026-09-12","date_modification":"2026-09-13","note_type":"episodique","statut":"actif","tags":["journal","a\\b"],"source_media":null}"#
    );
    assert_eq!(title_from_json(&json), Some("Titre \"cité\"".to_string()));

    let with_media = NoteFrontmatter {
        tags: vec![],
        source_media: Some("a.wav".to_string()),
        ..fm
    };
    let json = frontmatter_json(&with_media).unwrap();
    assert!(json.ends_with(r#""tags":[],"source_media":"a.wav"}"#));
}

#[test]
fn strings_are_escaped_as_serde_json_writes_them() {
    let tricky = "q\"b\\s/\u{8}\t\n\u{c}\r\u{1}\u{1f}\u{7f}é→".to_string();
    let fm = NoteFrontmatter { title: tricky.clone(), ..NoteFrontmatter::default() };
    let json = frontmatter_json(&fm).unwrap();
    let expected = format!("\"title\":{},", serde_json::to_string(&tricky).unwrap());
    assert!(json.contains(&expected), "{json} should contain {expected}");
    assert_eq!(title_from_json(&json), Some(tricky));
}

#[test]
fn title_lookup_in_recorded_front_matter() {
    assert_eq!(title_from_json(r#"{"title": "Note de test"}"#), Some("Note de test".to_string()));
    assert_eq!(title_from_json(r#"{"title": 3}"#), None);
    assert_eq!(title_from_json(r#"{}"#), None);
    assert_eq!(title_from_json(r#"["title"]"#), None);
    assert_eq!(title_from_json("not json"), None);
}
