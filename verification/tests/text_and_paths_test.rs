use jeanne_core::paths::{
    component_extension, component_file_name, components_starts_with, extension_of_name,
    file_name, file_stem, join_from, stem_of_name,
};
use jeanne_core::text::{
    count_words, i64_to_decimal, is_whitespace, str_eq_ignore_ascii_case, strip_prefix, trim,
    trim_start_newlines,
};

fn parts(v: &[&str]) -> Vec<String> {
    v.iter().map(|s| s.to_string()).collect()
}

#[test]
fn trim_removes_unicode_whitespace_at_both_ends() {
    assert_eq!(trim("  \t hello world \n"), "hello world");
    assert_eq!(trim("\u{3000}\u{a0}note\u{2028}"), "note");
    assert_eq!(trim("   "), "");
    assert_eq!(trim(""), "");
}

#[test]
fn whitespace_follows_the_unicode_property() {
    for c in ['\t', '\n', '\u{b}', '\u{c}', '\r', ' ', '\u{85}', '\u{a0}', '\u{1680}', '\u{2000}', '\u{200a}', '\u{2028}', '\u{2029}', '\u{202f}', '\u{205f}', '\u{3000}'] {
        assert!(is_whitespace(c));
        assert_eq!(is_whitespace(c), c.is_whitespace());
    }
    for c in ['a', '-', '\u{200b}', '\u{feff}', '\u{1f600}'] {
        assert!(!is_whitespace(c));
        assert_eq!(is_whitespace(c), c.is_whitespace());
    }
}

#[test]
fn word_count_matches_split_whitespace() {
    for s in ["", "   ", "one", "  two words  ", "a\tb\nc\u{3000}d", "Contenu itération numéro 10"] {
        assert_eq!(count_words(s), s.split_whitespace().count());
    }
    assert_eq!(count_words("Note rapide de réunion sur l'architecture Jeanne"), 7);
}

#[test]
fn leading_line_breaks_are_dropped_only_at_the_start() {
    assert_eq!(trim_start_newlines("\r\n\n# Title\n"), "# Title\n");
    assert_eq!(trim_start_newlines(" \n# Title"), " \n# Title");
}

#[test]
fn prefix_stripping() {
    assert_eq!(strip_prefix("/note hello", "/note"), Some(" hello".to_string()));
    assert_eq!(strip_prefix("/not", "/note"), None);
    assert_eq!(strip_prefix("hello", ""), Some("hello".to_string()));
}

#[test]
fn ascii_case_insensitive_equality() {
    assert!(str_eq_ignore_ascii_case("MarkDown", "markdown"));
    assert!(str_eq_ignore_ascii_case("MD", "md"));
    assert!(!str_eq_ignore_ascii_case("mdx", "md"));
    assert!(!str_eq_ignore_ascii_case("É", "é"));
}

#[test]
fn decimal_rendering_of_integers() {
    for n in [0i64, 7, -5, 1710000000, i64::MAX, i64::MIN, -1000] {
        assert_eq!(i64_to_decimal(n), n.to_string());
    }
}

#[test]
fn file_names_of_path_texts() {
    assert_eq!(file_name("Notes/Doc_01.md"), Some("Doc_01.md".to_string()));
    assert_eq!(file_name("a/b/."), Some("b".to_string()));
    assert_eq!(file_name("a//b//"), Some("b".to_string()));
    assert_eq!(file_name("a/.."), None);
    assert_eq!(file_name("/"), None);
    assert_eq!(file_name("."), None);
    assert_eq!(file_name(""), None);
    for p in ["Notes/Doc_01.md", "a/b/.", "a//b//", "a/..", "/", ".", "", "./x", "../y.md"] {
        let expected = std::path::Path::new(p)
            .file_name()
            .map(|s| s.to_string_lossy().to_string());
        assert_eq!(file_name(p), expected, "file_name of {p:?}");
    }
}

#[test]
fn stems_and_extensions() {
    assert_eq!(file_stem("Notes/Architecture.md"), Some("Architecture".to_string()));
    assert_eq!(file_stem("archive.tar.gz"), Some("archive.tar".to_string()));
    assert_eq!(stem_of_name(".hidden"), ".hidden");
    assert_eq!(stem_of_name("..a"), ".");
    assert_eq!(extension_of_name(".hidden"), None);
    assert_eq!(extension_of_name("..a"), Some("a".to_string()));
    assert_eq!(extension_of_name("note."), Some("".to_string()));
    for p in ["Notes/Architecture.md", "archive.tar.gz", ".hidden", "..a", "note.", "x/y/z"] {
        let path = std::path::Path::new(p);
        assert_eq!(file_stem(p), path.file_stem().map(|s| s.to_string_lossy().to_string()));
        let name = path.file_name().unwrap().to_string_lossy().to_string();
        assert_eq!(
            extension_of_name(&name),
            path.extension().map(|s| s.to_string_lossy().to_string())
        );
    }
}

#[test]
fn component_paths() {
    let note = parts(&["/", "home", "u", "Vault", "Notes", "a.MD"]);
    let vault = parts(&["/", "home", "u", "Vault"]);
    assert!(components_starts_with(&note, &vault));
    assert!(!components_starts_with(&vault, &note));
    assert!(!components_starts_with(&parts(&["/", "home", "u", "Vault2"]), &vault));
    assert_eq!(component_file_name(&note), Some("a.MD".to_string()));
    assert_eq!(component_file_name(&parts(&["/"])), None);
    assert_eq!(component_file_name(&parts(&["a", ".."])), None);
    assert_eq!(component_extension(&note), Some("MD".to_string()));
    assert_eq!(join_from(&note, 4), "Notes/a.MD");
    assert_eq!(join_from(&note, 6), "");
}
