use file_search::{get_extension_from_path, has_extension, ignore_entry};

#[test]
fn ignore_entry_finds_any_listed_text() {
    let list = vec!["target", ".git"];
    assert!(ignore_entry("/home/me/project/target/debug/app", &list));
    assert!(ignore_entry("/home/me/project/.git/config", &list));
    assert!(ignore_entry(".git", &list));
}

#[test]
fn ignore_entry_passes_other_paths() {
    let list = vec!["target", ".git"];
    assert!(!ignore_entry("/home/me/project/src/main.rs", &list));
    assert!(!ignore_entry("", &list));
}

#[test]
fn ignore_entry_is_case_sensitive() {
    let list = vec!["Target"];
    assert!(!ignore_entry("/project/target", &list));
    assert!(ignore_entry("/project/Target", &list));
}

#[test]
fn ignore_entry_with_empty_list_ignores_nothing() {
    let list: Vec<&str> = Vec::new();
    assert!(!ignore_entry("/anything", &list));
}

#[test]
fn ignore_entry_matches_anywhere_in_the_path() {
    let list = vec!["mid"];
    assert!(ignore_entry("/a/amidst/b", &list));
}

#[test]
fn extension_is_the_text_after_the_last_dot() {
    assert_eq!(get_extension_from_path("a.txt"), Some("txt"));
    assert_eq!(get_extension_from_path("archive.tar.gz"), Some("gz"));
    assert_eq!(get_extension_from_path("/home/me.d/file.rs"), Some("rs"));
}

#[test]
fn extension_of_a_path_without_dot_is_the_path() {
    assert_eq!(get_extension_from_path("Makefile"), Some("Makefile"));
    assert_eq!(get_extension_from_path(""), Some(""));
}

#[test]
fn extension_after_a_trailing_dot_is_empty() {
    assert_eq!(get_extension_from_path("name."), Some(""));
    assert_eq!(get_extension_from_path("."), Some(""));
}

#[test]
fn extension_counts_characters_not_bytes() {
    assert_eq!(get_extension_from_path("r\u{e9}sum\u{e9}.t\u{fc}r"), Some("t\u{fc}r"));
    assert_eq!(get_extension_from_path("\u{1f600}.\u{1f600}"), Some("\u{1f600}"));
}

#[test]
fn has_extension_compares_with_the_set() {
    let extensions = vec!["rs", "toml"];
    assert!(has_extension("src/main.rs", &extensions));
    assert!(has_extension("Cargo.toml", &extensions));
    assert!(!has_extension("notes.txt", &extensions));
    assert!(!has_extension("archive.rs.gz", &extensions));
}

#[test]
fn has_extension_is_case_sensitive() {
    let extensions = vec!["rs"];
    assert!(!has_extension("main.RS", &extensions));
    assert!(!has_extension("main.Rs", &extensions));
}

#[test]
fn has_extension_needs_a_dot() {
    let extensions = vec!["rs", "Makefile", ""];
    assert!(!has_extension("rs", &extensions));
    assert!(!has_extension("Makefile", &extensions));
    assert!(!has_extension("", &extensions));
}

#[test]
fn has_extension_takes_the_empty_extension_after_a_trailing_dot() {
    assert!(has_extension("name.", &vec![""]));
    assert!(!has_extension("name.", &vec!["name"]));
}

#[test]
fn has_extension_with_empty_set_is_false() {
    let extensions: Vec<&str> = Vec::new();
    assert!(!has_extension("main.rs", &extensions));
}

#[test]
fn has_extension_compares_whole_texts() {
    let extensions = vec!["r", "rss"];
    assert!(!has_extension("main.rs", &extensions));
}
