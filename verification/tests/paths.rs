//! Paths: the normal form and the split into directory and name.
use slayerfs::path::{base_name, is_root, normalize_path, split_components, split_dir_file};

#[test]
fn normal_form_has_no_redundant_slash() {
    let cases = [
        ("", "/"),
        ("/", "/"),
        ("///", "/"),
        ("a", "/a"),
        ("/a", "/a"),
        ("a/", "/a"),
        ("//a///b//", "/a/b"),
        ("/a/./b/..", "/a/./b/.."),
        ("/\u{e4}\u{1f600}/ b", "/\u{e4}\u{1f600}/ b"),
    ];
    for (path, normal) in cases {
        assert_eq!(normalize_path(path), normal);
        assert_eq!(normalize_path(&normalize_path(path)), normal);
    }
}

#[test]
fn components_survive_normalizing() {
    let parts = vec!["a".to_string(), "b c".to_string(), "d".to_string()];
    assert_eq!(split_components("a//b c/d/"), parts);
    assert_eq!(split_components(&normalize_path("a//b c/d/")), parts);
    assert!(split_components("//").is_empty());
}

#[test]
fn normal_forms_split_into_directory_and_name() {
    let cases = [("/a", "/", "a"), ("/a/b", "/a", "b"), ("/a/b/c", "/a/b", "c"), ("/", "/", "")];
    for (path, dir, name) in cases {
        assert_eq!(split_dir_file(path), (dir.to_string(), name.to_string()));
    }
    assert_eq!(split_dir_file("/\u{e4}/\u{f6}"), ("/\u{e4}".to_string(), "\u{f6}".to_string()));
}

#[test]
fn base_names_follow_the_last_slash() {
    assert_eq!(base_name("/a/b"), "b");
    assert_eq!(base_name("/"), "");
    assert_eq!(base_name("b"), "b");
    assert!(is_root("/"));
    assert!(!is_root("/a"));
    assert!(!is_root(""));
}
