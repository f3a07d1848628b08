use unwrapper::path::{file_stem, join, parent, stays_inside};

#[test]
fn the_stem_is_the_file_name_without_its_extension() {
    assert_eq!(file_stem("archive.zip"), Some("archive".to_string()));
    assert_eq!(file_stem("archive.tar.gz"), Some("archive.tar".to_string()));
    assert_eq!(file_stem("dir/sub/archive.zip"), Some("archive".to_string()));
    assert_eq!(file_stem("/abs/x.tar.xz"), Some("x.tar".to_string()));
    assert_eq!(file_stem("noext"), Some("noext".to_string()));
    assert_eq!(file_stem(".hidden"), Some(".hidden".to_string()));
    assert_eq!(file_stem(".hidden.gz"), Some(".hidden".to_string()));
    assert_eq!(file_stem("trailing."), Some("trailing".to_string()));
    assert_eq!(file_stem("dir/file.bz2/"), Some("file".to_string()));
    assert_eq!(file_stem("a.b/c"), Some("c".to_string()));
}

#[test]
fn a_path_that_names_no_file_has_no_stem() {
    assert_eq!(file_stem(""), None);
    assert_eq!(file_stem("/"), None);
    assert_eq!(file_stem("///"), None);
    assert_eq!(file_stem("."), None);
    assert_eq!(file_stem(".."), None);
    assert_eq!(file_stem("dir/.."), None);
    assert_eq!(file_stem("dir/./"), None);
}

#[test]
fn the_stem_agrees_with_the_standard_library() {
    for path in ["a.zip", "x/y.tar.gz", ".profile", "noext", "a.b.c.d", "dir/", "é.zip", "a..b"] {
        let expected = std::path::Path::new(path)
            .file_stem()
            .map(|s| s.to_string_lossy().into_owned());
        assert_eq!(file_stem(path), expected, "for {:?}", path);
    }
}

#[test]
fn joining_puts_one_separator_between() {
    assert_eq!(join("out", "a.txt"), "out/a.txt");
    assert_eq!(join("out/", "a.txt"), "out/a.txt");
    assert_eq!(join("out", "sub/b.txt"), "out/sub/b.txt");
    assert_eq!(join("", "a.txt"), "a.txt");
    assert_eq!(join("out", ""), "out/");
    assert_eq!(join("/", "a"), "/a");
}

#[test]
fn joining_agrees_with_the_standard_library() {
    for (base, rel) in [("out", "a.txt"), ("out/", "a/b"), ("", "x"), ("a/b", "c/d"), ("out", "")] {
        let expected = std::path::Path::new(base).join(rel).to_string_lossy().into_owned();
        assert_eq!(join(base, rel), expected, "for {:?} and {:?}", base, rel);
    }
}

#[test]
fn paths_that_stay_inside() {
    assert!(stays_inside("a.txt"));
    assert!(stays_inside("sub/b.txt"));
    assert!(stays_inside(""));
    assert!(stays_inside("..a"));
    assert!(stays_inside("a.."));
    assert!(stays_inside("a/..b/c"));
    assert!(stays_inside("..."));
    assert!(stays_inside("a/.../b"));
    assert!(stays_inside("./a"));
}

#[test]
fn paths_that_lead_out() {
    assert!(!stays_inside(".."));
    assert!(!stays_inside("../evil.txt"));
    assert!(!stays_inside("../../evil.txt"));
    assert!(!stays_inside("a/../../b"));
    assert!(!stays_inside("a/.."));
    assert!(!stays_inside("a/../b"));
    assert!(!stays_inside("/etc/passwd"));
    assert!(!stays_inside("/"));
}

#[test]
fn the_parent_is_what_stands_before_the_last_separator() {
    assert_eq!(parent("out/a.txt"), Some("out".to_string()));
    assert_eq!(parent("out/sub/b.txt"), Some("out/sub".to_string()));
    assert_eq!(parent("a.txt"), None);
    assert_eq!(parent(""), None);
    assert_eq!(parent("/a"), Some("".to_string()));
    assert_eq!(parent("out/sub/"), Some("out/sub".to_string()));
}
