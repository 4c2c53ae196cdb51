use std::path::Path;

use video_compressor::path::{file_name, join, with_extension};

/// Paths that show every turn of the path functions.
fn sample_paths() -> Vec<&'static str> {
    vec![
        "", "/", "//", ".", "..", "./", "../", "./.", "/.", "/..", "a", "a/", "a//", "a/.", "a/./",
        "a/..", "a/b", "a/b/", "a/b/.", "a/b/.//", "/a", "/a/b.mp4", "in/a.mp4", "in/sub/b.mov",
        "./movie.mp4", ".hidden", "dir/.hidden", "dir/.hidden.txt", "a.", "a..", "..a", "...",
        "a.b.c", "dir.d/file", "dir.d/file.tar.gz", "x/y.z/", "x/y.z/.", "/usr/bin/", "tmp/foo.txt",
        "foo.txt/.", "foo.txt/.//", "foo.txt/..", "ünï/códe.mkv", "a b/c d.e f", ".a/.", "a/.b",
        "a/..b", "a/b..", "/.a", "//a//b//",
    ]
}

fn std_file_name(path: &str) -> Option<String> {
    Path::new(path).file_name().map(|name| name.to_str().unwrap().to_string())
}

#[test]
fn file_name_is_last_component() {
    assert_eq!(file_name("in/a.mp4"), Some("a.mp4"));
    assert_eq!(file_name("in/sub/b.mov"), Some("b.mov"));
    assert_eq!(file_name("a.mp4"), Some("a.mp4"));
    assert_eq!(file_name("/a"), Some("a"));
    assert_eq!(file_name("dir/.hidden"), Some(".hidden"));
    assert_eq!(file_name("a/..b"), Some("..b"));
    assert_eq!(file_name("ünï/códe.mkv"), Some("códe.mkv"));
}

#[test]
fn file_name_passes_over_trailing_separators_and_dots() {
    assert_eq!(file_name("/usr/bin/"), Some("bin"));
    assert_eq!(file_name("foo.txt/."), Some("foo.txt"));
    assert_eq!(file_name("foo.txt/.//"), Some("foo.txt"));
    assert_eq!(file_name("a//"), Some("a"));
}

#[test]
fn file_name_is_none_without_a_name() {
    assert_eq!(file_name(""), None);
    assert_eq!(file_name("/"), None);
    assert_eq!(file_name("//"), None);
    assert_eq!(file_name("."), None);
    assert_eq!(file_name("./"), None);
    assert_eq!(file_name(".."), None);
    assert_eq!(file_name("../"), None);
    assert_eq!(file_name("foo.txt/.."), None);
    assert_eq!(file_name("/.."), None);
    assert_eq!(file_name("/."), None);
}

#[test]
fn file_name_agrees_with_std() {
    for path in sample_paths() {
        assert_eq!(file_name(path).map(|name| name.to_string()), std_file_name(path), "{:?}", path);
    }
}

#[test]
fn join_puts_one_separator_between() {
    assert_eq!(join("out", "a.mp4"), "out/a.mp4");
    assert_eq!(join("out/", "a.mp4"), "out/a.mp4");
    assert_eq!(join("/", "a.mp4"), "/a.mp4");
    assert_eq!(join("out/dir", "a"), "out/dir/a");
    assert_eq!(join("out//", "a"), "out//a");
}

#[test]
fn join_on_empty_base_is_the_name() {
    assert_eq!(join("", "a.mp4"), "a.mp4");
}

#[test]
fn join_with_rooted_name_replaces_base() {
    assert_eq!(join("out", "/etc/passwd"), "/etc/passwd");
    assert_eq!(join("", "/"), "/");
}

#[test]
fn join_with_empty_name_ends_in_separator() {
    assert_eq!(join("out", ""), "out/");
    assert_eq!(join("out/", ""), "out/");
    assert_eq!(join("", ""), "");
}

#[test]
fn join_agrees_with_std() {
    for base in sample_paths() {
        for name in sample_paths() {
            let expected = Path::new(base).join(name);
            assert_eq!(join(base, name), expected.to_str().unwrap(), "{:?} {:?}", base, name);
        }
    }
}

#[test]
fn with_extension_replaces_the_extension() {
    assert_eq!(with_extension("out/a.mp4", "log"), "out/a.log");
    assert_eq!(with_extension("out/b.mov", "log"), "out/b.log");
    assert_eq!(with_extension("out/a.tar.gz", "log"), "out/a.tar.log");
    assert_eq!(with_extension("dir.d/file.x", "log"), "dir.d/file.log");
}

#[test]
fn with_extension_appends_where_there_is_none() {
    assert_eq!(with_extension("out/a", "log"), "out/a.log");
    assert_eq!(with_extension("out/.hidden", "log"), "out/.hidden.log");
    assert_eq!(with_extension("dir.d/file", "log"), "dir.d/file.log");
    assert_eq!(with_extension("a.", "log"), "a.log");
    assert_eq!(with_extension("a..", "log"), "a..log");
    assert_eq!(with_extension("..a", "log"), "..log");
}

#[test]
fn with_extension_cuts_after_the_stem() {
    assert_eq!(with_extension("x/y.z/", "log"), "x/y.log");
    assert_eq!(with_extension("x/y.z/.", "log"), "x/y.log");
}

#[test]
fn with_empty_extension_drops_the_extension() {
    assert_eq!(with_extension("out/a.mp4", ""), "out/a");
    assert_eq!(with_extension("out/a", ""), "out/a");
}

#[test]
fn with_extension_leaves_a_path_without_name() {
    assert_eq!(with_extension("", "log"), "");
    assert_eq!(with_extension("/", "log"), "/");
    assert_eq!(with_extension("..", "log"), "..");
    assert_eq!(with_extension("a/..", "log"), "a/..");
    assert_eq!(with_extension(".", "log"), ".");
}

/// Whether the stem of the file name of `path` is a lone dot, as in `..a`.
fn stem_is_a_dot(path: &str) -> bool {
    match file_name(path) {
        Some(name) => name.starts_with("..") && !name[2..].contains('.'),
        None => false,
    }
}

#[test]
fn with_extension_keeps_a_stem_that_is_a_dot() {
    assert!(stem_is_a_dot("..a"));
    assert!(stem_is_a_dot("a/..b"));
    assert!(!stem_is_a_dot("..."));
    assert!(!stem_is_a_dot("a.b"));
    assert_eq!(with_extension("..a", "log"), "..log");
    assert_eq!(with_extension("a/..b", "log"), "a/..log");
    assert_eq!(with_extension("..a/", "log"), "..log");
}

#[test]
fn with_extension_agrees_with_std() {
    for path in sample_paths() {
        if stem_is_a_dot(path) {
            continue;
        }
        for ext in ["log", "", "tar.gz", "x"] {
            let expected = Path::new(path).with_extension(ext);
            assert_eq!(with_extension(path, ext), expected.to_str().unwrap(), "{:?} {:?}", path, ext);
        }
    }
}
