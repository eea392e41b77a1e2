use wallpaper_store::error::Error;
use wallpaper_store::path::{
    absolute_path_from_relative, file_name, is_absolute_path, is_contained, join, resolve,
};

const BASE: &str = "/data/user/files";

#[test]
fn join_puts_a_separator_between_base_and_relative_path() {
    assert_eq!(join(BASE, "collections/a/x.png"), "/data/user/files/collections/a/x.png");
    assert_eq!(join("/data/user/files/", "x.png"), "/data/user/files/x.png");
    assert_eq!(join("", "x.png"), "x.png");
    assert_eq!(join(BASE, ""), "/data/user/files/");
}

#[test]
fn join_lets_an_absolute_path_stand() {
    assert_eq!(join(BASE, "/etc/passwd"), "/etc/passwd");
    assert_eq!(absolute_path_from_relative(BASE, "/data/user/files/a"), "/data/user/files/a");
    assert_eq!(absolute_path_from_relative(BASE, "a"), "/data/user/files/a");
}

#[test]
fn absolute_paths_begin_at_the_root() {
    assert!(is_absolute_path("/"));
    assert!(is_absolute_path("/a/b"));
    assert!(!is_absolute_path(""));
    assert!(!is_absolute_path("a/b"));
    assert!(!is_absolute_path("./a"));
}

#[test]
fn relative_path_without_traversal_resolves_inside_base() {
    let resolved = resolve(BASE, "collections/Sunsets_1/img.bin").unwrap();
    assert_eq!(resolved, "/data/user/files/collections/Sunsets_1/img.bin");
    assert!(resolved.starts_with(BASE));
    assert_eq!(resolve(BASE, "a..b/c..").unwrap(), "/data/user/files/a..b/c..");
    assert_eq!(resolve(BASE, ".hidden").unwrap(), "/data/user/files/.hidden");
    assert_eq!(resolve(BASE, "").unwrap(), "/data/user/files/");
}

#[test]
fn traversal_out_of_base_is_refused() {
    assert_eq!(resolve(BASE, "../../etc/passwd"), Err(Error::PathNotAllowed));
    assert_eq!(resolve(BASE, ".."), Err(Error::PathNotAllowed));
    assert_eq!(resolve(BASE, "a/../b"), Err(Error::PathNotAllowed));
    assert_eq!(resolve(BASE, "a/.."), Err(Error::PathNotAllowed));
    assert_eq!(resolve(BASE, "/data/user/files/../other/x"), Err(Error::PathNotAllowed));
}

#[test]
fn absolute_path_outside_base_is_refused() {
    assert_eq!(resolve(BASE, "/etc/passwd"), Err(Error::PathNotAllowed));
    assert_eq!(resolve(BASE, "/data/user"), Err(Error::PathNotAllowed));
    assert_eq!(resolve(BASE, "/data/user/files_of_another/x"), Err(Error::PathNotAllowed));
}

#[test]
fn absolute_path_inside_base_is_accepted() {
    assert_eq!(resolve(BASE, "/data/user/files/a/b.png").unwrap(), "/data/user/files/a/b.png");
    assert_eq!(resolve(BASE, BASE).unwrap(), BASE);
}

#[test]
fn containment_goes_by_segments() {
    assert!(is_contained(BASE, "/data/user/files"));
    assert!(is_contained(BASE, "/data/user/files/x"));
    assert!(is_contained("/data/user/files/", "/data/user/files/x"));
    assert!(!is_contained(BASE, "/data/user/filesx"));
    assert!(!is_contained(BASE, "/data/user/files/../x"));
    assert!(!is_contained(BASE, "/data/user/files/x/.."));
    assert!(!is_contained(BASE, "/data/user/file"));
    assert!(is_contained(BASE, "/data/user/files/..x/x.."));
}

#[test]
fn file_name_is_the_last_segment() {
    assert_eq!(file_name("/tmp/foo.txt"), Some("foo.txt".to_string()));
    assert_eq!(file_name("foo.txt"), Some("foo.txt".to_string()));
    assert_eq!(file_name("/usr/bin/"), Some("bin".to_string()));
    assert_eq!(file_name("foo.txt/."), Some("foo.txt".to_string()));
    assert_eq!(file_name("foo.txt/.//"), Some("foo.txt".to_string()));
    assert_eq!(file_name("a/b/..c"), Some("..c".to_string()));
}

#[test]
fn file_name_is_missing_where_the_path_names_no_file() {
    assert_eq!(file_name(""), None);
    assert_eq!(file_name("/"), None);
    assert_eq!(file_name("."), None);
    assert_eq!(file_name("./"), None);
    assert_eq!(file_name(".."), None);
    assert_eq!(file_name("foo.txt/.."), None);
    assert_eq!(file_name("foo.txt/../."), None);
}

#[test]
fn file_name_agrees_with_the_standard_library() {
    for p in [
        "", "/", ".", "..", "a", "a/", "a/b", "a//b//", "/a/./b/.", "a/..", "./a", "../a", "a/.b",
        "a/b..", "...", "a/...", "//", "/.", "/..", "a/./.", "a/../.",
    ] {
        let expected = std::path::Path::new(p)
            .file_name()
            .map(|n| n.to_str().unwrap().to_string());
        assert_eq!(file_name(p), expected);
    }
}

#[test]
fn join_agrees_with_the_standard_library() {
    for base in ["", "/", "/a", "/a/", "a", "a/b/"] {
        for p in ["", "x", "x/y", "/x", "./x", "../x", "x/"] {
            let expected = std::path::Path::new(base).join(p);
            assert_eq!(join(base, p), expected.to_str().unwrap());
            assert_eq!(is_absolute_path(p), std::path::Path::new(p).is_absolute());
        }
    }
}
