use stager::path::components;
use stager::path::file_name;
use stager::path::is_absolute;
use stager::path::is_file_name;
use stager::path::join;
use stager::path::joined;
use stager::path::parent;
use stager::path::strip_prefix;
use std::path::Path;

fn strings(parts: &[&str]) -> Vec<String> {
    parts.iter().map(|part| part.to_string()).collect()
}

#[test]
fn components_pass_over_empty_parts_and_dots() {
    assert_eq!(components("/usr//lib/./x"), strings(&["usr", "lib", "x"]));
    assert_eq!(components("a/b/"), strings(&["a", "b"]));
    assert_eq!(components("./a"), strings(&["a"]));
    assert_eq!(components("a/../b"), strings(&["a", "..", "b"]));
    assert_eq!(components("..."), strings(&["..."]));
    assert_eq!(components(""), strings(&[]));
    assert_eq!(components("/"), strings(&[]));
    assert_eq!(components("."), strings(&[]));
    assert_eq!(components("//.//"), strings(&[]));
}

#[test]
fn components_keep_characters_beyond_ascii() {
    assert_eq!(components("/übung/日本語/x"), strings(&["übung", "日本語", "x"]));
    assert_eq!(file_name("/tmp/naïve.txt"), Some("naïve.txt".to_string()));
}

#[test]
fn joined_puts_one_separator_between_parts() {
    assert_eq!(joined(&strings(&[])), "");
    assert_eq!(joined(&strings(&["a"])), "a");
    assert_eq!(joined(&strings(&["a", "b", "c"])), "a/b/c");
}

#[test]
fn joined_components_read_back() {
    for path in ["a/b/c", "usr/lib/x", "name"] {
        assert_eq!(joined(&components(path)), path);
    }
    assert_eq!(joined(&components("/a//b/./c/")), "a/b/c");
}

#[test]
fn is_absolute_looks_at_the_first_character() {
    assert!(is_absolute("/"));
    assert!(is_absolute("/a"));
    assert!(!is_absolute(""));
    assert!(!is_absolute("a/b"));
    assert!(!is_absolute("./a"));
}

#[test]
fn file_name_is_the_last_component() {
    assert_eq!(file_name("/usr/bin/"), Some("bin".to_string()));
    assert_eq!(file_name("tmp/foo.txt"), Some("foo.txt".to_string()));
    assert_eq!(file_name("foo.txt/."), Some("foo.txt".to_string()));
    assert_eq!(file_name("foo.txt/.//"), Some("foo.txt".to_string()));
    assert_eq!(file_name("foo.txt/.."), None);
    assert_eq!(file_name("/"), None);
    assert_eq!(file_name(""), None);
    assert_eq!(file_name(".."), None);
}

#[test]
fn file_name_agrees_with_std_paths() {
    for path in [
        "/usr/bin/",
        "tmp/foo.txt",
        "foo.txt/.",
        "foo.txt/.//",
        "foo.txt/..",
        "/",
        "",
        ".",
        "..",
        "a",
        "a/b",
        "./a",
        "/a/b/../c",
        "a//b",
    ] {
        let expected = Path::new(path)
            .file_name()
            .map(|name| name.to_str().unwrap().to_string());
        assert_eq!(file_name(path), expected, "{:?}", path);
    }
}

#[test]
fn is_file_name_takes_single_components_only() {
    assert!(is_file_name("app"));
    assert!(is_file_name("app.tar.gz"));
    assert!(is_file_name("..."));
    assert!(is_file_name(".hidden"));
    assert!(!is_file_name(""));
    assert!(!is_file_name("."));
    assert!(!is_file_name(".."));
    assert!(!is_file_name("sub/evil"));
    assert!(!is_file_name("/abs"));
    assert!(!is_file_name("dir/"));
    assert!(!is_file_name("../up"));
}

#[test]
fn is_file_name_agrees_with_std_paths() {
    for name in ["app", "", ".", "..", "sub/evil", "/abs", "dir/", "a.b", "...", "a//"] {
        let path = Path::new(name);
        let expected = path.file_name().map(|n| n.to_str().unwrap()) == Some(name);
        assert_eq!(is_file_name(name), expected, "{:?}", name);
    }
}

#[test]
fn join_puts_the_rest_below_the_base() {
    assert_eq!(join("/etc", "passwd"), "/etc/passwd");
    assert_eq!(join("/etc/", "passwd"), "/etc/passwd");
    assert_eq!(join("", "passwd"), "passwd");
    assert_eq!(join("/", "passwd"), "/passwd");
    assert_eq!(join("bin", "a/b"), "bin/a/b");
    assert_eq!(join("bin", ""), "bin/");
    assert_eq!(join("bin", "/abs"), "/abs");
}

#[test]
fn join_agrees_with_std_paths() {
    for (base, rest) in [
        ("/etc", "passwd"),
        ("/etc/", "passwd"),
        ("", "passwd"),
        ("/", "passwd"),
        ("bin", "a/b"),
        ("bin", ""),
        ("bin", "/abs"),
        ("", ""),
        ("a//", "b"),
    ] {
        let expected = Path::new(base).join(rest);
        assert_eq!(
            Path::new(&join(base, rest)),
            expected.as_path(),
            "{:?} {:?}",
            base,
            rest
        );
        assert_eq!(join(base, rest), expected.to_str().unwrap());
    }
}

#[test]
fn strip_prefix_leaves_what_lies_below() {
    assert_eq!(
        strip_prefix("/test/haha/foo.txt", "/"),
        Some("test/haha/foo.txt".to_string())
    );
    assert_eq!(
        strip_prefix("/test/haha/foo.txt", "/test"),
        Some("haha/foo.txt".to_string())
    );
    assert_eq!(
        strip_prefix("/test/haha/foo.txt", "/test/"),
        Some("haha/foo.txt".to_string())
    );
    assert_eq!(
        strip_prefix("/test/haha/foo.txt", "/test/haha/foo.txt"),
        Some("".to_string())
    );
    assert_eq!(
        strip_prefix("/test/haha/foo.txt", "/test/haha/foo.txt/"),
        Some("".to_string())
    );
    assert_eq!(strip_prefix("/test/haha/foo.txt", "test"), None);
    assert_eq!(strip_prefix("/test/haha/foo.txt", "/haha"), None);
    assert_eq!(strip_prefix("/test", "/test/haha"), None);
    assert_eq!(strip_prefix("a/b/c", "a"), Some("b/c".to_string()));
}

#[test]
fn strip_prefix_agrees_with_std_paths() {
    for (path, base) in [
        ("/test/haha/foo.txt", "/"),
        ("/test/haha/foo.txt", "/test"),
        ("/test/haha/foo.txt", "/test/"),
        ("/test/haha/foo.txt", "/test/haha/foo.txt"),
        ("/test/haha/foo.txt", "test"),
        ("/test/haha/foo.txt", "/haha"),
        ("/test", "/test/haha"),
        ("a/b/c", "a"),
        ("a/b/c", "a/b/c/d"),
    ] {
        let expected = Path::new(path)
            .strip_prefix(base)
            .ok()
            .map(|rest| rest.to_str().unwrap().to_string());
        assert_eq!(strip_prefix(path, base), expected, "{:?} {:?}", path, base);
    }
}

#[test]
fn parent_is_the_directory_above() {
    assert_eq!(parent("/foo/bar"), Some("/foo".to_string()));
    assert_eq!(parent("/foo"), Some("/".to_string()));
    assert_eq!(parent("/"), None);
    assert_eq!(parent(""), None);
    assert_eq!(parent("foo"), Some("".to_string()));
    assert_eq!(parent("foo/bar/"), Some("foo".to_string()));
    assert_eq!(parent("a//b/./c"), Some("a/b".to_string()));
}

#[test]
fn parent_agrees_with_std_paths() {
    for path in ["/foo/bar", "/foo", "/", "", "foo", "foo/bar/", "/a/b/c", "a/b"] {
        let expected = Path::new(path)
            .parent()
            .map(|dir| dir.to_str().unwrap().to_string());
        assert_eq!(parent(path), expected, "{:?}", path);
    }
}

#[test]
fn a_file_name_joined_to_any_directory_is_found_again() {
    for dir in ["", "/", "bin", "bin/", "/usr/local//", "a/../b"] {
        for name in ["app", ".hidden", "...", "a b"] {
            assert_eq!(file_name(&join(dir, name)), Some(name.to_string()));
        }
    }
}
