use spades_runner::path::{has_name, join_path, parent_dir, path_components};
use std::path::Path;

fn std_components(path: &str) -> Vec<String> {
    Path::new(path)
        .components()
        .map(|c| c.as_os_str().to_string_lossy().into_owned())
        .collect()
}

#[test]
fn components_of_plain_paths() {
    assert_eq!(path_components("test_files/trimmed_test"), vec!["test_files", "trimmed_test"]);
    assert_eq!(path_components("/data/s1/trimmed"), vec!["/", "data", "s1", "trimmed"]);
    assert_eq!(path_components("a//b/./c/"), vec!["a", "b", "c"]);
    assert_eq!(path_components("./a"), vec![".", "a"]);
    assert_eq!(path_components("a/../b"), vec!["a", "..", "b"]);
    assert!(path_components("").is_empty());
}

#[test]
fn components_agree_with_std() {
    for p in [
        "", ".", "..", "/", "//", "a", "a/", "a/b", "/a/b", "//a//b//", "./a/./b/.", "a/./.",
        "../a", "/.", "/./a", "a b/c d", ".hidden/x", "a/.hidden", "./", "a/..",
    ] {
        assert_eq!(path_components(p), std_components(p), "for {:?}", p);
    }
}

#[test]
fn join_agrees_with_std() {
    for (base, name) in [
        ("assemblies", "s1"),
        ("assemblies/", "s1"),
        ("", "s1"),
        ("out", ""),
        ("out", "/abs/s1"),
        ("/", "s1"),
        ("a/b", "c/d"),
    ] {
        let want = Path::new(base).join(name).to_string_lossy().into_owned();
        assert_eq!(join_path(base, name), want, "for {:?} and {:?}", base, name);
    }
}

#[test]
fn join_puts_one_slash_between() {
    assert_eq!(join_path("assemblies", "contig_symlinks"), "assemblies/contig_symlinks");
    assert_eq!(join_path("test/assemblies/", "s1"), "test/assemblies/s1");
}

#[test]
fn parent_is_the_directory_that_holds_the_path() {
    assert_eq!(parent_dir("out/s1/spades.log"), "out/s1");
    assert_eq!(parent_dir("/out/spades.log"), "/out");
    assert_eq!(parent_dir("/spades.log"), "/");
    assert_eq!(parent_dir("spades.log"), "");
    assert_eq!(parent_dir(""), "");
    assert_eq!(parent_dir("./spades.log"), ".");
}

#[test]
fn parent_agrees_with_std_on_walked_paths() {
    for p in ["a/b", "a/b/c.log", "/a", "/a/b", "x", "./x", "../x/y"] {
        let want = Path::new(p).parent().unwrap().to_string_lossy().into_owned();
        assert_eq!(parent_dir(p), want, "for {:?}", p);
    }
}

#[test]
fn names_are_last_components() {
    assert!(has_name("out/s1/spades.log", "spades.log"));
    assert!(has_name("spades.log", "spades.log"));
    assert!(has_name("out/spades.log/", "spades.log"));
    assert!(!has_name("out/my_spades.log", "spades.log"));
    assert!(!has_name("out/spades.log/x", "spades.log"));
    assert!(!has_name("", "spades.log"));
    for p in ["out/s1/spades.log", "out/my_spades.log", "spades.log/", "a/spades.log/b"] {
        assert_eq!(has_name(p, "spades.log"), Path::new(p).ends_with("spades.log"));
    }
}
