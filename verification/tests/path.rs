use std::path::{Path, PathBuf};
use web_gateway::path::{components_of, lies_within, name_of, resolve};

fn join(base: &str, path: &str) -> String {
    String::from_utf8(resolve(base.as_bytes(), path.as_bytes())).unwrap()
}

#[test]
fn paths_are_joined_as_the_standard_library_joins_them() {
    for base in ["", "/", "/a", "/a/", "a/b", "."] {
        for path in ["", "x", "x/y", "/etc", "../z", "."] {
            let expected = PathBuf::from(base).join(path);
            assert_eq!(join(base, path), expected.to_str().unwrap(), "{} {}", base, path);
        }
    }
    assert_eq!(join("/a", "b"), "/a/b");
    assert_eq!(join("/a", ""), "/a/");
    assert_eq!(join("/a", "/etc/passwd"), "/etc/passwd");
}

#[test]
fn containment_is_that_of_the_standard_library() {
    let samples = [
        "", "/", "/a", "/a/", "/a/b", "/a/bc", "//a//b", "/a/./b", "./a", "a", "a/b", "/a/../b", "..",
    ];
    for path in samples {
        for base in samples {
            assert_eq!(
                lies_within(path.as_bytes(), base.as_bytes()),
                Path::new(path).starts_with(base),
                "{} {}",
                path,
                base
            );
        }
    }
}

#[test]
fn siblings_do_not_lie_within_each_other() {
    assert!(lies_within(b"/home/p/one/index.html", b"/home/p/one"));
    assert!(lies_within(b"/home/p/one", b"/home/p/one"));
    assert!(!lies_within(b"/home/p/one-more", b"/home/p/one"));
    assert!(!lies_within(b"/home/p", b"/home/p/one"));
}

#[test]
fn containment_is_transitive_on_nested_directories() {
    assert!(lies_within(b"/a/b/c", b"/a/b"));
    assert!(lies_within(b"/a/b", b"/a"));
    assert!(lies_within(b"/a/b/c", b"/a"));
}

#[test]
fn file_names_are_those_of_the_standard_library() {
    for path in ["", "/", ".", "..", "a", "/a", "/a/", "/a/b", "a/.", "a/..", "/x/\u{e9}", "./"] {
        let expected = Path::new(path).file_name().map(|n| n.to_str().unwrap().to_string());
        assert_eq!(name_of(path), expected, "{}", path);
    }
    assert_eq!(name_of("/home/u/.ironclaw/projects/demo"), Some("demo".to_string()));
}

#[test]
fn components_leave_out_dots_and_empty_pieces() {
    assert_eq!(
        components_of(b"/a//./b"),
        vec![b"/".to_vec(), b"a".to_vec(), b"b".to_vec()]
    );
    assert_eq!(components_of(b"./a"), vec![b".".to_vec(), b"a".to_vec()]);
}
