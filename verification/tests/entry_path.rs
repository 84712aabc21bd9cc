use artifact_fetch::entry_path::enclosed_path;

fn names(parts: &[&str]) -> Option<Vec<String>> {
    Some(parts.iter().map(|p| p.to_string()).collect())
}

#[test]
fn plain_paths_are_kept() {
    assert_eq!(enclosed_path("a.txt"), names(&["a.txt"]));
    assert_eq!(enclosed_path("dir/a.txt"), names(&["dir", "a.txt"]));
    assert_eq!(enclosed_path("dir/sub/"), names(&["dir", "sub"]));
    assert_eq!(enclosed_path("dir\\a.txt"), names(&["dir", "a.txt"]));
    assert_eq!(enclosed_path("...").unwrap(), vec!["...".to_string()]);
    assert_eq!(enclosed_path("a..b/.c"), names(&["a..b", ".c"]));
    assert_eq!(enclosed_path("ü/ß.txt"), names(&["ü", "ß.txt"]));
    assert_eq!(enclosed_path("ab:c"), names(&["ab:c"]));
}

#[test]
fn empty_and_current_pieces_are_passed_over() {
    assert_eq!(enclosed_path(""), names(&[]));
    assert_eq!(enclosed_path("."), names(&[]));
    assert_eq!(enclosed_path("./a//b/./c"), names(&["a", "b", "c"]));
}

#[test]
fn parent_pieces_go_up_inside_the_destination() {
    assert_eq!(enclosed_path("foo/../bar"), names(&["bar"]));
    assert_eq!(enclosed_path("a/b/../../c"), names(&["c"]));
    assert_eq!(enclosed_path("a/.."), names(&[]));
}

#[test]
fn paths_that_leave_the_destination_are_refused() {
    assert_eq!(enclosed_path("../../etc/passwd"), None);
    assert_eq!(enclosed_path(".."), None);
    assert_eq!(enclosed_path("foo/../../bar"), None);
    assert_eq!(enclosed_path("a/../../a/b"), None);
    assert_eq!(enclosed_path("..\\..\\windows\\system32"), None);
    assert_eq!(enclosed_path("a/b/../../../c"), None);
}

#[test]
fn rooted_paths_are_refused() {
    assert_eq!(enclosed_path("/etc/passwd"), None);
    assert_eq!(enclosed_path("\\\\server\\share\\x"), None);
    assert_eq!(enclosed_path("/"), None);
}

#[test]
fn drives_are_refused() {
    assert_eq!(enclosed_path("C:/windows"), None);
    assert_eq!(enclosed_path("C:windows"), None);
    assert_eq!(enclosed_path("a/C:/b"), None);
    assert_eq!(enclosed_path("c:"), None);
    assert_eq!(enclosed_path("a:b"), None);
}

#[test]
fn nul_is_refused() {
    assert_eq!(enclosed_path("a\0b"), None);
    assert_eq!(enclosed_path("a/b\0"), None);
    assert_eq!(enclosed_path("\0"), None);
}
