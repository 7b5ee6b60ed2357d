use shell_core::paths::{contains_text, find_along, join, list_candidates, split_search_path};
use std::path::Path;

fn owned(items: &[&str]) -> Vec<String> {
    items.iter().map(|s| s.to_string()).collect()
}

#[test]
fn join_appends_after_one_separator() {
    assert_eq!(join("/usr/bin", "ls"), "/usr/bin/ls");
    assert_eq!(join("/usr/bin/", "ls"), "/usr/bin/ls");
    assert_eq!(join("/", "tmp"), "/tmp");
    assert_eq!(join("/home/me", "a/b"), "/home/me/a/b");
    assert_eq!(join("/home/me", ".."), "/home/me/..");
    assert_eq!(join("rel", "x"), "rel/x");
}

#[test]
fn join_lets_an_absolute_path_stand() {
    assert_eq!(join("/usr/bin", "/bin/ls"), "/bin/ls");
    assert_eq!(join("/home/me", "/does/not/exist"), "/does/not/exist");
    assert_eq!(join("", "/x"), "/x");
    assert_eq!(join("/a", "/"), "/");
}

#[test]
fn join_with_an_empty_side() {
    assert_eq!(join("", "ls"), "ls");
    assert_eq!(join("", ""), "");
    assert_eq!(join("/a", ""), "/a/");
    assert_eq!(join("/a/", ""), "/a/");
}

#[test]
fn path_join_agrees_with_std() {
    let sides = ["", "/", "/a", "/a/", "a", "a/", "/usr/bin", "..", ".", "~", "a b", "/caf\u{e9}", "//x"];
    for base in sides {
        for rel in sides {
            let expected = Path::new(base).join(rel);
            assert_eq!(join(base, rel), expected.to_str().unwrap(), "{:?} {:?}", base, rel);
        }
    }
}

#[test]
fn search_path_splits_at_colons() {
    assert_eq!(split_search_path("/usr/bin:/bin"), owned(&["/usr/bin", "/bin"]));
    assert_eq!(split_search_path("/only"), owned(&["/only"]));
    assert_eq!(split_search_path("/a:/b:/c"), owned(&["/a", "/b", "/c"]));
}

#[test]
fn search_path_keeps_empty_pieces() {
    assert_eq!(split_search_path(""), owned(&[""]));
    assert_eq!(split_search_path(":"), owned(&["", ""]));
    assert_eq!(split_search_path("/a::/b"), owned(&["/a", "", "/b"]));
    assert_eq!(split_search_path(":/a:"), owned(&["", "/a", ""]));
}

#[test]
fn search_path_agrees_with_std() {
    for value in ["", ":", "::", "/a", "/a:", ":/a", "/a:/b", "/usr/local/bin:/usr/bin:/bin", "a b:c", "/caf\u{e9}:/x"] {
        let expected: Vec<String> = value.split(":").map(|s| s.to_string()).collect();
        assert_eq!(split_search_path(value), expected, "{:?}", value);
    }
}

#[test]
fn candidates_follow_the_search_path() {
    let dirs = owned(&["/d1", "/d2/", ""]);
    assert_eq!(list_candidates("foo", &dirs), owned(&["/d1/foo", "/d2/foo", "foo"]));
    assert_eq!(list_candidates("/bin/ls", &dirs), owned(&["/bin/ls", "/bin/ls", "/bin/ls"]));
    assert_eq!(list_candidates("foo", &[]), Vec::<String>::new());
}

#[test]
fn contains_text_finds_equal_text() {
    let items = owned(&["/d1/foo", "/d2/foo"]);
    assert!(contains_text(&items, "/d1/foo"));
    assert!(contains_text(&items, "/d2/foo"));
    assert!(!contains_text(&items, "/d3/foo"));
    assert!(!contains_text(&items, "/d1/fo"));
    assert!(!contains_text(&[], ""));
}

#[test]
fn resolver_takes_the_first_directory_that_has_the_file() {
    let dirs = owned(&["/d1", "/d2"]);
    let both = owned(&["/d1/foo", "/d2/foo"]);
    assert_eq!(find_along("foo", &dirs, &both), Some("/d1/foo".to_string()));
    let swapped = owned(&["/d2/foo", "/d1/foo"]);
    assert_eq!(find_along("foo", &dirs, &swapped), Some("/d1/foo".to_string()));
    let reversed = owned(&["/d2", "/d1"]);
    assert_eq!(find_along("foo", &reversed, &both), Some("/d2/foo".to_string()));
}

#[test]
fn resolver_passes_directories_without_the_file() {
    let dirs = owned(&["/d1", "/d2", "/d3"]);
    assert_eq!(find_along("foo", &dirs, &owned(&["/d3/foo"])), Some("/d3/foo".to_string()));
    assert_eq!(find_along("foo", &dirs, &owned(&["/d2/foo", "/d3/foo"])), Some("/d2/foo".to_string()));
}

#[test]
fn resolver_finds_nothing_where_no_directory_has_the_file() {
    let dirs = owned(&["/d1", "/d2"]);
    assert_eq!(find_along("foo", &dirs, &[]), None);
    assert_eq!(find_along("foo", &dirs, &owned(&["/d1/bar", "/d3/foo", "foo"])), None);
    assert_eq!(find_along("foo", &[], &owned(&["/d1/foo"])), None);
}
