use grimoire::node::key::key_of_path;
use std::path::Path;

#[test]
fn key_of_path_cases() {
    assert_eq!(key_of_path("/r/a.md"), "/r/a.md");
    assert_eq!(key_of_path("/r//a.md"), "/r/a.md");
    assert_eq!(key_of_path("/r/./a.md/"), "/r/a.md");
    assert_eq!(key_of_path("/"), "/");
    assert_eq!(key_of_path(""), "");
    assert_eq!(key_of_path("."), ".");
    assert_eq!(key_of_path("./a"), "./a");
    assert_eq!(key_of_path("a/./b/"), "a/b");
    assert_eq!(key_of_path("a/../b"), "a/../b");
}

#[test]
fn key_of_path_matches_path_equality() {
    let paths = [
        "/r/a.md", "/r//a.md", "/r/./a.md", "/r/a.md/", "r/a.md", "./r/a.md", "/r/../a.md", "/", "//", ".", "", "a/.",
        "a", "./", "/r/a.mdx",
    ];
    for a in paths {
        for b in paths {
            assert_eq!(
                key_of_path(a) == key_of_path(b),
                Path::new(a) == Path::new(b),
                "{a:?} vs {b:?}"
            );
        }
    }
}
