use grimoire::dependency::Collector;
use grimoire::document::{FrontMatter, Head};
use grimoire::node::{NodeData, NodeKind, NodePath};
use grimoire::Error;

fn data(name: &str) -> NodeData {
    let p = NodePath::new("/", "/x.md".to_string()).unwrap();
    NodeKind::Document
        .create(
            &p,
            Some(FrontMatter {
                head: Head { name: name.to_string(), deps: None },
                content: String::new(),
                orig: String::new(),
            }),
        )
        .unwrap()
}

#[test]
fn collect_then_lookup() {
    let mut c = Collector::new("/r");
    assert_eq!(c.lookup("/r/a.md"), None);
    c.collect(1, NodePath::new("/r", "/r/a.md".to_string()).unwrap(), data("A"));
    c.collect(2, NodePath::new("/r", "/r/b.md".to_string()).unwrap(), data("B"));
    assert_eq!(c.lookup("/r/a.md"), Some(1));
    assert_eq!(c.lookup("/r/b.md"), Some(2));
    assert_eq!(c.entries().len(), 2);
}

#[test]
fn collect_same_path_replaces_id_and_data() {
    let mut c = Collector::new("/r");
    c.collect(1, NodePath::new("/r", "/r/a.md".to_string()).unwrap(), data("A"));
    c.collect(5, NodePath::new("/r", "/r/a.md".to_string()).unwrap(), data("A2"));
    assert_eq!(c.entries().len(), 1);
    assert_eq!(c.lookup("/r/a.md"), Some(5));
    assert_eq!(c.entries()[0].2.name(), "A2");
}

#[test]
fn resolve_at_finds_collected_node() {
    let mut c = Collector::new("/r");
    let a = NodePath::new("/r", "/r/d/a.md".to_string()).unwrap();
    c.collect(3, NodePath::new("/r", "/r/b.md".to_string()).unwrap(), data("B"));
    assert_eq!(c.resolve_at(&a, "../b.md", Some("/r/b.md".to_string())).unwrap(), 3);
    match c.resolve_at(&a, "../z.md", Some("/r/z.md".to_string())) {
        Err(Error::UnknownDep { dep, from }) => {
            assert_eq!(dep, "z.md");
            assert_eq!(from, "d/a.md");
        }
        other => panic!("unexpected {other:?}"),
    }
    assert!(matches!(c.resolve_at(&a, "q", None), Err(Error::Canonicalize { .. })));
    assert!(matches!(
        c.resolve_at(&a, "q", Some("/elsewhere/q".to_string())),
        Err(Error::NotInRoot { .. })
    ));
}

#[test]
fn resolve_on_disk() {
    // `/` is the root; the node's directory is `/tmp`, and `.` resolves to it.
    let mut c = Collector::new("/");
    let node = NodePath::new("/", "/tmp/x.md".to_string()).unwrap();
    assert!(matches!(c.resolve(&node, "."), Err(Error::UnknownDep { .. })));
    c.collect(9, NodePath::new("/", "/tmp".to_string()).unwrap(), data("T"));
    assert_eq!(c.resolve(&node, ".").unwrap(), 9);
    assert!(matches!(
        c.resolve(&node, "no-such-grimoire-file.md"),
        Err(Error::Canonicalize { .. })
    ));
}

#[test]
fn resolve_from_path_without_directory_fails() {
    let c = Collector::new("/");
    let root = NodePath::new("/", "/".to_string()).unwrap();
    assert!(matches!(c.resolve(&root, "a.md"), Err(Error::NoParent { .. })));
}

fn data_with_deps(name: &str, deps: &[&str]) -> NodeData {
    let p = NodePath::new("/", "/x.md".to_string()).unwrap();
    NodeKind::Document
        .create(
            &p,
            Some(FrontMatter {
                head: Head {
                    name: name.to_string(),
                    deps: Some(deps.iter().map(|d| d.to_string()).collect()),
                },
                content: String::new(),
                orig: String::new(),
            }),
        )
        .unwrap()
}

#[test]
fn dependency_records_in_order_until_first_failure() {
    let mut c = Collector::new("/");
    c.collect(9, NodePath::new("/", "/tmp".to_string()).unwrap(), data("T"));
    c.collect(4, NodePath::new("/", "/tmp/x.md".to_string()).unwrap(), data_with_deps("X", &[".", "."]));
    let (records, failure) = c.dependency_records();
    assert_eq!(records, vec![(4, 9), (4, 9)]);
    assert!(failure.is_none());

    c.collect(5, NodePath::new("/", "/tmp/y.md".to_string()).unwrap(), data_with_deps("Y", &[".", "no-such-grimoire-file.md", "."]));
    let (records, failure) = c.dependency_records();
    assert_eq!(records, vec![(4, 9), (4, 9), (5, 9)]);
    assert!(matches!(failure, Some(Error::Canonicalize { .. })));
}

#[test]
fn dependency_target_joins_onto_directory() {
    let node = NodePath::new("/r", "/r/a/x.md".to_string()).unwrap();
    assert_eq!(node.dependency_target("../b.md"), "/r/a/../b.md");
}
