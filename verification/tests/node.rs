use grimoire::db::{DbNewNode, DbNode, DbNodePath};
use grimoire::document::{FrontMatter, Head};
use grimoire::node::{node_to_insert, NewNode, Node, NodeData, NodeDataKind, NodeHead, NodeKind, NodePath};
use grimoire::Error;
use std::str::FromStr;

fn matter(name: &str, deps: Option<Vec<&str>>, content: &str, orig: &str) -> FrontMatter {
    FrontMatter {
        head: Head {
            name: name.to_string(),
            deps: deps.map(|d| d.into_iter().map(|s| s.to_string()).collect()),
        },
        content: content.to_string(),
        orig: orig.to_string(),
    }
}

#[test]
fn node_path_new_strips_root() {
    let p = NodePath::new("/root", "/root/notes/a.md".to_string()).unwrap();
    assert_eq!(p.rel().as_str(), "notes/a.md");
    assert_eq!(p.abs().as_str(), "/root/notes/a.md");
    assert_eq!(p.abs().extension(), Some("md"));
}

#[test]
fn node_path_new_outside_root_fails() {
    match NodePath::new("/root", "/elsewhere/a.md".to_string()) {
        Err(Error::NotInRoot { path, root }) => {
            assert_eq!(path, "/elsewhere/a.md");
            assert_eq!(root, "/root");
        }
        other => panic!("unexpected {other:?}"),
    }
    // Prefixes count by whole components.
    assert!(NodePath::new("/ro", "/root/a.md".to_string()).is_err());
}

#[test]
fn node_path_revive_joins_root() {
    let p = NodePath::revive("/root", DbNodePath("x/y.md".to_string()));
    assert_eq!(p.rel().as_str(), "x/y.md");
    assert_eq!(p.abs().as_str(), "/root/x/y.md");
}

#[test]
fn node_path_dependency_at_resolves_below_root() {
    let p = NodePath::new("/root", "/root/a/b.md".to_string()).unwrap();
    let d = p.dependency_at("/root", "../c.md", Some("/root/c.md".to_string())).unwrap();
    assert_eq!(d.rel().as_str(), "c.md");
    match p.dependency_at("/root", "../c.md", None) {
        Err(Error::Canonicalize { dep, from }) => {
            assert_eq!(dep, "../c.md");
            assert_eq!(from, "a/b.md");
        }
        other => panic!("unexpected {other:?}"),
    }
    assert!(matches!(
        p.dependency_at("/root", "x", Some("/other/x".to_string())),
        Err(Error::NotInRoot { .. })
    ));
}

#[test]
fn node_path_dependency_of_missing_file_fails() {
    let p = NodePath::new("/", "/nonexistent-grimoire-dir/a.md".to_string()).unwrap();
    assert!(matches!(p.dependency("/", "b.md"), Err(Error::Canonicalize { .. })));
}

#[test]
fn node_kind_determine_by_extension() {
    assert_eq!(NodeKind::determine(Some("md")), Some(NodeKind::Document));
    assert_eq!(NodeKind::determine(Some("mdx")), None);
    assert_eq!(NodeKind::determine(Some("txt")), None);
    assert_eq!(NodeKind::determine(None), None);
    assert_eq!(NodeDataKind::determine(Some("md")), Some(NodeDataKind::Document));
    assert_eq!(NodeDataKind::determine(Some("MD")), None);
}

#[test]
fn node_kind_name_round_trip() {
    assert_eq!(NodeKind::Document.as_str(), "Document");
    assert_eq!(NodeKind::from_str(NodeKind::Document.as_str()).unwrap(), NodeKind::Document);
    match NodeKind::from_name("Page") {
        Err(Error::NoSuchNodeKind { kind }) => assert_eq!(kind, "Page"),
        other => panic!("unexpected {other:?}"),
    }
    assert!(NodeKind::from_str("document").is_err());
}

#[test]
fn node_kind_create_document() {
    let p = NodePath::new("/r", "/r/a.md".to_string()).unwrap();
    let data = NodeKind::Document
        .create(&p, Some(matter("A", Some(vec!["b.md"]), "body", "---\nname: A\n---\nbody")))
        .unwrap();
    assert_eq!(data.name(), "A");
    assert_eq!(data.text(), "---\nname: A\n---\nbody");
    assert_eq!(data.deps().unwrap(), &["b.md".to_string()][..]);
    assert_eq!(data.kind(), NodeKind::Document);
    let NodeData::Document(d) = &data;
    assert_eq!(d.body(), "body");
}

#[test]
fn node_kind_create_without_front_matter_fails() {
    let p = NodePath::new("/r", "/r/a.md".to_string()).unwrap();
    match NodeKind::Document.create(&p, None) {
        Err(Error::CreateNode { kind, path, source }) => {
            assert_eq!(kind, "Document");
            assert_eq!(path, "a.md");
            assert!(matches!(*source, Error::NoFrontMatter));
        }
        other => panic!("unexpected {other:?}"),
    }
    match NodeDataKind::Document.create(&p, None) {
        Err(Error::CreateNode { kind, .. }) => assert_eq!(kind, "document"),
        other => panic!("unexpected {other:?}"),
    }
}

fn row(kind: &str) -> DbNode {
    DbNode {
        id: 7,
        path: DbNodePath("n/a.md".to_string()),
        name: "A".to_string(),
        kind: kind.to_string(),
        text: "t".to_string(),
    }
}

#[test]
fn node_revive_from_row() {
    let node = Node::revive("/root", row("Document"), Some(matter("A", None, "c", "t"))).unwrap();
    assert_eq!(node.name(), "A");
    assert_eq!(node.kind(), NodeKind::Document);
    assert_eq!(node.path().rel().as_str(), "n/a.md");
    assert_eq!(node.path().abs().as_str(), "/root/n/a.md");
    assert!(node.data().deps().is_none());
}

#[test]
fn node_revive_errors() {
    assert!(matches!(
        Node::revive("/root", row("Nope"), Some(matter("A", None, "c", "t"))),
        Err(Error::NoSuchNodeKind { .. })
    ));
    assert!(matches!(Node::revive("/root", row("Document"), None), Err(Error::CreateNode { .. })));
}

#[test]
fn node_head_revive_from_row() {
    let head = NodeHead::revive("/root", row("Document")).unwrap();
    assert_eq!(head.name(), "A");
    assert_eq!(head.kind(), NodeKind::Document);
    assert_eq!(head.path().abs().as_str(), "/root/n/a.md");
    assert!(matches!(NodeHead::revive("/root", row("x")), Err(Error::NoSuchNodeKind { .. })));
}

#[test]
fn db_new_node_from_new_node() {
    let p = NodePath::new("/r", "/r/d/a.md".to_string()).unwrap();
    let data = NodeKind::Document.create(&p, Some(matter("A", None, "c", "orig"))).unwrap();
    let row = DbNewNode::from(NewNode { path: &p, data: &data });
    assert_eq!(row.path, "d/a.md");
    assert_eq!(row.name, "A");
    assert_eq!(row.kind, "Document");
    assert_eq!(row.text, "orig");
}

#[test]
fn node_to_insert_cases() {
    let (p, data) = node_to_insert("/r", "/r/a.md".to_string(), Some(matter("A", None, "c", "o")))
        .unwrap()
        .unwrap();
    assert_eq!(p.rel().as_str(), "a.md");
    assert_eq!(data.name(), "A");
    assert!(node_to_insert("/r", "/r/a.txt".to_string(), None).unwrap().is_none());
    assert!(node_to_insert("/r", "/r/noext".to_string(), None).unwrap().is_none());
    assert!(matches!(node_to_insert("/r", "/x/a.md".to_string(), None), Err(Error::NotInRoot { .. })));
    assert!(matches!(node_to_insert("/r", "/r/a.md".to_string(), None), Err(Error::CreateNode { .. })));
}

#[test]
fn insert_then_revive_round_trip() {
    let m = || matter("A", None, "c", "orig");
    let (p, data) = node_to_insert("/r", "/r/d/a.md".to_string(), Some(m())).unwrap().unwrap();
    let new_row = DbNewNode::from(NewNode { path: &p, data: &data });
    let stored = DbNode {
        id: 42,
        path: DbNodePath(new_row.path.to_string()),
        name: new_row.name.to_string(),
        kind: new_row.kind.to_string(),
        text: new_row.text.to_string(),
    };
    let n = Node::revive("/r", stored, Some(m())).unwrap();
    assert_eq!(n.name(), data.name());
    assert_eq!(n.kind(), NodeKind::Document);
    assert_eq!(n.data().text(), data.text());
    assert_eq!(n.path().rel().as_str(), p.rel().as_str());
    assert_eq!(n.path().abs().as_str(), "/r/d/a.md");
}

#[test]
fn node_path_revive_join_cases() {
    let abs = |root: &str, rel: &str| NodePath::revive(root, DbNodePath(rel.to_string())).abs().as_str().to_string();
    assert_eq!(abs("/r/", "a.md"), "/r/a.md");
    assert_eq!(abs("/r", "/other/a.md"), "/other/a.md");
    assert_eq!(abs("", "a.md"), "a.md");
    assert_eq!(abs("/r", ""), "/r/");
}
