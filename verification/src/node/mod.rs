//! Nodes: the files below the root directory that the library knows, with
//! their paths and what they hold.
use vstd::prelude::*;
use crate::db::DbNode;
use crate::document::FrontMatter;
use crate::error::Error;

pub mod kind;
pub mod key;
pub mod path;

pub use kind::{kind_name, NodeContent, NodeData, NodeDataKind, NodeKind};
pub use path::{path_extension, path_join, path_strip_prefix, NodePath, NodePathAbs, NodePathRel, RootPath};
pub use kind::kind_of_extension;

verus! {

/// A node with all it holds.
#[derive(Debug)]
pub struct Node {
    pub(crate) id: i64,
    path: NodePath,
    data: NodeData,
}

impl Node {
    pub closed spec fn id_view(&self) -> i64 {
        self.id
    }

    pub closed spec fn path_view(&self) -> NodePath {
        self.path
    }

    pub closed spec fn data_view(&self) -> NodeData {
        self.data
    }

    pub fn path(&self) -> (r: &NodePath)
        ensures
            *r == self.path_view(),
    {
        &self.path
    }

    pub fn name(&self) -> (r: &str)
        ensures
            r@ == self.data_view().name_view(),
    {
        self.data.name()
    }

    pub fn kind(&self) -> (r: NodeKind)
        ensures
            r == self.data_view().kind_view(),
    {
        self.data.kind()
    }

    pub fn data(&self) -> (r: &NodeData)
        ensures
            *r == self.data_view(),
    {
        &self.data
    }

    /// The node of a stored row below `root`, given how the front matter of
    /// the stored text parsed: an error where the stored kind names no
    /// kind, or where the node cannot be created from the text.
    pub fn revive(root: &str, node: DbNode, parsed: Option<FrontMatter>) -> (r: Result<Self, Error>)
        ensures
            revive_gives(root@, node, parsed, r),
    {
        let id = node.id;
        let path = NodePath::revive(root, node.path);
        let kind = match NodeKind::from_name(node.kind.as_str()) {
            Ok(kind) => kind,
            Err(e) => return Err(e),
        };
        let data = match kind.create(&path, parsed) {
            Ok(data) => data,
            Err(e) => return Err(e),
        };
        Ok(Node { id: id as i64, path, data })
    }
}

/// The path, name and kind of a node, without what it holds.
#[derive(Debug)]
pub struct NodeHead {
    pub(crate) id: i64,
    path: NodePath,
    name: String,
    kind: NodeKind,
}

impl NodeHead {
    pub closed spec fn id_view(&self) -> i64 {
        self.id
    }

    pub closed spec fn path_view(&self) -> NodePath {
        self.path
    }

    pub closed spec fn name_view(&self) -> Seq<char> {
        self.name@
    }

    pub closed spec fn kind_view(&self) -> NodeKind {
        self.kind
    }

    pub fn path(&self) -> (r: &NodePath)
        ensures
            *r == self.path_view(),
    {
        &self.path
    }

    pub fn name(&self) -> (r: &str)
        ensures
            r@ == self.name_view(),
    {
        self.name.as_str()
    }

    pub fn kind(&self) -> (r: NodeKind)
        ensures
            r == self.kind_view(),
    {
        self.kind
    }

    /// The head of a stored row below `root`: an error where the stored kind
    /// names no kind.
    pub fn revive(root: &str, node: DbNode) -> (r: Result<Self, Error>)
        ensures
            node.kind@ != kind_name(NodeKind::Document) ==> (r matches Err(
                Error::NoSuchNodeKind { kind },
            ) && kind@ == node.kind@),
            node.kind@ == kind_name(NodeKind::Document) ==> (r matches Ok(h) && h.id_view()
                == node.id && h.path_view()@.rel == node.path.0@ && h.path_view()@.abs == path_join(
                root@,
                node.path.0@,
            ) && h.name_view() == node.name@ && h.kind_view() == NodeKind::Document),
    {
        let id = node.id;
        let path = NodePath::revive(root, node.path);
        let name = node.name;
        let kind = match NodeKind::from_name(node.kind.as_str()) {
            Ok(kind) => kind,
            Err(e) => return Err(e),
        };
        Ok(NodeHead { id: id as i64, path, name, kind })
    }
}

/// A node about to be stored.
#[derive(Debug)]
pub struct NewNode<'a> {
    pub path: &'a NodePath,
    pub data: &'a NodeData,
}

/// What `node_to_insert` gives for the file at `path` below `root`, given
/// how the front matter of its text parsed.
pub open spec fn node_to_insert_gives(
    root: Seq<char>,
    path: Seq<char>,
    parsed: Option<FrontMatter>,
    r: Result<Option<(NodePath, NodeData)>, Error>,
) -> bool {
    if path_strip_prefix(path, root) is None {
        r matches Err(Error::NotInRoot { path: p, root: rt }) && p@ == path && rt@ == root
    } else if kind_of_extension(path_extension(path)) is None {
        r matches Ok(None)
    } else {
        match parsed {
            Some(m) => r matches Ok(Some((p, NodeData::Document(d)))) && p@.abs == path && Some(
                p@.rel,
            ) == path_strip_prefix(path, root) && d@.name == m.head.name@ && d@.body == m.content@
                && d@.text == m.orig@ && d@.deps == crate::document::deps_view(m.head.deps),
            None => r matches Err(Error::CreateNode { kind, path: p, source }) && kind@ == kind_name(
                NodeKind::Document,
            ) && Some(p@) == path_strip_prefix(path, root) && *source == Error::NoFrontMatter,
        }
    }
}

/// What `Node::revive` gives for a stored row below `root`, given how the
/// front matter of the stored text parsed.
pub open spec fn revive_gives(root: Seq<char>, node: DbNode, parsed: Option<FrontMatter>, r: Result<Node, Error>) -> bool {
    if node.kind@ != kind_name(NodeKind::Document) {
        r matches Err(Error::NoSuchNodeKind { kind }) && kind@ == node.kind@
    } else {
        match parsed {
            Some(m) => r matches Ok(n) && n.id_view() == node.id && n.path_view()@.rel
                == node.path.0@ && n.path_view()@.abs == path_join(root, node.path.0@)
                && (n.data_view() matches NodeData::Document(d) && d@.name == m.head.name@
                && d@.body == m.content@ && d@.text == m.orig@ && d@.deps
                == crate::document::deps_view(m.head.deps)),
            None => r matches Err(Error::CreateNode { kind, path: p, source }) && kind@
                == kind_name(NodeKind::Document) && p@ == node.path.0@ && *source
                == Error::NoFrontMatter,
        }
    }
}

/// A node stored and read back is the node stored: where `node_to_insert`
/// made a node from the file at `path` below `root`, the row of it was
/// stored under some id, and the row's text parses to the same front
/// matter, reviving the row gives a node with that id, the same name, kind,
/// text and relative path, and an absolute path of the root joined with
/// the relative path.
pub proof fn lemma_insert_then_revive(
    root: Seq<char>,
    path: Seq<char>,
    m: FrontMatter,
    p: NodePath,
    data: NodeData,
    row: DbNode,
    revived: Result<Node, Error>,
)
    requires
        node_to_insert_gives(root, path, Some(m), Ok(Some((p, data)))),
        row.path.0@ == p@.rel,
        row.name@ == data.name_view(),
        row.kind@ == kind_name(data.kind_view()),
        row.text@ == data.text_view(),
        revive_gives(root, row, Some(m), revived),
    ensures
        revived matches Ok(n) && n.id_view() == row.id && n.data_view().name_view()
            == data.name_view() && n.data_view().kind_view() == NodeKind::Document
            && n.data_view().text_view() == data.text_view() && n.path_view()@.rel == p@.rel
            && n.path_view()@.abs == path_join(root, p@.rel),
        revived matches Ok(n) && (n.data_view() matches NodeData::Document(d2) && (data matches NodeData::Document(
            d1,
        ) && d2@.body == d1@.body && d2@.body == m.content@ && d2@.deps == d1@.deps)),
{
}

/// A revived document holds what its front matter splits the stored text
/// into: the name it gives, the content after it as the body, and the whole
/// text as the text.
pub proof fn lemma_revive_document(root: Seq<char>, row: DbNode, m: FrontMatter, revived: Result<Node, Error>)
    requires
        row.kind@ == kind_name(NodeKind::Document),
        revive_gives(root, row, Some(m), revived),
    ensures
        revived matches Ok(n) && (n.data_view() matches NodeData::Document(d) && d@.body
            == m.content@ && d@.text == m.orig@ && d@.name == m.head.name@),
{
}

/// The node that the file at `path` below `root` makes, given how the
/// front matter of its text parsed: an error where the path is not below
/// the root; nothing where its extension makes no node; else the node of
/// its kind, or the error of creating it.
pub fn node_to_insert(root: &str, path: String, parsed: Option<FrontMatter>) -> (r: Result<
    Option<(NodePath, NodeData)>,
    Error,
>)
    ensures
        node_to_insert_gives(root@, path@, parsed, r),
{
    let path = match NodePath::new(root, path) {
        Ok(p) => p,
        Err(e) => return Err(e),
    };
    let kind = match NodeKind::determine(path.abs().extension()) {
        Some(kind) => kind,
        None => return Ok(None),
    };
    let data = match kind.create(&path, parsed) {
        Ok(data) => data,
        Err(e) => return Err(e),
    };
    Ok(Some((path, data)))
}

} // verus!
