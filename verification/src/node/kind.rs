//! The kinds of node: which files become nodes, and what a node holds.
use vstd::prelude::*;
use super::NodePath;
use crate::document::{Document, FrontMatter};
use crate::error::Error;

verus! {

/// Whether a text is exactly `expected`.
pub(crate) fn text_is(text: &str, expected: &str) -> (r: bool)
    ensures
        r == (text@ == expected@),
{
    text.to_owned() == expected.to_owned()
}

/// What a node holds, by kind.
#[derive(Debug)]
pub enum NodeData {
    Document(Document),
}

/// The kind of a node.
#[derive(Debug, Copy, Clone, PartialEq, Eq)]
pub enum NodeKind {
    Document,
}

impl NodeData {
    pub open spec fn name_view(&self) -> Seq<char> {
        match self {
            NodeData::Document(d) => d@.name,
        }
    }

    pub open spec fn deps_view(&self) -> Option<Seq<Seq<char>>> {
        match self {
            NodeData::Document(d) => d@.deps,
        }
    }

    pub open spec fn text_view(&self) -> Seq<char> {
        match self {
            NodeData::Document(d) => d@.text,
        }
    }

    pub fn name(&self) -> (r: &str)
        ensures
            r@ == self.name_view(),
    {
        match self {
            NodeData::Document(d) => d.name(),
        }
    }

    pub fn deps(&self) -> (r: Option<&[String]>)
        ensures
            match self.deps_view() {
                Some(ds) => r matches Some(s) && crate::document::texts(s@) == ds,
                None => r is None,
            },
    {
        match self {
            NodeData::Document(d) => d.deps(),
        }
    }

    pub fn text(&self) -> (r: &str)
        ensures
            r@ == self.text_view(),
    {
        match self {
            NodeData::Document(d) => d.text(),
        }
    }

    pub open spec fn kind_view(&self) -> NodeKind {
        match self {
            NodeData::Document(_) => NodeKind::Document,
        }
    }

    pub fn kind(&self) -> (r: NodeKind)
        ensures
            r == self.kind_view(),
    {
        match self {
            NodeData::Document(_) => NodeKind::Document,
        }
    }
}

impl vstd::std_specs::convert::FromSpecImpl<Document> for NodeData {
    open spec fn obeys_from_spec() -> bool {
        true
    }

    open spec fn from_spec(value: Document) -> NodeData {
        NodeData::Document(value)
    }
}

impl From<Document> for NodeData {
    fn from(value: Document) -> (r: NodeData) {
        NodeData::Document(value)
    }
}

/// The text of the name of a kind.
pub open spec fn kind_name(kind: NodeKind) -> Seq<char> {
    match kind {
        NodeKind::Document => seq!['D', 'o', 'c', 'u', 'm', 'e', 'n', 't'],
    }
}

/// The kind of the files with the given extension: markdown files are
/// documents; files of any other extension, or of none, are no nodes.
pub open spec fn kind_of_extension(extension: Option<Seq<char>>) -> Option<NodeKind> {
    if extension == Some(seq!['m', 'd']) {
        Some(NodeKind::Document)
    } else {
        None
    }
}

/// The view of an optional text.
pub open spec fn opt_view(s: Option<&str>) -> Option<Seq<char>> {
    match s {
        Some(t) => Some(t@),
        None => None,
    }
}

impl NodeKind {
    pub open spec fn name_view(&self) -> Seq<char> {
        kind_name(*self)
    }

    /// The node of this kind at `path`, given how the front matter of its
    /// text parsed; an error naming the kind and path where that fails.
    pub fn create(self, path: &NodePath, parsed: Option<FrontMatter>) -> (r: Result<NodeData, Error>)
        ensures
            match parsed {
                Some(m) => r matches Ok(NodeData::Document(d)) && d@.name == m.head.name@
                    && d@.body == m.content@ && d@.text == m.orig@ && d@.deps
                    == crate::document::deps_view(m.head.deps),
                None => r matches Err(Error::CreateNode { kind, path: p, source }) && kind@
                    == kind_name(self) && p@ == path@.rel && *source == Error::NoFrontMatter,
            },
    {
        match self {
            NodeKind::Document => match Document::new(parsed) {
                Ok(d) => Ok(NodeData::Document(d)),
                Err(e) => Err(
                    Error::CreateNode {
                        kind: self.as_str().to_owned(),
                        path: path.rel().as_str().to_owned(),
                        source: Box::new(e),
                    },
                ),
            },
        }
    }

    /// The kind of node that files of this extension make, if any.
    pub fn determine(extension: Option<&str>) -> (r: Option<Self>)
        ensures
            r == kind_of_extension(opt_view(extension)),
    {
        proof {
            reveal_strlit("md");
            assert("md"@ =~= seq!['m', 'd']);
        }
        match extension {
            Some(e) => if text_is(e, "md") {
                Some(NodeKind::Document)
            } else {
                None
            },
            None => None,
        }
    }

    /// The name of the kind, as stored.
    pub fn as_str(&self) -> (r: &'static str)
        ensures
            r@ == kind_name(*self),
    {
        proof {
            reveal_strlit("Document");
            assert("Document"@ =~= kind_name(NodeKind::Document));
        }
        match self {
            NodeKind::Document => "Document",
        }
    }

    /// The kind of the given name; an error naming it where it names none.
    pub fn from_name(s: &str) -> (r: Result<Self, Error>)
        ensures
            s@ == kind_name(NodeKind::Document) ==> r == Ok::<NodeKind, Error>(NodeKind::Document),
            s@ != kind_name(NodeKind::Document) ==> (r matches Err(Error::NoSuchNodeKind { kind })
                && kind@ == s@),
    {
        proof {
            reveal_strlit("Document");
            assert("Document"@ =~= kind_name(NodeKind::Document));
        }
        if text_is(s, "Document") {
            Ok(NodeKind::Document)
        } else {
            Err(Error::NoSuchNodeKind { kind: s.to_owned() })
        }
    }
}

impl std::str::FromStr for NodeKind {
    type Err = Error;

    fn from_str(s: &str) -> (r: Result<Self, Error>)
        ensures
            s@ == kind_name(NodeKind::Document) ==> r == Ok::<NodeKind, Error>(NodeKind::Document),
            s@ != kind_name(NodeKind::Document) ==> (r matches Err(Error::NoSuchNodeKind { kind })
                && kind@ == s@),
    {
        NodeKind::from_name(s)
    }
}

/// The stored name of a kind reads back as that kind: `from_name` of
/// `as_str` of a kind gives the kind, and the name of a kind names no other.
pub proof fn lemma_kind_name_round_trip(kind: NodeKind, other: NodeKind)
    ensures
        kind_name(kind) == kind_name(NodeKind::Document) <==> kind == NodeKind::Document,
        kind_name(kind) == kind_name(other) <==> kind == other,
{
}

/// The kind of a node that a file makes, as the nodes held in memory record it.
#[derive(Debug, Copy, Clone, PartialEq, Eq)]
pub enum NodeDataKind {
    Document,
}

impl NodeDataKind {
    /// The node of this kind at `path`, given how the front matter of its
    /// text parsed; an error naming the kind and path where that fails.
    pub fn create(self, path: &NodePath, parsed: Option<FrontMatter>) -> (r: Result<NodeData, Error>)
        ensures
            match parsed {
                Some(m) => r matches Ok(NodeData::Document(d)) && d@.name == m.head.name@
                    && d@.body == m.content@ && d@.text == m.orig@ && d@.deps
                    == crate::document::deps_view(m.head.deps),
                None => r matches Err(Error::CreateNode { kind, path: p, source }) && kind@
                    == seq!['d', 'o', 'c', 'u', 'm', 'e', 'n', 't'] && p@ == path@.rel && *source
                    == Error::NoFrontMatter,
            },
    {
        proof {
            reveal_strlit("document");
            assert("document"@ =~= seq!['d', 'o', 'c', 'u', 'm', 'e', 'n', 't']);
        }
        match self {
            NodeDataKind::Document => match Document::new(parsed) {
                Ok(d) => Ok(NodeData::Document(d)),
                Err(e) => Err(
                    Error::CreateNode {
                        kind: "document".to_owned(),
                        path: path.rel().as_str().to_owned(),
                        source: Box::new(e),
                    },
                ),
            },
        }
    }

    /// The kind of node that files of this extension make, if any.
    pub fn determine(extension: Option<&str>) -> (r: Option<Self>)
        ensures
            kind_of_extension(opt_view(extension)) is Some <==> r == Some(NodeDataKind::Document),
            kind_of_extension(opt_view(extension)) is None <==> r is None,
    {
        match NodeKind::determine(extension) {
            Some(NodeKind::Document) => Some(NodeDataKind::Document),
            None => None,
        }
    }
}

/// A node's text together with what it holds.
#[derive(Debug)]
pub struct NodeContent {
    pub text: String,
    pub data: NodeData,
}

} // verus!
