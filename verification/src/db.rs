//! The rows of the node store, as the library reads and writes them.
use vstd::prelude::*;
use crate::node::{kind_name, NewNode};

verus! {

/// A stored node.
#[derive(Debug)]
pub struct DbNode {
    pub id: i32,
    pub path: DbNodePath,
    pub name: String,
    pub kind: String,
    pub text: String,
}

/// A stored path, relative to the root directory.
#[derive(Debug)]
pub struct DbNodePath(pub String);

/// A node to store.
pub struct DbNewNode<'a> {
    pub path: &'a str,
    pub name: &'a str,
    pub kind: &'a str,
    pub text: &'a str,
}

/// A tag of a stored node.
#[derive(Debug)]
pub struct DbNodeTag {
    pub id: i32,
    pub node_id: i32,
    pub tag: String,
}

/// A stored reference from one node to another.
#[derive(Debug, Clone, Copy)]
pub struct DbNodeReference {
    pub id: i32,
    pub referrer_id: i32,
    pub referrent_id: i32,
}

impl<'a> DbNewNode<'a> {
    /// The row of a new node: its relative path, name, kind and text.
    pub fn from(node: NewNode<'a>) -> (r: DbNewNode<'a>)
        ensures
            r.path@ == node.path@.rel,
            r.name@ == node.data.name_view(),
            r.kind@ == kind_name(node.data.kind_view()),
            r.text@ == node.data.text_view(),
    {
        DbNewNode {
            path: node.path.rel().as_str(),
            name: node.data.name(),
            kind: node.data.kind().as_str(),
            text: node.data.text(),
        }
    }
}

} // verus!
