//! The errors of the library.
use vstd::prelude::*;

verus! {

/// What went wrong, with the values the message names; an error raised
/// while doing something else carries the one that caused it.
#[derive(Debug)]
pub enum Error {
    /// The path does not lie below the root directory.
    NotInRoot { path: String, root: String },
    /// The text has no front matter of the expected shape.
    NoFrontMatter,
    /// A node of the given kind could not be created from the file at the
    /// path.
    CreateNode { kind: String, path: String, source: Box<Error> },
    /// The document of the entry at the path could not be read.
    ReadDocument { path: String, source: Box<Error> },
    /// The stored kind names no node kind.
    NoSuchNodeKind { kind: String },
    /// The dependency could not be resolved to a path on disk.
    Canonicalize { dep: String, from: String },
    /// The dependency resolves to no collected node.
    UnknownDep { dep: String, from: String },
    /// The path has no parent directory to resolve a dependency against.
    NoParent { path: String },
    /// A heading of the document would be nested deeper than the table of
    /// contents has levels.
    HeadingTooDeep,
    /// The markdown parser could not write the document out as HTML.
    MarkdownFormat,
}

} // verus!
