//! A store of markdown documents below a root directory: which files are
//! nodes, how their paths and dependencies resolve, and how a document is
//! rendered with anchored headings and a table of contents.
pub mod db;
pub mod dependency;
pub mod document;
pub mod entry;
pub mod error;
pub mod markdown;
pub mod memory;
pub mod mode;
pub mod node;
pub mod render;
pub mod storage;

pub use document::{Document, DocumentBody, DocumentBodyKind, DocumentHead, FrontMatter, Head};
pub use error::Error;
pub use markdown::cmark::{markdown, markdown_with, MarkdownOptions};
pub use markdown::{Hooks, Markdown, Toc, TocNode};
pub use render::{OrNotFound, ServeError, ServeResult};
pub use node::{NewNode, Node, NodeData, NodeDataKind, NodeHead, NodeKind, NodePath};
