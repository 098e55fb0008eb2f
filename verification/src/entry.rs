//! A file below the root directory with what it was read as: a document
//! where it is markdown, nothing where it is of another kind.
use vstd::prelude::*;
use crate::document::{Document, FrontMatter};
use crate::error::Error;
use crate::node::kind::text_is;
use crate::node::path::{extension, path_extension, path_strip_prefix, strip_prefix};

verus! {

/// What a file was read as.
#[derive(Debug)]
pub enum EntryData {
    Document(Document),
}

/// The kinds of value a file can be read as.
pub trait EntryType: Into<EntryData> {}

impl vstd::std_specs::convert::FromSpecImpl<Document> for EntryData {
    open spec fn obeys_from_spec() -> bool {
        true
    }

    open spec fn from_spec(value: Document) -> EntryData {
        EntryData::Document(value)
    }
}

impl From<Document> for EntryData {
    fn from(value: Document) -> (r: EntryData) {
        EntryData::Document(value)
    }
}

impl EntryType for Document {}

/// Whether a file of this extension is read as a document: markdown, plain
/// or with JSX.
pub open spec fn is_document_extension(ext: Option<Seq<char>>) -> bool {
    ext == Some(seq!['m', 'd']) || ext == Some(seq!['m', 'd', 'x'])
}

/// A file, its text if it was read, what the text was read as, and whether
/// the file was ignored or deleted.
#[derive(Debug)]
pub struct Entry {
    pub path: String,
    pub text: Option<String>,
    pub data: Option<EntryData>,
    pub ignored: bool,
    pub deleted: bool,
}

impl Entry {
    /// The entry of the file at `path` with the text it holds, if it was
    /// read, given how the front matter of that text parsed. A file read as
    /// a document holds the document; a file of another kind is ignored; an
    /// unread file is neither. An error where a document cannot be created.
    pub fn new(path: String, text: Option<String>, parsed: Option<FrontMatter>) -> (r: Result<Self, Error>)
        ensures
            text is None ==> (r matches Ok(e) && e.path == path && e.text is None && e.data is None
                && !e.ignored && !e.deleted),
            text is Some && !is_document_extension(path_extension(path@)) ==> (r matches Ok(e)
                && e.path == path && e.text == text && e.data is None && e.ignored && !e.deleted),
            text is Some && is_document_extension(path_extension(path@)) && parsed is Some ==> (
            r matches Ok(e) && e.path == path && e.text == text && !e.ignored && !e.deleted
                && (e.data matches Some(EntryData::Document(d)) && d@.name == parsed->0.head.name@
                && d@.body == parsed->0.content@ && d@.text == parsed->0.orig@ && d@.deps
                == crate::document::deps_view(parsed->0.head.deps))),
            text is Some && is_document_extension(path_extension(path@)) && parsed is None ==> (
            r matches Err(Error::CreateNode { path: p, source, .. }) && p@ == path@ && *source
                == Error::NoFrontMatter),
    {
        let (data, ignored) = if text.is_some() {
            match Self::new_data(path.as_str(), parsed) {
                Ok(Some(data)) => (Some(data), false),
                Ok(None) => (None, true),
                Err(e) => return Err(e),
            }
        } else {
            (None, false)
        };
        Ok(Entry { path, text, data, ignored, deleted: false })
    }

    /// What the file at `path` is read as: a document for markdown, given
    /// how the front matter of its text parsed, else nothing.
    fn new_data(path: &str, parsed: Option<FrontMatter>) -> (r: Result<Option<EntryData>, Error>)
        ensures
            !is_document_extension(path_extension(path@)) ==> r matches Ok(None),
            is_document_extension(path_extension(path@)) && parsed is Some ==> (r matches Ok(
                Some(EntryData::Document(d)),
            ) && d@.name == parsed->0.head.name@ && d@.body == parsed->0.content@ && d@.text
                == parsed->0.orig@ && d@.deps == crate::document::deps_view(parsed->0.head.deps)),
            is_document_extension(path_extension(path@)) && parsed is None ==> (r matches Err(
                Error::CreateNode { kind, path: p, source },
            ) && kind@ == seq!['d', 'o', 'c', 'u', 'm', 'e', 'n', 't'] && p@ == path@ && *source
                == Error::NoFrontMatter),
    {
        proof {
            reveal_strlit("md");
            reveal_strlit("mdx");
            reveal_strlit("document");
            assert("md"@ =~= seq!['m', 'd']);
            assert("mdx"@ =~= seq!['m', 'd', 'x']);
            assert("document"@ =~= seq!['d', 'o', 'c', 'u', 'm', 'e', 'n', 't']);
        }
        match extension(path) {
            Some(ext) => if text_is(ext, "md") || text_is(ext, "mdx") {
                match Document::new(parsed) {
                    Ok(data) => Ok(Some(EntryData::Document(data))),
                    Err(e) => Err(
                        Error::CreateNode {
                            kind: "document".to_owned(),
                            path: path.to_owned(),
                            source: Box::new(e),
                        },
                    ),
                }
            } else {
                Ok(None)
            },
            None => Ok(None),
        }
    }

    /// The path of the file relative to `root`; an error where it is not
    /// below `root`.
    pub fn rel_path(&self, root: &str) -> (r: Result<String, Error>)
        ensures
            match path_strip_prefix(self.path@, root@) {
                Some(rel) => r matches Ok(p) && p@ == rel,
                None => r matches Err(Error::NotInRoot { path, root: rt }) && path@ == self.path@
                    && rt@ == root@,
            },
    {
        match strip_prefix(self.path.as_str(), root) {
            Some(rel) => Ok(rel),
            None => Err(Error::NotInRoot { path: self.path.clone(), root: root.to_owned() }),
        }
    }
}

} // verus!
