//! The body of a document, by the markup it is written in.
use vstd::prelude::*;
use crate::error::Error;

verus! {

/// The body of a document, tagged by its markup.
#[derive(Debug)]
pub enum DocumentBody {
    Md(String),
    Mdx(String),
}

/// The markup of a document body.
#[derive(Debug, Copy, Clone, PartialEq, Eq)]
pub enum DocumentBodyKind {
    Md,
    Mdx,
}

impl DocumentBodyKind {
    /// The body of this markup with the given content.
    pub fn into_body(self, content: &str) -> (r: Result<DocumentBody, Error>)
        ensures
            match self {
                DocumentBodyKind::Md => r matches Ok(DocumentBody::Md(c)) && c@ == content@,
                DocumentBodyKind::Mdx => r matches Ok(DocumentBody::Mdx(c)) && c@ == content@,
            },
    {
        match self {
            DocumentBodyKind::Md => Ok(DocumentBody::Md(content.to_owned())),
            DocumentBodyKind::Mdx => Ok(DocumentBody::Mdx(content.to_owned())),
        }
    }
}

} // verus!
