//! A document whose front matter gives a title, with its body tagged by
//! markup.
use vstd::prelude::*;
use crate::document::{DocumentBody, DocumentBodyKind, DocumentHead};
use crate::error::Error;

verus! {

/// A text split into front matter that gives a title, and the content
/// after it.
#[derive(Debug)]
pub struct TitledMatter {
    pub head: DocumentHead,
    pub content: String,
}

/// A document with a title.
#[derive(Debug)]
#[non_exhaustive]
pub struct Document {
    pub head: DocumentHead,
    pub body: DocumentBody,
}

impl Document {
    /// The document of a text of the given markup, given how its front
    /// matter parsed: an error where it has none of the expected shape.
    pub fn new(parsed: Option<TitledMatter>, body_kind: DocumentBodyKind) -> (r: Result<Self, Error>)
        ensures
            match parsed {
                None => r matches Err(Error::NoFrontMatter),
                Some(m) => r matches Ok(d) && d.head == m.head && match body_kind {
                    DocumentBodyKind::Md => d.body matches DocumentBody::Md(c) && c@ == m.content@,
                    DocumentBodyKind::Mdx => d.body matches DocumentBody::Mdx(c) && c@ == m.content@,
                },
            },
    {
        match parsed {
            None => Err(Error::NoFrontMatter),
            Some(m) => {
                let body = match body_kind.into_body(m.content.as_str()) {
                    Ok(body) => body,
                    Err(e) => return Err(e),
                };
                Ok(Document { head: m.head, body })
            },
        }
    }
}

} // verus!
