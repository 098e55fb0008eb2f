//! A document: a markdown text with YAML front matter that names it and
//! lists the files it depends on.
use vstd::prelude::*;
use crate::error::Error;

pub mod body;
pub mod head;

pub use body::{DocumentBody, DocumentBodyKind};
pub use head::DocumentHead;

verus! {

/// The front matter of a document.
#[derive(Debug)]
pub struct Head {
    pub name: String,
    pub deps: Option<Vec<String>>,
}

/// A text split into its front matter, read as a `Head`, and the content
/// after it; `orig` is the whole text.
#[derive(Debug)]
pub struct FrontMatter {
    pub head: Head,
    pub content: String,
    pub orig: String,
}

/// A document.
#[derive(Debug)]
pub struct Document {
    head: Head,
    body: String,
    text: String,
}

/// A document as values.
pub struct DocumentView {
    pub name: Seq<char>,
    pub deps: Option<Seq<Seq<char>>>,
    pub body: Seq<char>,
    pub text: Seq<char>,
}

/// The texts of a list of strings.
pub open spec fn texts(v: Seq<String>) -> Seq<Seq<char>> {
    v.map_values(|s: String| s@)
}

/// The dependencies that a head lists, as texts.
pub open spec fn deps_view(deps: Option<Vec<String>>) -> Option<Seq<Seq<char>>> {
    match deps {
        Some(v) => Some(texts(v@)),
        None => None,
    }
}

impl View for Document {
    type V = DocumentView;

    closed spec fn view(&self) -> DocumentView {
        DocumentView {
            name: self.head.name@,
            deps: deps_view(self.head.deps),
            body: self.body@,
            text: self.text@,
        }
    }
}

impl Document {
    /// The document of a text, given how its front matter parsed: an error
    /// where the text had no front matter of the expected shape, else the
    /// head, the content after the front matter as the body, and the whole
    /// text.
    pub fn new(parsed: Option<FrontMatter>) -> (r: Result<Self, Error>)
        ensures
            match parsed {
                None => r matches Err(Error::NoFrontMatter),
                Some(m) => r matches Ok(d) && d@ == (DocumentView {
                    name: m.head.name@,
                    deps: deps_view(m.head.deps),
                    body: m.content@,
                    text: m.orig@,
                }),
            },
    {
        match parsed {
            None => Err(Error::NoFrontMatter),
            Some(m) => Ok(Document { head: m.head, body: m.content, text: m.orig }),
        }
    }

    pub fn name(&self) -> (r: &str)
        ensures
            r@ == self@.name,
    {
        self.head.name.as_str()
    }

    /// The paths of the files this document depends on, as its front matter
    /// lists them, if it lists any.
    pub fn deps(&self) -> (r: Option<&[String]>)
        ensures
            match self@.deps {
                Some(ds) => r matches Some(s) && texts(s@) == ds,
                None => r is None,
            },
    {
        match &self.head.deps {
            Some(v) => Some(v.as_slice()),
            None => None,
        }
    }

    pub fn body(&self) -> (r: &str)
        ensures
            r@ == self@.body,
    {
        self.body.as_str()
    }

    pub fn text(&self) -> (r: &str)
        ensures
            r@ == self@.text,
    {
        self.text.as_str()
    }
}

} // verus!
