//! A file of the storage, and what reading it gave.
use vstd::prelude::*;
use super::document::{Document, TitledMatter};
use crate::document::DocumentBodyKind;
use crate::error::Error;
use crate::node::kind::text_is;
use crate::node::path::{extension, path_extension};

verus! {

/// What reading a file gave.
#[derive(Debug)]
pub enum State {
    /// A document.
    Document(Document),
    /// An error.
    Error(Error),
    /// A file of a kind that is not read.
    Unknown,
    /// Nothing yet.
    Unread,
}

/// A file of the storage.
#[derive(Debug)]
pub struct Entry {
    pub path: String,
    pub deleted: bool,
    state: State,
}

impl Entry {
    pub closed spec fn state_view(&self) -> State {
        self.state
    }

    pub closed spec fn path_view(&self) -> String {
        self.path
    }

    pub closed spec fn deleted_view(&self) -> bool {
        self.deleted
    }

    /// An unread entry for the file at `path`.
    pub fn new(path: String) -> (r: Self)
        ensures
            r.path_view() == path,
            !r.deleted_view(),
            r.state_view() is Unread,
    {
        Entry { path, deleted: false, state: State::Unread }
    }

    /// The path of the file.
    pub fn path(&self) -> (r: &str)
        ensures
            r@ == self.path_view()@,
    {
        self.path.as_str()
    }

    /// What reading the file gave.
    pub fn state(&self) -> (r: &State)
        ensures
            *r == self.state_view(),
    {
        &self.state
    }

    /// Records what the content of the file was read as, given how the
    /// front matter of the content parsed: a document for `md` and `mdx`
    /// files, nothing readable for other files. Where the document cannot be
    /// created, an error naming the path, and the entry is left as it was.
    pub fn set_content(&mut self, parsed: Option<TitledMatter>) -> (r: Result<(), Error>)
        ensures
            final(self).path_view() == old(self).path_view(),
            final(self).deleted_view() == old(self).deleted_view(),
            match path_extension(old(self).path_view()@) {
                Some(ext) if ext == seq!['m', 'd'] || ext == seq!['m', 'd', 'x'] => match parsed {
                    Some(m) => r is Ok && (final(self).state_view() matches State::Document(d)
                        && d.head == m.head && (if ext == seq!['m', 'd'] {
                        d.body matches crate::document::DocumentBody::Md(c) && c@ == m.content@
                    } else {
                        d.body matches crate::document::DocumentBody::Mdx(c) && c@ == m.content@
                    })),
                    None => final(self).state_view() == old(self).state_view() && (r matches Err(
                        Error::ReadDocument { path, source },
                    ) && path@ == old(self).path_view()@ && *source == Error::NoFrontMatter),
                },
                _ => r is Ok && final(self).state_view() is Unknown,
            },
    {
        proof {
            reveal_strlit("md");
            reveal_strlit("mdx");
            assert("md"@ =~= seq!['m', 'd']);
            assert("mdx"@ =~= seq!['m', 'd', 'x']);
        }
        let kind = match extension(self.path.as_str()) {
            Some(ext) => if text_is(ext, "md") {
                Some(DocumentBodyKind::Md)
            } else if text_is(ext, "mdx") {
                Some(DocumentBodyKind::Mdx)
            } else {
                None
            },
            None => None,
        };
        self.state = match kind {
            Some(body_kind) => match Document::new(parsed, body_kind) {
                Ok(document) => State::Document(document),
                Err(e) => return Err(
                    Error::ReadDocument { path: self.path.clone(), source: Box::new(e) },
                ),
            },
            None => State::Unknown,
        };
        Ok(())
    }

    /// Records that reading the file failed with `error`.
    pub fn set_error(&mut self, error: Error)
        ensures
            final(self).path_view() == old(self).path_view(),
            final(self).deleted_view() == old(self).deleted_view(),
            final(self).state_view() == State::Error(error),
    {
        self.state = State::Error(error);
    }
}

} // verus!
