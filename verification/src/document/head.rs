//! The front matter of a document with a title.
use vstd::prelude::*;

verus! {

/// Front matter that gives a title.
#[derive(Debug)]
#[non_exhaustive]
pub struct DocumentHead {
    pub title: String,
}

impl DocumentHead {
    pub fn new(title: String) -> (r: Self)
        ensures
            r.title == title,
    {
        DocumentHead { title }
    }
}

} // verus!
