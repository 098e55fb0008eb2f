use grimoire::document::{Document, DocumentBody, DocumentBodyKind, DocumentHead, FrontMatter, Head};
use grimoire::storage::document::{Document as TitledDocument, TitledMatter};
use grimoire::Error;

#[test]
fn document_new_from_front_matter() {
    let d = Document::new(Some(FrontMatter {
        head: Head { name: "N".to_string(), deps: Some(vec!["x.md".to_string(), "y.md".to_string()]) },
        content: "body".to_string(),
        orig: "whole".to_string(),
    }))
    .unwrap();
    assert_eq!(d.name(), "N");
    assert_eq!(d.body(), "body");
    assert_eq!(d.text(), "whole");
    assert_eq!(d.deps().unwrap().len(), 2);
    assert_eq!(d.deps().unwrap()[1], "y.md");
}

#[test]
fn document_new_without_front_matter_fails() {
    assert!(matches!(Document::new(None), Err(Error::NoFrontMatter)));
}

#[test]
fn document_without_deps() {
    let d = Document::new(Some(FrontMatter {
        head: Head { name: "N".to_string(), deps: None },
        content: String::new(),
        orig: String::new(),
    }))
    .unwrap();
    assert!(d.deps().is_none());
}

#[test]
fn into_body_tags_markup() {
    assert!(matches!(DocumentBodyKind::Md.into_body("x"), Ok(DocumentBody::Md(s)) if s == "x"));
    assert!(matches!(DocumentBodyKind::Mdx.into_body("y"), Ok(DocumentBody::Mdx(s)) if s == "y"));
}

#[test]
fn titled_document_new() {
    let d = TitledDocument::new(
        Some(TitledMatter { head: DocumentHead::new("T".to_string()), content: "c".to_string() }),
        DocumentBodyKind::Mdx,
    )
    .unwrap();
    assert_eq!(d.head.title, "T");
    assert!(matches!(d.body, DocumentBody::Mdx(ref s) if s == "c"));
    assert!(matches!(TitledDocument::new(None, DocumentBodyKind::Md), Err(Error::NoFrontMatter)));
}
