use grimoire::document::{DocumentBody, DocumentHead, FrontMatter, Head};
use grimoire::entry::{Entry, EntryData};
use grimoire::memory::Memory;
use grimoire::mode::Mode;
use grimoire::storage::document::TitledMatter;
use grimoire::storage::entry::{Entry as StoredEntry, State};
use grimoire::storage::Storage;
use grimoire::Error;

fn matter() -> FrontMatter {
    FrontMatter {
        head: Head { name: "N".to_string(), deps: None },
        content: "c".to_string(),
        orig: "o".to_string(),
    }
}

#[test]
fn entry_new_reads_markdown_as_document() {
    let e = Entry::new("/r/a.md".to_string(), Some("o".to_string()), Some(matter())).unwrap();
    assert!(!e.ignored);
    assert!(!e.deleted);
    assert!(matches!(e.data, Some(EntryData::Document(ref d)) if d.name() == "N"));
    let e = Entry::new("/r/a.mdx".to_string(), Some("o".to_string()), Some(matter())).unwrap();
    assert!(e.data.is_some());
}

#[test]
fn entry_new_ignores_other_files() {
    let e = Entry::new("/r/a.txt".to_string(), Some("t".to_string()), None).unwrap();
    assert!(e.ignored);
    assert!(e.data.is_none());
    let e = Entry::new("/r/noext".to_string(), Some("t".to_string()), None).unwrap();
    assert!(e.ignored);
}

#[test]
fn entry_new_unread_file() {
    let e = Entry::new("/r/a.md".to_string(), None, None).unwrap();
    assert!(!e.ignored);
    assert!(e.text.is_none());
    assert!(e.data.is_none());
}

#[test]
fn entry_new_markdown_without_front_matter_fails() {
    match Entry::new("/r/a.md".to_string(), Some("x".to_string()), None) {
        Err(Error::CreateNode { kind, path, .. }) => {
            assert_eq!(kind, "document");
            assert_eq!(path, "/r/a.md");
        }
        other => panic!("unexpected {other:?}"),
    }
}

#[test]
fn entry_rel_path() {
    let e = Entry::new("/r/d/a.md".to_string(), None, None).unwrap();
    assert_eq!(e.rel_path("/r").unwrap(), "d/a.md");
    assert!(matches!(e.rel_path("/s"), Err(Error::NotInRoot { .. })));
}

fn titled() -> TitledMatter {
    TitledMatter { head: DocumentHead::new("T".to_string()), content: "c".to_string() }
}

#[test]
fn stored_entry_set_content() {
    let mut e = StoredEntry::new("/r/a.md".to_string());
    assert!(matches!(e.state(), State::Unread));
    e.set_content(Some(titled())).unwrap();
    assert!(matches!(e.state(), State::Document(d) if matches!(d.body, DocumentBody::Md(_))));
    let mut x = StoredEntry::new("/r/a.mdx".to_string());
    x.set_content(Some(titled())).unwrap();
    assert!(matches!(x.state(), State::Document(d) if matches!(d.body, DocumentBody::Mdx(_))));
    let mut t = StoredEntry::new("/r/a.txt".to_string());
    t.set_content(None).unwrap();
    assert!(matches!(t.state(), State::Unknown));
}

#[test]
fn stored_entry_set_content_error_keeps_state() {
    let mut e = StoredEntry::new("/r/a.md".to_string());
    match e.set_content(None) {
        Err(Error::ReadDocument { path, source }) => {
            assert_eq!(path, "/r/a.md");
            assert!(matches!(*source, Error::NoFrontMatter));
        }
        other => panic!("unexpected {other:?}"),
    }
    assert!(matches!(e.state(), State::Unread));
    e.set_error(Error::NoFrontMatter);
    assert!(matches!(e.state(), State::Error(Error::NoFrontMatter)));
    assert_eq!(e.path(), "/r/a.md");
}

#[test]
fn storage_and_memory_insert() {
    let mut s = Storage::default();
    assert_eq!(s.len(), 0);
    s.insert(StoredEntry::new("/r/a.md".to_string()));
    s.insert(StoredEntry::new("/r/a.md".to_string()));
    assert_eq!(s.len(), 2);
    let mut m = Memory::new("/r".to_string());
    assert_eq!(m.len(), 0);
    m.insert(Entry::new("/r/a.md".to_string(), None, None).unwrap());
    assert_eq!(m.len(), 1);
    assert_eq!(m.dir, "/r");
}

#[test]
fn modes_are_distinct() {
    assert_ne!(Mode::Walk, Mode::WalkAndRead);
    assert_ne!(Mode::Noop, Mode::Walk);
}
