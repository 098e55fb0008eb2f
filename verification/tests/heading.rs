use grimoire::markdown::heading::{headings_fit_toc, heading_literal, prefix_toc, process, process_headings, Block};
use grimoire::markdown::toc::Toc;
use grimoire::markdown::util::{collect_all, collect_text, Inline};
use grimoire::markdown::Hooks;

#[test]
fn heading_literal_formats_level_slug_and_text() {
    assert_eq!(heading_literal(2, "my-title", "My Title"), "<h2 id=\"my-title\">My Title</h2>");
    assert_eq!(heading_literal(10, "x", "y"), "<h10 id=\"x\">y</h10>");
    assert_eq!(heading_literal(255, "", ""), "<h255 id=\"\"></h255>");
    assert_eq!(heading_literal(0, "a", "b"), "<h0 id=\"a\">b</h0>");
}

#[test]
fn collect_text_joins_literals_and_breaks() {
    let node = Inline::Other(vec![
        Inline::Text("Hello".to_string()),
        Inline::SoftBreak,
        Inline::Code("code".to_string()),
        Inline::Other(vec![Inline::Text("!".to_string()), Inline::LineBreak]),
    ]);
    let mut out = String::from(">");
    collect_text(&node, &mut out);
    assert_eq!(out, ">Hello code! ");
    let mut all = String::new();
    collect_all(&vec![Inline::Text("a".to_string()), Inline::Text("b".to_string())], &mut all);
    assert_eq!(all, "ab");
}

fn heading(level: u8, text: &str) -> Block {
    Block::Heading { level, inlines: vec![Inline::Text(text.to_string())] }
}

#[test]
fn process_headings_replaces_headings_only() {
    let blocks = vec![heading(1, "My Title"), Block::Other, heading(2, "Sub Part!")];
    let mut toc = Toc::new();
    assert!(headings_fit_toc(&toc, &blocks));
    let lits = process_headings(&blocks, &mut toc);
    assert_eq!(
        lits,
        vec![
            Some("<h1 id=\"my-title\">My Title</h1>".to_string()),
            None,
            Some("<h2 id=\"sub-part\">Sub Part!</h2>".to_string()),
        ]
    );
    assert_eq!(toc.len(), 2);
}

struct Plain;

impl Hooks for Plain {
    fn render_toc(toc: &Toc) -> String {
        format!("[{}]", toc.len())
    }
}

#[test]
fn process_puts_toc_before_first_heading() {
    let blocks = vec![Block::Other, heading(2, "A"), heading(3, "B")];
    let mut toc = Toc::new();
    let lits = process::<Plain>(&blocks, &mut toc);
    assert_eq!(
        lits,
        vec![
            None,
            Some("[2]<h2 id=\"a\">A</h2>".to_string()),
            Some("<h3 id=\"b\">B</h3>".to_string()),
        ]
    );
}

#[test]
fn process_default_hook_renders_debug_toc() {
    let blocks = vec![heading(1, "A")];
    let mut toc = Toc::new();
    let lits = process::<()>(&blocks, &mut toc);
    let first = lits[0].clone().unwrap();
    assert!(first.starts_with("<pre>Toc"));
    assert!(first.ends_with("</pre><h1 id=\"a\">A</h1>"));
}

#[test]
fn process_without_headings_changes_nothing() {
    let blocks = vec![Block::Other, Block::Other];
    let mut toc = Toc::new();
    assert_eq!(process::<Plain>(&blocks, &mut toc), vec![None, None]);
    assert_eq!(toc.len(), 0);
}

#[test]
fn headings_fit_toc_detects_overflowing_level() {
    let mut toc = Toc::new();
    assert!(!headings_fit_toc(&toc, &vec![heading(6, "six")]));
    assert!(!headings_fit_toc(&toc, &vec![heading(0, "zero")]));
    assert!(headings_fit_toc(&toc, &vec![heading(1, "one"), heading(6, "six")]));
    assert!(!headings_fit_toc(&toc, &vec![heading(5, "five"), heading(6, "six")]));
    toc.insert(1, "x".to_string(), "X".to_string());
    assert!(headings_fit_toc(&toc, &vec![heading(6, "six")]));
}

#[test]
fn prefix_toc_prefixes_first_present_only() {
    let mut lits = vec![None, Some("a".to_string()), Some("b".to_string())];
    prefix_toc(&mut lits, "T");
    assert_eq!(lits, vec![None, Some("Ta".to_string()), Some("b".to_string())]);
    let mut none: Vec<Option<String>> = vec![None];
    prefix_toc(&mut none, "T");
    assert_eq!(none, vec![None]);
}
