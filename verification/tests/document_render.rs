use grimoire::markdown::heading::Block;
use grimoire::markdown::tree::parse_blocks;
use grimoire::markdown::{Hooks, Markdown, Toc};
use grimoire::Error;

struct TocMarker;

impl Hooks for TocMarker {
    fn render_toc(_toc: &Toc) -> String {
        "[TOC]".to_string()
    }
}

fn show(_text: &str, lits: &Vec<Option<String>>) -> Option<String> {
    Some(format!("{lits:?}"))
}

#[test]
fn parse_blocks_reads_top_level_headings() {
    let blocks = parse_blocks("# Intro *x*\n\nbody\n\n## Setup\n");
    assert_eq!(blocks.len(), 3);
    assert!(matches!(blocks[0], Block::Heading { level: 1, .. }));
    assert!(matches!(blocks[1], Block::Other));
    assert!(matches!(blocks[2], Block::Heading { level: 2, .. }));
}

#[test]
fn markdown_new_puts_toc_before_first_heading() {
    let m = Markdown::new::<TocMarker, _>("# Intro\n\nbody\n\n## Setup\n", show).unwrap();
    assert_eq!(
        m.html(),
        r#"[Some("[TOC]<h1 id=\"intro\">Intro</h1>"), None, Some("<h2 id=\"setup\">Setup</h2>")]"#
    );
}

#[test]
fn markdown_new_without_heading_renders_no_toc() {
    let m = Markdown::new::<TocMarker, _>("just text\n", show).unwrap();
    assert_eq!(m.html(), "[None]");
}

#[test]
fn markdown_new_too_deep_heading_is_an_error() {
    let text = "# a\n\n## b\n\n### c\n\n#### d\n\n##### e\n\n###### f\n";
    assert!(matches!(Markdown::new::<TocMarker, _>(text, show), Err(Error::HeadingTooDeep)));
}

#[test]
fn markdown_new_render_failure_is_an_error() {
    let r = Markdown::new::<TocMarker, _>("# a\n", |_: &str, _: &Vec<Option<String>>| None);
    assert!(matches!(r, Err(Error::MarkdownFormat)));
}
