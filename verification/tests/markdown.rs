use grimoire::markdown::{Hooks, Toc};
use grimoire::markdown::cmark::{markdown, markdown_with, markdown_with_options, Markdown, MarkdownOptions};

#[test]
fn markdown_renders_heading() {
    assert_eq!(markdown("# hi").unwrap(), "<h1>hi</h1>\n");
}

#[test]
fn markdown_renders_paragraph_with_emphasis() {
    assert_eq!(markdown("a *b*").unwrap(), "<p>a <em>b</em></p>\n");
}

struct Tables;

impl Markdown for Tables {
    fn options(&self) -> MarkdownOptions {
        MarkdownOptions { bits: 1 << 1 }
    }
}

#[test]
fn markdown_with_options_renders_table() {
    let text = "| a |\n|---|\n| b |\n";
    let html = markdown_with(text, Tables).unwrap();
    assert!(html.contains("<table>"));
    assert!(!markdown(text).unwrap().contains("<table>"));
    assert_eq!(html, markdown_with_options(text, MarkdownOptions { bits: 1 << 1 }));
}

#[test]
fn markdown_with_unit_is_markdown() {
    let text = "- a\n- b\n";
    assert_eq!(markdown_with(text, ()).unwrap(), markdown(text).unwrap());
    assert_eq!(markdown(text).unwrap(), markdown_with_options(text, MarkdownOptions::empty()));
}

#[test]
fn default_toc_rendering_is_a_pre_element() {
    let html = <() as Hooks>::render_toc(&Toc::new());
    assert!(html.starts_with("<pre>"));
    assert!(html.ends_with("</pre>"));
}
