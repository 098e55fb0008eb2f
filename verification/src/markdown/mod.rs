//! Markdown rendering: the HTML of a document, with its headings given
//! anchors and a table of contents.
use vstd::prelude::*;
use crate::error::Error;
use self::heading::{
    first_present, heading_literals, headings_fit, headings_fit_toc, literal_views, prefix_first,
    process, toc_after, Block,
};
use self::toc::TocModel;
use self::tree::{comrak_blocks, parse_blocks};

pub mod cmark;
pub mod heading;
pub mod toc;
pub mod tree;
pub mod util;

pub use toc::{Toc, TocNode};

verus! {

/// A rendered markdown document.
#[derive(Debug)]
pub struct Markdown {
    html: String,
}

impl Markdown {
    /// The rendered document of the given HTML.
    pub fn from_html(html: String) -> (r: Self)
        ensures
            r.html_view() == html@,
    {
        Markdown { html }
    }

    /// The rendered document of a markdown text: its top-level blocks as
    /// comrak parses them, each heading replaced by anchored raw HTML and
    /// entered into a new table of contents, the table rendered by `H` put
    /// in front of the first heading, and the document written out by
    /// `render` from the text and those replacements. An error where a
    /// heading would nest deeper than the table has levels, or where
    /// `render` fails.
    pub fn new<H: Hooks, R: Fn(&str, &Vec<Option<String>>) -> Option<String>>(text: &str, render: R) -> (r: Result<Self, Error>)
        requires
            forall|t: &str, l: &Vec<Option<String>>| call_requires(render, (t, l)),
        ensures
            exists|blocks: Seq<Block>, m0: TocModel|
                #![trigger markdown_outcome::<H, R>(text, blocks, m0, render, r)]
                {
                    &&& comrak_blocks(text@, blocks)
                    &&& m0.nodes.len() == 0
                    &&& m0.open == seq![None::<int>, None, None, None, None, None]
                    &&& markdown_outcome::<H, R>(text, blocks, m0, render, r)
                },
    {
        let blocks = parse_blocks(text);
        let mut toc = Toc::new();
        let ghost m0 = toc.model();
        if !headings_fit_toc(&toc, &blocks) {
            assert(markdown_outcome::<H, R>(text, blocks@, m0, render, Err(Error::HeadingTooDeep)));
            return Err(Error::HeadingTooDeep);
        }
        let lits = process::<H>(&blocks, &mut toc);
        assert(toc_literals::<H>(blocks@, toc, literal_views(lits@)));
        let out = render(text, &lits);
        let r = match out {
            Some(html) => Ok(Markdown { html }),
            None => Err(Error::MarkdownFormat),
        };
        assert(rendered_with::<R>(text, lits, render, out, r));
        assert(markdown_outcome::<H, R>(text, blocks@, m0, render, r));
        r
    }

    /// The HTML this document was rendered to.
    pub closed spec fn html_view(&self) -> Seq<char> {
        self.html@
    }

    pub fn html(&self) -> (r: &str)
        ensures
            r@ == self.html_view(),
    {
        self.html.as_str()
    }
}

/// Whether `lits` are the replacements of the headings among `blocks`,
/// with the table `toc` rendered by `H` in front of the first, where there
/// is a heading.
pub open spec fn toc_literals<H: Hooks>(blocks: Seq<Block>, toc: Toc, lits: Seq<Option<Seq<char>>>) -> bool {
    if first_present(heading_literals(blocks)) is None {
        lits == heading_literals(blocks)
    } else {
        exists|html: String|
            #![trigger call_ensures(H::render_toc, (&toc,), html)]
            {
                &&& call_ensures(H::render_toc, (&toc,), html)
                &&& lits == prefix_first(heading_literals(blocks), html@)
            }
    }
}

/// Whether `render`, given the text and `lits`, gave `out`, and `r` is the
/// document of it, or the error where it gave none.
pub open spec fn rendered_with<R: Fn(&str, &Vec<Option<String>>) -> Option<String>>(
    text: &str,
    lits: Vec<Option<String>>,
    render: R,
    out: Option<String>,
    r: Result<Markdown, Error>,
) -> bool {
    &&& call_ensures(render, (text, &lits), out)
    &&& match out {
        Some(html) => r matches Ok(m) && m.html_view() == html@,
        None => r matches Err(Error::MarkdownFormat),
    }
}

/// What `Markdown::new` gives for the blocks `blocks` of `text`, starting
/// from the empty table `m0`.
pub open spec fn markdown_outcome<H: Hooks, R: Fn(&str, &Vec<Option<String>>) -> Option<String>>(
    text: &str,
    blocks: Seq<Block>,
    m0: TocModel,
    render: R,
    r: Result<Markdown, Error>,
) -> bool {
    if !headings_fit(m0, blocks) {
        r matches Err(Error::HeadingTooDeep)
    } else {
        exists|toc: Toc, lits: Vec<Option<String>>, out: Option<String>|
            #![trigger rendered_with::<R>(text, lits, render, out, r), toc_literals::<H>(blocks, toc, literal_views(lits@))]
            {
                &&& toc.wf()
                &&& toc.model() == toc_after(m0, blocks)
                &&& toc_literals::<H>(blocks, toc, literal_views(lits@))
                &&& rendered_with::<R>(text, lits, render, out, r)
            }
    }
}

/// Customisation of rendering.
pub trait Hooks {
    /// The HTML of the table of contents; by default, its debug form in a
    /// `pre` element.
    fn render_toc(toc: &Toc) -> (r: String)
        default_ensures
            r@ == pre_element(toc_debug_text(toc.model())),
    {
        let debug = debug_toc(toc);
        let mut html = String::new();
        html.append("<pre>");
        html.append(debug.as_str());
        html.append("</pre>");
        proof {
            reveal_strlit("<pre>");
            reveal_strlit("</pre>");
            assert(html@ =~= pre_element(debug@));
        }
        html
    }
}

/// A text in a `pre` element.
pub open spec fn pre_element(text: Seq<char>) -> Seq<char> {
    seq!['<', 'p', 'r', 'e', '>'] + text + seq!['<', '/', 'p', 'r', 'e', '>']
}

impl Hooks for () {}

/// What `format!("{:?}")` writes for a table of contents: the derived
/// `Debug` of `Toc`, which prints the `id_arena` arena (its identity and
/// its headings, each with its level, anchor, text and children) and the
/// index of the open heading of each level. All of that is in the model.
pub uninterp spec fn toc_debug_text(toc: TocModel) -> Seq<char>;

/// The `Debug` text of a table of contents, through `format!`.
#[verifier::external_body]
fn debug_toc(toc: &Toc) -> (r: String)
    ensures
        r@ == toc_debug_text(toc.model()),
{
    format!("{toc:?}")
}

} // verus!
