//! Markdown to HTML through a CommonMark parser, with parser options that
//! a helper chooses.
use vstd::prelude::*;
use crate::error::Error;

verus! {

/// Parser options, as the bits of `pulldown_cmark::Options`.
#[derive(Debug, Copy, Clone, PartialEq, Eq)]
pub struct MarkdownOptions {
    pub bits: u32,
}

impl MarkdownOptions {
    /// No options: plain CommonMark.
    pub fn empty() -> (r: Self)
        ensures
            r.bits == 0,
    {
        MarkdownOptions { bits: 0 }
    }
}

/// Chooses the parser options for `markdown_with`.
pub trait Markdown {
    fn options(&self) -> MarkdownOptions;
}

impl Markdown for () {
    /// No options.
    fn options(&self) -> (r: MarkdownOptions)
        ensures
            r.bits == 0,
    {
        MarkdownOptions::empty()
    }
}

/// What `pulldown_cmark::html::push_html` writes for a text parsed with
/// `Parser::new_ext` under the options of the given bits.
pub uninterp spec fn markdown_html(text: Seq<char>, options: u32) -> Seq<char>;

/// `pulldown_cmark::html::push_html` into an empty string, of the events of
/// `Parser::new_ext` on the text with the options of the given bits (bits
/// that name no option are dropped).
#[verifier::external_body]
fn push_html(text: &str, options: u32) -> (r: String)
    ensures
        r@ == markdown_html(text@, options),
{
    let parser = pulldown_cmark::Parser::new_ext(text, pulldown_cmark::Options::from_bits_truncate(options));
    let mut output = String::new();
    pulldown_cmark::html::push_html(&mut output, parser);
    output
}

/// The HTML of a markdown text under the given options.
pub fn markdown_with_options(text: &str, options: MarkdownOptions) -> (r: String)
    ensures
        r@ == markdown_html(text@, options.bits),
{
    push_html(text, options.bits)
}

/// The HTML of a markdown text under no options: `markdown_with` of the
/// helper `()`.
pub fn markdown(text: &str) -> (r: Result<String, Error>)
    ensures
        r matches Ok(html) && html@ == markdown_html(text@, 0),
{
    markdown_with(text, ())
}

/// The HTML of a markdown text under the options that `helper` chooses,
/// rendered as `markdown_with_options` does.
pub fn markdown_with<M: Markdown>(text: &str, helper: M) -> (r: Result<String, Error>)
    ensures
        exists|options: MarkdownOptions|
            #![trigger call_ensures(M::options, (&helper,), options)]
            {
                &&& call_ensures(M::options, (&helper,), options)
                &&& r matches Ok(html) && html@ == markdown_html(text@, options.bits)
            },
{
    let choose_options = M::options;
    let options = choose_options(&helper);
    assert(call_ensures(M::options, (&helper,), options));
    Ok(markdown_with_options(text, options))
}

/// `markdown` is `markdown_with` of the helper `()`: the options `()`
/// chooses are none, so both give `markdown_html` of the text under no
/// options.
pub proof fn lemma_markdown_is_markdown_with_unit(options: MarkdownOptions, text: Seq<char>)
    requires
        call_ensures(<() as Markdown>::options, (&(),), options),
    ensures
        markdown_html(text, options.bits) == markdown_html(text, 0),
{
}

} // verus!
