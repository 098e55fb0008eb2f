//! The top-level blocks of a markdown text as the comrak parser reads it.
use vstd::prelude::*;
use comrak::nodes::NodeValue;
use comrak::{Arena, Options};
use super::heading::Block;
use super::util::Inline;

verus! {

/// What `comrak::parse_document` gives for a text: for each top-level
/// block, the level of the heading it is, if it is one.
pub uninterp spec fn comrak_levels(text: Seq<char>) -> Seq<Option<u8>>;

/// What `comrak::parse_document` gives for a text: for each top-level
/// block, the nodes below it in document order, each read as an inline
/// node; a node of another kind stands without children, which follow it.
pub uninterp spec fn comrak_inlines(text: Seq<char>) -> Seq<Seq<Inline>>;

/// `comrak::parse_document`, read as the heading level of each top-level
/// block.
#[verifier::external_body]
fn parse_levels(text: &str) -> (r: Vec<Option<u8>>)
    ensures
        r@ == comrak_levels(text@),
{
    let arena = Arena::new();
    let root = comrak::parse_document(&arena, text, &Options::default());
    let mut levels = Vec::new();
    for node in root.children() {
        levels.push(match &node.data().value {
            NodeValue::Heading(heading) => Some(heading.level),
            _ => None,
        });
    }
    levels
}

/// `comrak::parse_document`, read as the inline nodes below each
/// top-level block.
#[verifier::external_body]
fn parse_inlines(text: &str) -> (r: Vec<Vec<Inline>>)
    ensures
        r@.len() == comrak_inlines(text@).len(),
        forall|i: int| 0 <= i < r@.len() ==> #[trigger] r@[i]@ == comrak_inlines(text@)[i],
{
    let (arena, mut blocks) = (Arena::new(), Vec::new());
    let root = comrak::parse_document(&arena, text, &Options::default());
    for node in root.children() {
        let mut inlines = Vec::new();
        for n in node.descendants().skip(1) {
            inlines.push(match &n.data().value {
                NodeValue::Text(t) => Inline::Text(t.to_string()),
                NodeValue::Code(c) => Inline::Code(c.literal.clone()),
                NodeValue::LineBreak => Inline::LineBreak, NodeValue::SoftBreak => Inline::SoftBreak,
                _ => Inline::Other(Vec::new()),
            });
        }
        blocks.push(inlines);
    }
    blocks
}

/// Whether `blocks` are the top-level blocks that comrak reads in `text`,
/// as far as both of its readings go.
pub open spec fn comrak_blocks(text: Seq<char>, blocks: Seq<Block>) -> bool {
    &&& blocks.len() == if comrak_levels(text).len() <= comrak_inlines(text).len() {
        comrak_levels(text).len()
    } else {
        comrak_inlines(text).len()
    }
    &&& forall|i: int|
        0 <= i < blocks.len() ==> match #[trigger] blocks[i] {
            Block::Heading { level, inlines } => comrak_levels(text)[i] == Some(level) && inlines@
                == comrak_inlines(text)[i],
            Block::Other => comrak_levels(text)[i] is None,
        }
}

/// The top-level blocks of a markdown text, as comrak parses it.
pub fn parse_blocks(text: &str) -> (r: Vec<Block>)
    ensures
        comrak_blocks(text@, r@),
{
    let levels = parse_levels(text);
    let mut rest = parse_inlines(text);
    let ghost all = rest@;
    let n = if levels.len() <= rest.len() {
        levels.len()
    } else {
        rest.len()
    };
    let mut blocks: Vec<Block> = Vec::new();
    let mut i: usize = 0;
    while i < n
        invariant
            i <= n,
            n <= levels@.len(),
            n <= all.len(),
            n == (if comrak_levels(text@).len() <= comrak_inlines(text@).len() {
                comrak_levels(text@).len()
            } else {
                comrak_inlines(text@).len()
            }),
            rest@ == all.skip(i as int),
            blocks@.len() == i,
            levels@ == comrak_levels(text@),
            all.len() == comrak_inlines(text@).len(),
            forall|k: int| 0 <= k < all.len() ==> #[trigger] all[k]@ == comrak_inlines(text@)[k],
            forall|k: int|
                0 <= k < i ==> match #[trigger] blocks@[k] {
                    Block::Heading { level, inlines } => comrak_levels(text@)[k] == Some(level)
                        && inlines@ == comrak_inlines(text@)[k],
                    Block::Other => comrak_levels(text@)[k] is None,
                },
        decreases n - i,
    {
        let inlines = rest.remove(0);
        assert(inlines == all[i as int]);
        assert(rest@ =~= all.skip(i + 1));
        match levels[i] {
            Some(level) => blocks.push(Block::Heading { level, inlines }),
            None => blocks.push(Block::Other),
        }
        i = i + 1;
    }
    blocks
}

} // verus!
