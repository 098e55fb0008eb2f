//! The text of a heading, gathered from its inline content.
use vstd::prelude::*;

verus! {

/// The inline content of a parsed markdown block, as far as heading text
/// depends on it.
pub enum Inline {
    /// Literal text.
    Text(String),
    /// An inline code span, by its literal.
    Code(String),
    /// A hard line break.
    LineBreak,
    /// A soft line break.
    SoftBreak,
    /// Any other inline node, by its children.
    Other(Vec<Inline>),
}

/// The text of one inline node: literals as they are, a line break of
/// either kind as one space, any other node as the text of its children.
pub open spec fn inline_text(node: Inline) -> Seq<char>
    decreases node, 0nat,
{
    match node {
        Inline::Text(literal) => literal@,
        Inline::Code(literal) => literal@,
        Inline::LineBreak => seq![' '],
        Inline::SoftBreak => seq![' '],
        Inline::Other(children) => {
            proof {
                assert(decreases_to!(children => children@));
            }
            inlines_text(children@)
        },
    }
}

/// The text of a sequence of inline nodes, one after another.
pub open spec fn inlines_text(nodes: Seq<Inline>) -> Seq<char>
    decreases nodes, nodes.len(),
{
    if nodes.len() == 0 {
        Seq::empty()
    } else {
        proof {
            assert(decreases_to!(nodes => nodes[nodes.len() - 1]));
        }
        inlines_text(nodes.drop_last()) + inline_text(nodes[nodes.len() - 1])
    }
}

/// Appends the text of `node` to `output`.
pub fn collect_text(node: &Inline, output: &mut String)
    ensures
        final(output)@ == old(output)@ + inline_text(*node),
    decreases node,
{
    match node {
        Inline::Text(literal) => output.append(literal.as_str()),
        Inline::Code(literal) => output.append(literal.as_str()),
        Inline::LineBreak | Inline::SoftBreak => {
            proof {
                reveal_strlit(" ");
            }
            output.append(" ")
        },
        Inline::Other(children) => collect_all(children, output),
    }
}

/// Appends the text of each node of `nodes` to `output`, in order.
pub fn collect_all(nodes: &Vec<Inline>, output: &mut String)
    ensures
        final(output)@ == old(output)@ + inlines_text(nodes@),
    decreases nodes, 1nat,
{
    let ghost start = output@;
    let mut i: usize = 0;
    while i < nodes.len()
        invariant
            i <= nodes@.len(),
            output@ == start + inlines_text(nodes@.take(i as int)),
        decreases nodes@.len() - i,
    {
        collect_text(&nodes[i], output);
        assert(nodes@.take(i + 1).drop_last() == nodes@.take(i as int));
        i = i + 1;
    }
    assert(nodes@.take(nodes@.len() as int) == nodes@);
}

} // verus!
