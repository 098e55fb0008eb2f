//! Heading processing: each top-level heading of a document becomes a raw
//! HTML heading with an anchor, and is entered into the table of contents;
//! the rendered table goes in front of the first heading.
use vstd::prelude::*;
use super::toc::{
    flag_parent, flag_placed, lemma_insert_model, lemma_placed_by_flags, open_flags, Toc, TocModel,
};
use super::util::{collect_all, inlines_text, Inline};
use super::Hooks;

verus! {

/// A top-level block of a parsed document, as far as heading processing
/// reads it.
pub enum Block {
    /// A heading of the given level, by its inline content.
    Heading { level: u8, inlines: Vec<Inline> },
    /// Any other block.
    Other,
}

/// What `slug::slugify` returns for a text.
pub uninterp spec fn slug_of(text: Seq<char>) -> Seq<char>;

/// The characters a slug is made of.
pub open spec fn is_slug_char(c: char) -> bool {
    ('a' <= c && c <= 'z') || ('0' <= c && c <= '9') || c == '-'
}

/// `slug::slugify`: the slug of a text. Its documentation promises that a
/// slug consists of `a`-`z`, `0`-`9` and `-`; what it does with each
/// character otherwise is left to the name `slug_of`.
#[verifier::external_body]
fn slugify(text: &str) -> (r: String)
    ensures
        r@ == slug_of(text@),
        forall|i: int| 0 <= i < r@.len() ==> is_slug_char(#[trigger] r@[i]),
{
    slug::slugify(text)
}

/// The character of a decimal digit.
pub open spec fn digit_char(d: int) -> char {
    (48 + d) as char
}

/// The decimal digits of a number, without leading zeros.
pub open spec fn decimal(n: nat) -> Seq<char>
    decreases n,
{
    if n < 10 {
        seq![digit_char(n as int)]
    } else {
        decimal(n / 10).push(digit_char((n % 10) as int))
    }
}

/// The raw HTML that replaces a heading: an `h` element of the heading's
/// level whose `id` is the slug and whose content is the text.
pub open spec fn heading_html(level: nat, slug: Seq<char>, text: Seq<char>) -> Seq<char> {
    seq!['<', 'h'] + decimal(level) + seq![' ', 'i', 'd', '=', '"'] + slug + seq!['"', '>'] + text
        + seq!['<', '/', 'h'] + decimal(level) + seq!['>']
}

fn digit_str(d: u8) -> (r: &'static str)
    requires
        d < 10,
    ensures
        r@ == seq![digit_char(d as int)],
{
    proof {
        reveal_strlit("0");
        reveal_strlit("1");
        reveal_strlit("2");
        reveal_strlit("3");
        reveal_strlit("4");
        reveal_strlit("5");
        reveal_strlit("6");
        reveal_strlit("7");
        reveal_strlit("8");
        reveal_strlit("9");
    }
    match d {
        0 => "0",
        1 => "1",
        2 => "2",
        3 => "3",
        4 => "4",
        5 => "5",
        6 => "6",
        7 => "7",
        8 => "8",
        _ => "9",
    }
}

/// Appends the decimal digits of `n`.
fn push_decimal(out: &mut String, n: u8)
    ensures
        final(out)@ == old(out)@ + decimal(n as nat),
{
    let ghost start = out@;
    if n >= 100 {
        out.append(digit_str(n / 100));
        out.append(digit_str((n / 10) % 10));
        out.append(digit_str(n % 10));
        assert((n / 10) / 10 == n / 100);
        assert(decimal((n / 100) as nat) == seq![digit_char((n / 100) as int)]);
        assert(decimal((n / 10) as nat) == decimal((n / 100) as nat).push(
            digit_char(((n / 10) % 10) as int),
        ));
        assert(decimal(n as nat) == decimal((n / 10) as nat).push(digit_char((n % 10) as int)));
        assert(out@ =~= start + decimal(n as nat));
    } else if n >= 10 {
        out.append(digit_str(n / 10));
        out.append(digit_str(n % 10));
        assert(decimal((n / 10) as nat) == seq![digit_char((n / 10) as int)]);
        assert(decimal(n as nat) == decimal((n / 10) as nat).push(digit_char((n % 10) as int)));
        assert(out@ =~= start + decimal(n as nat));
    } else {
        out.append(digit_str(n));
        assert(out@ =~= start + decimal(n as nat));
    }
}

/// The raw HTML of a heading of level `level` with the given slug and text.
pub fn heading_literal(level: u8, slug: &str, text: &str) -> (r: String)
    ensures
        r@ == heading_html(level as nat, slug@, text@),
{
    proof {
        reveal_strlit("<h");
        reveal_strlit(" id=\"");
        reveal_strlit("\">");
        reveal_strlit("</h");
        reveal_strlit(">");
    }
    let mut out = String::new();
    out.append("<h");
    push_decimal(&mut out, level);
    out.append(" id=\"");
    out.append(slug);
    out.append("\">");
    out.append(text);
    out.append("</h");
    push_decimal(&mut out, level);
    out.append(">");
    assert(out@ =~= heading_html(level as nat, slug@, text@));
    out
}

/// The text of a heading block.
pub open spec fn block_text(inlines: Vec<Inline>) -> Seq<char> {
    inlines_text(inlines@)
}

/// The table of contents after the headings among `blocks` are inserted in
/// order, each with the slug of its text.
pub open spec fn toc_after(m: TocModel, blocks: Seq<Block>) -> TocModel
    decreases blocks.len(),
{
    if blocks.len() == 0 {
        m
    } else {
        let before = toc_after(m, blocks.drop_last());
        match blocks.last() {
            Block::Heading { level, inlines } => before.insert(
                level as int,
                slug_of(block_text(inlines)),
                block_text(inlines),
            ),
            Block::Other => before,
        }
    }
}

/// Whether every heading among `blocks` fits the table as it stands when
/// its turn comes.
pub open spec fn headings_fit(m: TocModel, blocks: Seq<Block>) -> bool
    decreases blocks.len(),
{
    if blocks.len() == 0 {
        true
    } else {
        &&& headings_fit(m, blocks.drop_last())
        &&& match blocks.last() {
            Block::Heading { level, inlines } => toc_after(m, blocks.drop_last()).fits(level as int),
            Block::Other => true,
        }
    }
}

/// Where the blocks fit, so does each prefix; where a prefix does not fit,
/// neither do the blocks.
pub proof fn lemma_headings_fit_prefix(m: TocModel, blocks: Seq<Block>, n: int)
    requires
        0 <= n <= blocks.len(),
        headings_fit(m, blocks),
    ensures
        headings_fit(m, blocks.take(n)),
    decreases blocks.len(),
{
    if n < blocks.len() {
        assert(blocks.drop_last().take(n) == blocks.take(n));
        lemma_headings_fit_prefix(m, blocks.drop_last(), n);
    } else {
        assert(blocks.take(n) == blocks);
    }
}

/// The nearest open level above `level`, read off the open levels.
fn open_parent_level(flags: &[bool; 6], level: u8) -> (r: Option<u8>)
    requires
        1 <= level <= 6,
    ensures
        r matches Some(k) ==> flag_parent(flags@, level as int) == Some(k as int) && k < level,
        r is None ==> flag_parent(flags@, level as int) is None,
    decreases level,
{
    if level == 1 {
        return None;
    }
    if flags[level as usize - 1] {
        return Some(level - 1);
    }
    open_parent_level(flags, level - 1)
}

/// The level at which a heading of level `level` goes, read off the open
/// levels.
fn placed_level(flags: &[bool; 6], level: u8) -> (r: u8)
    requires
        1 <= level <= 6,
    ensures
        r == flag_placed(flags@, level as int),
{
    match open_parent_level(flags, level) {
        Some(k) => k + 1,
        None => level,
    }
}

/// Whether every heading among `blocks` fits `toc` when its turn comes,
/// so that `process` may run on them.
pub fn headings_fit_toc(toc: &Toc, blocks: &Vec<Block>) -> (r: bool)
    requires
        toc.wf(),
    ensures
        r == headings_fit(toc.model(), blocks@),
{
    let ghost m0 = toc.model();
    proof {
        toc.lemma_wf();
        assert(blocks@.take(0) =~= Seq::<Block>::empty());
    }
    let mut flags: [bool; 6] = [
        toc.is_open(0),
        toc.is_open(1),
        toc.is_open(2),
        toc.is_open(3),
        toc.is_open(4),
        toc.is_open(5),
    ];
    assert(flags@ =~= open_flags(m0));
    let mut count = toc.len();
    let mut i: usize = 0;
    while i < blocks.len()
        invariant
            i <= blocks@.len(),
            m0 == toc.model(),
            toc_after(m0, blocks@.take(i as int)).wf(),
            flags@ == open_flags(toc_after(m0, blocks@.take(i as int))),
            count == toc_after(m0, blocks@.take(i as int)).nodes.len(),
            headings_fit(m0, blocks@.take(i as int)),
        decreases blocks@.len() - i,
    {
        let ghost m = toc_after(m0, blocks@.take(i as int));
        let ghost upto = blocks@.take(i + 1);
        assert(upto.drop_last() == blocks@.take(i as int));
        assert(upto.last() == blocks@[i as int]);
        match &blocks[i] {
            Block::Heading { level, inlines } => {
                if *level < 1 || *level > 6 {
                    proof {
                        if headings_fit(m0, blocks@) {
                            lemma_headings_fit_prefix(m0, blocks@, i + 1);
                            assert(headings_fit(m0, upto));
                            assert(m.fits(*level as int));
                            assert(false);
                        }
                    }
                    return false;
                }
                let placed = placed_level(&flags, *level);
                proof {
                    lemma_placed_by_flags(m, *level as int);
                }
                if placed >= 6 || count == usize::MAX {
                    proof {
                        if headings_fit(m0, blocks@) {
                            lemma_headings_fit_prefix(m0, blocks@, i + 1);
                            assert(headings_fit(m0, upto));
                            assert(m.fits(*level as int));
                            assert(false);
                        }
                    }
                    return false;
                }
                proof {
                    lemma_insert_model(
                        m,
                        *level as int,
                        slug_of(block_text(*inlines)),
                        block_text(*inlines),
                    );
                }
                flags[placed as usize] = true;
                count = count + 1;
            },
            Block::Other => {},
        }
        i = i + 1;
    }
    assert(blocks@.take(blocks@.len() as int) == blocks@);
    true
}

/// For each block, the raw HTML that replaces it if it is a heading.
pub open spec fn heading_literals(blocks: Seq<Block>) -> Seq<Option<Seq<char>>> {
    blocks.map_values(
        |b: Block|
            match b {
                Block::Heading { level, inlines } => Some(
                    heading_html(level as nat, slug_of(block_text(inlines)), block_text(inlines)),
                ),
                Block::Other => None,
            },
    )
}

/// The view of a list of optional strings.
pub open spec fn literal_views(v: Seq<Option<String>>) -> Seq<Option<Seq<char>>> {
    v.map_values(
        |o: Option<String>|
            match o {
                Some(s) => Some(s@),
                None => None,
            },
    )
}

/// Replaces each heading among `blocks` by raw HTML and enters it into the
/// table of contents, in document order. The result has, for each block,
/// the HTML that replaces it, or `None` where it is not a heading.
pub fn process_headings(blocks: &Vec<Block>, toc: &mut Toc) -> (r: Vec<Option<String>>)
    requires
        old(toc).wf(),
        headings_fit(old(toc).model(), blocks@),
    ensures
        final(toc).wf(),
        final(toc).model() == toc_after(old(toc).model(), blocks@),
        literal_views(r@) == heading_literals(blocks@),
{
    let ghost m0 = toc.model();
    let mut r: Vec<Option<String>> = Vec::new();
    let mut i: usize = 0;
    while i < blocks.len()
        invariant
            i <= blocks@.len(),
            toc.wf(),
            toc.model() == toc_after(m0, blocks@.take(i as int)),
            headings_fit(m0, blocks@),
            literal_views(r@) == heading_literals(blocks@.take(i as int)),
        decreases blocks@.len() - i,
    {
        let ghost before = blocks@.take(i as int);
        let ghost upto = blocks@.take(i + 1);
        assert(upto.drop_last() == before);
        assert(upto == before.push(blocks@[i as int]));
        let ghost old_r = r@;
        proof {
            lemma_headings_fit_prefix(m0, blocks@, i + 1);
        }
        match &blocks[i] {
            Block::Heading { level, inlines } => {
                let mut text = String::new();
                collect_all(inlines, &mut text);
                assert(text@ =~= block_text(*inlines));
                let slug = slugify(text.as_str());
                let literal = heading_literal(*level, slug.as_str(), text.as_str());
                toc.insert(*level, slug, text);
                r.push(Some(literal));
                assert(literal_views(r@) =~= literal_views(old_r).push(
                    Some(heading_html(*level as nat, slug_of(block_text(*inlines)), block_text(*inlines))),
                ));
            },
            Block::Other => {
                r.push(None);
                assert(literal_views(r@) =~= literal_views(old_r).push(None));
            },
        }
        assert(literal_views(r@) =~= heading_literals(upto));
        i = i + 1;
    }
    assert(blocks@.take(blocks@.len() as int) == blocks@);
    r
}

/// The index of the first heading among `blocks`, if any.
pub open spec fn first_heading(blocks: Seq<Block>) -> Option<int>
    decreases blocks.len(),
{
    if blocks.len() == 0 {
        None
    } else {
        match first_heading(blocks.drop_last()) {
            Some(i) => Some(i),
            None => if blocks.last() is Heading {
                Some(blocks.len() - 1)
            } else {
                None
            },
        }
    }
}

/// The replacements with `html` put in front of the first one present.
pub open spec fn prefix_first(lits: Seq<Option<Seq<char>>>, html: Seq<char>) -> Seq<Option<Seq<char>>> {
    match first_present(lits) {
        Some(i) => lits.update(i, Some(html + lits[i]->0)),
        None => lits,
    }
}

/// The index of the first present entry, if any.
pub open spec fn first_present(lits: Seq<Option<Seq<char>>>) -> Option<int>
    decreases lits.len(),
{
    if lits.len() == 0 {
        None
    } else {
        match first_present(lits.drop_last()) {
            Some(i) => Some(i),
            None => if lits.last() is Some {
                Some(lits.len() - 1)
            } else {
                None
            },
        }
    }
}

/// Puts `html` in front of the first replacement present, if any.
pub fn prefix_toc(lits: &mut Vec<Option<String>>, html: &str)
    ensures
        literal_views(final(lits)@) == prefix_first(literal_views(old(lits)@), html@),
{
    let ghost views = literal_views(lits@);
    let mut i: usize = 0;
    while i < lits.len()
        invariant
            i <= lits@.len(),
            lits@ == old(lits)@,
            views == literal_views(lits@),
            first_present(views.take(i as int)) is None,
        decreases lits@.len() - i,
    {
        assert(views.take(i + 1).drop_last() == views.take(i as int));
        if lits[i].is_some() {
            let mut combined = String::new();
            combined.append(html);
            match &lits[i] {
                Some(s) => combined.append(s.as_str()),
                None => {},
            }
            proof {
                lemma_first_present_prefix(views, i as int + 1);
            }
            lits.set(i, Some(combined));
            assert(literal_views(lits@) =~= prefix_first(views, html@));
            return;
        }
        i = i + 1;
    }
    proof {
        assert(views.take(views.len() as int) == views);
    }
}

/// Where the first present entry lies within a prefix, it is the first
/// present entry of the whole sequence.
pub proof fn lemma_first_present_prefix(lits: Seq<Option<Seq<char>>>, n: int)
    requires
        0 <= n <= lits.len(),
        first_present(lits.take(n)) is Some,
    ensures
        first_present(lits) == first_present(lits.take(n)),
    decreases lits.len(),
{
    if n < lits.len() {
        assert(lits.drop_last().take(n) == lits.take(n));
        lemma_first_present_prefix(lits.drop_last(), n);
    } else {
        assert(lits.take(n) == lits);
    }
}

/// Whether any replacement is present.
fn has_present(lits: &Vec<Option<String>>) -> (r: bool)
    ensures
        r == (first_present(literal_views(lits@)) is Some),
{
    let ghost views = literal_views(lits@);
    let mut i: usize = 0;
    while i < lits.len()
        invariant
            i <= lits@.len(),
            views == literal_views(lits@),
            first_present(views.take(i as int)) is None,
        decreases lits@.len() - i,
    {
        assert(views.take(i + 1).drop_last() == views.take(i as int));
        if lits[i].is_some() {
            proof {
                lemma_first_present_prefix(views, i as int + 1);
            }
            return true;
        }
        i = i + 1;
    }
    assert(views.take(views.len() as int) == views);
    false
}

/// Processes the headings of `blocks` into `toc`; where there is a heading,
/// renders the finished table with `H` and puts it in front of the first
/// heading's HTML.
pub fn process<H: Hooks>(blocks: &Vec<Block>, toc: &mut Toc) -> (r: Vec<Option<String>>)
    requires
        old(toc).wf(),
        headings_fit(old(toc).model(), blocks@),
    ensures
        final(toc).wf(),
        final(toc).model() == toc_after(old(toc).model(), blocks@),
        first_present(heading_literals(blocks@)) is None ==> literal_views(r@) == heading_literals(
            blocks@,
        ),
        first_present(heading_literals(blocks@)) is Some ==> exists|html: String|
            #![trigger call_ensures(H::render_toc, (&*final(toc),), html)]
            {
                &&& call_ensures(H::render_toc, (&*final(toc),), html)
                &&& literal_views(r@) == prefix_first(heading_literals(blocks@), html@)
            },
{
    let mut lits = process_headings(blocks, toc);
    if has_present(&lits) {
        let render = H::render_toc;
        let toc_html = render(&*toc);
        prefix_toc(&mut lits, toc_html.as_str());
        assert(call_ensures(H::render_toc, (&*toc,), toc_html));
    }
    lits
}

/// There is one replacement per block, present exactly where the block is a
/// heading.
pub proof fn lemma_literals_match_blocks(blocks: Seq<Block>)
    ensures
        heading_literals(blocks).len() == blocks.len(),
        forall|i: int|
            0 <= i < blocks.len() ==> (#[trigger] heading_literals(blocks)[i] is Some) == (
            blocks[i] is Heading),
{
}

/// The first replacement present is that of the first heading.
pub proof fn lemma_first_literal_is_first_heading(blocks: Seq<Block>)
    ensures
        first_present(heading_literals(blocks)) == first_heading(blocks),
    decreases blocks.len(),
{
    if blocks.len() > 0 {
        lemma_first_literal_is_first_heading(blocks.drop_last());
        assert(heading_literals(blocks.drop_last()) =~= heading_literals(blocks).drop_last());
    }
}

/// The table of contents goes in front of the first replacement only: every
/// other replacement, and every absent one, is left as it was.
pub proof fn lemma_prefix_first_only_first(lits: Seq<Option<Seq<char>>>, html: Seq<char>)
    ensures
        prefix_first(lits, html).len() == lits.len(),
        forall|i: int|
            0 <= i < lits.len() && Some(i) != first_present(lits) ==> #[trigger] prefix_first(
                lits,
                html,
            )[i] == lits[i],
        first_present(lits) matches Some(k) ==> lits[k] is Some && prefix_first(lits, html)[k]
            == Some(html + lits[k]->0),
    decreases lits.len(),
{
    lemma_first_present_found(lits);
}

/// `first_present` finds a present entry.
pub proof fn lemma_first_present_found(lits: Seq<Option<Seq<char>>>)
    ensures
        first_present(lits) matches Some(k) ==> 0 <= k < lits.len() && lits[k] is Some,
    decreases lits.len(),
{
    if lits.len() > 0 {
        lemma_first_present_found(lits.drop_last());
    }
}

/// A heading block enters the table of contents with the text inside it:
/// processing one more heading adds an entry at the end, whose text is
/// the heading's text and whose anchor is the slug of that text, the same
/// text and anchor that the heading's HTML carries.
pub proof fn lemma_heading_enters_text(m: TocModel, blocks: Seq<Block>, level: u8, inlines: Vec<Inline>)
    ensures
        toc_after(m, blocks.push(Block::Heading { level, inlines })).nodes.last().text
            == inlines_text(inlines@),
        toc_after(m, blocks.push(Block::Heading { level, inlines })).nodes.last().slug
            == slug_of(inlines_text(inlines@)),
        heading_literals(blocks.push(Block::Heading { level, inlines })).last() == Some(
            heading_html(level as nat, slug_of(inlines_text(inlines@)), inlines_text(inlines@)),
        ),
{
    let h = Block::Heading { level, inlines };
    assert(blocks.push(h).drop_last() == blocks);
    assert(blocks.push(h).last() == h);
    let before = toc_after(m, blocks);
    let text = inlines_text(inlines@);
    assert(toc_after(m, blocks.push(h)) == before.insert(level as int, slug_of(text), text));
}

} // verus!
