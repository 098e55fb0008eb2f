//! The table of contents that heading processing builds: a forest of
//! headings, where each heading hangs below the nearest open heading of a
//! shallower level, and levels that a document skips are closed up.
use vstd::prelude::*;
use id_arena::{Arena, Id};

verus! {

#[verifier::external_type_specification]
#[verifier::external_body]
#[verifier::reject_recursive_types(T)]
#[verifier::reject_recursive_types(A)]
pub struct ExArena<T, A>(id_arena::Arena<T, A>);

#[verifier::external_type_specification]
#[verifier::external_body]
#[verifier::reject_recursive_types(T)]
pub struct ExId<T>(id_arena::Id<T>);

#[verifier::external_type_specification]
#[verifier::external_body]
#[verifier::reject_recursive_types(T)]
pub struct ExDefaultArenaBehavior<T>(id_arena::DefaultArenaBehavior<T>);

/// The items of an arena of table-of-contents nodes, in allocation order.
pub uninterp spec fn toc_arena_nodes(arena: Arena<TocNode>) -> Seq<TocNode>;

/// The identity that an arena was made with; ids it hands out carry it.
pub uninterp spec fn toc_arena_tag(arena: Arena<TocNode>) -> u32;

/// What `Id::index` returns: the position of the item in its arena.
pub uninterp spec fn toc_id_index(id: Id<TocNode>) -> usize;

/// What `ArenaBehavior::arena_id` returns for an id: the identity of the arena
/// that made it.
pub uninterp spec fn toc_id_tag(id: Id<TocNode>) -> u32;

/// `id_arena::Arena::new`: an arena with no items.
#[verifier::external_body]
fn toc_arena_new() -> (r: Arena<TocNode>)
    ensures
        toc_arena_nodes(r) == Seq::<TocNode>::empty(),
{
    Arena::new()
}

/// `id_arena::Arena::len`: the number of items allocated.
#[verifier::external_body]
fn toc_arena_len(arena: &Arena<TocNode>) -> (r: usize)
    ensures
        r == toc_arena_nodes(*arena).len(),
{
    arena.len()
}

/// `id_arena::Arena::next_id`: the id that the next allocation will get,
/// made of the arena's identity and the current number of items.
#[verifier::external_body]
fn toc_arena_next_id(arena: &Arena<TocNode>) -> (r: Id<TocNode>)
    ensures
        toc_id_index(r) == toc_arena_nodes(*arena).len(),
        toc_id_tag(r) == toc_arena_tag(*arena),
{
    arena.next_id()
}

/// `id_arena::Arena::alloc`: pushes the item and returns the id that
/// `next_id` gave before the push. It panics when the item count would
/// overflow, which the `requires` leaves out.
#[verifier::external_body]
fn toc_arena_alloc(arena: &mut Arena<TocNode>, node: TocNode) -> (r: Id<TocNode>)
    requires
        toc_arena_nodes(*old(arena)).len() < usize::MAX,
    ensures
        toc_arena_nodes(*final(arena)) == toc_arena_nodes(*old(arena)).push(node),
        toc_arena_tag(*final(arena)) == toc_arena_tag(*old(arena)),
        toc_id_index(r) == toc_arena_nodes(*old(arena)).len(),
        toc_id_tag(r) == toc_arena_tag(*old(arena)),
{
    arena.alloc(node)
}

/// `id_arena::Arena::get`: the item at the id's index when the id was made by
/// this arena and the index is in range, else `None`.
#[verifier::external_body]
fn toc_arena_get<'a>(arena: &'a Arena<TocNode>, id: Id<TocNode>) -> (r: Option<&'a TocNode>)
    ensures
        (toc_id_tag(id) == toc_arena_tag(*arena) && toc_id_index(id) < toc_arena_nodes(
            *arena,
        ).len()) ==> r == Some(&toc_arena_nodes(*arena)[toc_id_index(id) as int]),
        !(toc_id_tag(id) == toc_arena_tag(*arena) && toc_id_index(id) < toc_arena_nodes(
            *arena,
        ).len()) ==> r is None,
{
    arena.get(id)
}

/// `id_arena::Arena::get_mut`: like `get`, but the item can be changed in
/// place through the returned reference; nothing else in the arena changes.
#[verifier::external_body]
fn toc_arena_get_mut<'a>(arena: &'a mut Arena<TocNode>, id: Id<TocNode>) -> (r: Option<
    &'a mut TocNode,
>)
    ensures
        toc_arena_tag(*final(arena)) == toc_arena_tag(*old(arena)),
        (toc_id_tag(id) == toc_arena_tag(*old(arena)) && toc_id_index(id) < toc_arena_nodes(
            *old(arena),
        ).len()) ==> r.is_some() && *r.unwrap() == toc_arena_nodes(*old(arena))[toc_id_index(
            id,
        ) as int] && toc_arena_nodes(*final(arena)) == toc_arena_nodes(*old(arena)).update(
            toc_id_index(id) as int,
            *final(r.unwrap()),
        ),
        !(toc_id_tag(id) == toc_arena_tag(*old(arena)) && toc_id_index(id) < toc_arena_nodes(
            *old(arena),
        ).len()) ==> r.is_none() && toc_arena_nodes(*final(arena)) == toc_arena_nodes(
            *old(arena),
        ),
{
    arena.get_mut(id)
}

/// `Id::index`: the position that the id names.
#[verifier::external_body]
fn toc_id_index_of(id: Id<TocNode>) -> (r: usize)
    ensures
        r == toc_id_index(id),
{
    id.index()
}

/// `DefaultArenaBehavior::new_id`: the id of the given arena identity and
/// position.
#[verifier::external_body]
fn toc_id_new(tag: u32, index: usize) -> (r: Id<TocNode>)
    ensures
        toc_id_tag(r) == tag,
        toc_id_index(r) == index,
{
    <id_arena::DefaultArenaBehavior<TocNode> as id_arena::ArenaBehavior>::new_id(tag, index)
}

/// `DefaultArenaBehavior::arena_id`: the arena identity that an id carries.
#[verifier::external_body]
fn toc_id_tag_of(id: Id<TocNode>) -> (r: u32)
    ensures
        r == toc_id_tag(id),
{
    <id_arena::DefaultArenaBehavior<TocNode> as id_arena::ArenaBehavior>::arena_id(id)
}

/// `id_arena::Arena::iter`, with each item handed out without its id.
#[verifier::external_body]
fn toc_arena_items(arena: &Arena<TocNode>) -> (r: Vec<&TocNode>)
    ensures
        r@.len() == toc_arena_nodes(*arena).len(),
        forall|i: int| 0 <= i < r@.len() ==> *r@[i] == toc_arena_nodes(*arena)[i],
{
    arena.iter().map(|entry| entry.1).collect()
}

/// One heading of the table of contents.
#[derive(Debug)]
pub struct TocNode {
    pub depth: u8,
    pub slug: String,
    pub text: String,
    // The ids of the headings below, each as the two numbers an
    // `id_arena::Id` is made of: the identity of its arena, and its index.
    children: Vec<(u32, usize)>,
}

/// What a heading holds: its level, anchor, text, and the ids of the
/// headings directly below it, in document order.
pub struct TocNodeView {
    pub depth: u8,
    pub slug: Seq<char>,
    pub text: Seq<char>,
    pub children: Seq<(u32, usize)>,
}

impl View for TocNode {
    type V = TocNodeView;

    closed spec fn view(&self) -> TocNodeView {
        TocNodeView {
            depth: self.depth,
            slug: self.slug@,
            text: self.text@,
            children: self.children@,
        }
    }
}

impl TocNode {
    fn new(depth: u8, slug: String, text: String) -> (r: Self)
        ensures
            r@.depth == depth,
            r@.slug == slug@,
            r@.text == text@,
            r@.children == Seq::<(u32, usize)>::empty(),
    {
        TocNode { depth, slug, text, children: Vec::new() }
    }

    /// Whether this heading has no headings below it.
    pub fn is_root(&self) -> (r: bool)
        ensures
            r == (self@.children.len() == 0),
    {
        self.children.len() == 0
    }
}

/// The headings without children, in the order given.
pub open spec fn childless(nodes: Seq<TocNode>) -> Seq<TocNode>
    decreases nodes.len(),
{
    if nodes.len() == 0 {
        Seq::empty()
    } else {
        let rest = childless(nodes.drop_last());
        if nodes.last()@.children.len() == 0 {
            rest.push(nodes.last())
        } else {
            rest
        }
    }
}

/// The headings that a list of child ids names among `nodes`, the items of
/// an arena of identity `tag`: an id of that identity with an index in
/// range names the heading there; any other id names none.
pub open spec fn named_nodes(nodes: Seq<TocNode>, tag: u32, ids: Seq<(u32, usize)>) -> Seq<TocNode>
    decreases ids.len(),
{
    if ids.len() == 0 {
        Seq::empty()
    } else {
        let rest = named_nodes(nodes, tag, ids.drop_last());
        let c = ids.last();
        if c.0 == tag && c.1 < nodes.len() {
            rest.push(nodes[c.1 as int])
        } else {
            rest
        }
    }
}

/// Where every id of this identity in range names a heading of level `d`,
/// every heading that the ids name has level `d`.
pub proof fn lemma_named_nodes_depth(nodes: Seq<TocNode>, tag: u32, ids: Seq<(u32, usize)>, d: int)
    requires
        forall|j: int|
            0 <= j < ids.len() && (#[trigger] ids[j]).0 == tag && ids[j].1 < nodes.len() ==> nodes[ids[j].1 as int]@.depth == d,
    ensures
        forall|j: int|
            0 <= j < named_nodes(nodes, tag, ids).len() ==> #[trigger] named_nodes(nodes, tag, ids)[j]@.depth == d,
    decreases ids.len(),
{
    if ids.len() > 0 {
        assert forall|j: int|
            0 <= j < ids.drop_last().len() && (#[trigger] ids.drop_last()[j]).0 == tag && ids.drop_last()[j].1 < nodes.len()
            implies nodes[ids.drop_last()[j].1 as int]@.depth == d by {
            assert(ids.drop_last()[j] == ids[j]);
        }
        lemma_named_nodes_depth(nodes, tag, ids.drop_last(), d);
        let c = ids.last();
        let rest = named_nodes(nodes, tag, ids.drop_last());
        if c.0 == tag && c.1 < nodes.len() {
            assert(ids[ids.len() - 1] == c);
            assert(named_nodes(nodes, tag, ids) == rest.push(nodes[c.1 as int]));
            assert forall|j: int| 0 <= j < rest.len() + 1 implies #[trigger] rest.push(
                nodes[c.1 as int],
            )[j]@.depth == d by {
                if j < rest.len() {
                    assert(rest.push(nodes[c.1 as int])[j] == rest[j]);
                }
            }
        }
    }
}

/// A table of contents as values: the identity of its arena, its headings
/// in insertion order, and for each level the index of the open heading of
/// that level, if any.
pub struct TocModel {
    pub tag: u32,
    pub nodes: Seq<TocNodeView>,
    pub open: Seq<Option<int>>,
}

impl TocModel {
    /// The table's invariant: the open slots name headings of their own
    /// level, every heading's level is between 1 and 5, and every child is a
    /// later heading of this table exactly one level below its parent.
    pub open spec fn wf(self) -> bool {
        &&& self.open.len() == 6
        &&& self.open[0] is None
        &&& forall|k: int|
            1 <= k < 6 && #[trigger] self.open[k] is Some ==> {
                &&& 0 <= self.open[k]->0 < self.nodes.len()
                &&& self.nodes[self.open[k]->0].depth == k
            }
        &&& forall|i: int| 0 <= i < self.nodes.len() ==> 1 <= #[trigger] self.nodes[i].depth <= 5
        &&& forall|i: int, j: int|
            0 <= i < self.nodes.len() && 0 <= j < self.nodes[i].children.len() ==> {
                let c = #[trigger] self.nodes[i].children[j];
                &&& c.0 == self.tag
                &&& i < c.1 < self.nodes.len()
                &&& self.nodes[c.1 as int].depth == self.nodes[i].depth + 1
            }
    }

    /// The index of the nearest open heading above a heading of level
    /// `depth`: the open heading one level up, or, where that level was
    /// skipped, the nearest open one above it.
    pub open spec fn parent(self, depth: int) -> Option<int>
        decreases depth,
    {
        if depth <= 1 {
            None
        } else if self.open[depth - 1] is Some {
            self.open[depth - 1]
        } else {
            self.parent(depth - 1)
        }
    }

    /// The level at which a heading of level `depth` is placed: one below
    /// its parent, or its own level where it has none.
    pub open spec fn placed_depth(self, depth: int) -> int {
        match self.parent(depth) {
            Some(p) => self.nodes[p].depth + 1,
            None => depth,
        }
    }

    /// The levels on which `insert` neither indexes out of range nor
    /// overflows the arena.
    pub open spec fn fits(self, depth: int) -> bool {
        &&& 1 <= depth <= 6
        &&& self.placed_depth(depth) < 6
        &&& self.nodes.len() < usize::MAX
    }

    /// The table after a heading of level `depth` is inserted: the parent,
    /// if any, gains the new heading as its last child; the new heading,
    /// childless, comes last at its placed level and becomes the open
    /// heading of that level.
    pub open spec fn insert(self, depth: int, slug: Seq<char>, text: Seq<char>) -> TocModel {
        let new_index = self.nodes.len();
        let d = self.placed_depth(depth);
        let nodes = match self.parent(depth) {
            Some(p) => self.nodes.update(p, with_child(self.nodes[p], (self.tag, new_index as usize))),
            None => self.nodes,
        };
        TocModel {
            tag: self.tag,
            nodes: nodes.push(TocNodeView { depth: d as u8, slug, text, children: seq![] }),
            open: self.open.update(d, Some(new_index as int)),
        }
    }
}

/// For each level, whether a heading of that level is open.
pub open spec fn open_flags(m: TocModel) -> Seq<bool> {
    m.open.map_values(|slot: Option<int>| slot is Some)
}

/// The nearest level above `depth` whose flag is set.
pub open spec fn flag_parent(flags: Seq<bool>, depth: int) -> Option<int>
    decreases depth,
{
    if depth <= 1 {
        None
    } else if flags[depth - 1] {
        Some(depth - 1)
    } else {
        flag_parent(flags, depth - 1)
    }
}

/// The level at which a heading of level `depth` is placed, read off the
/// open levels alone.
pub open spec fn flag_placed(flags: Seq<bool>, depth: int) -> int {
    match flag_parent(flags, depth) {
        Some(k) => k + 1,
        None => depth,
    }
}

/// In a well-formed table the placed level depends only on which levels
/// are open: the open heading of a level has that level.
pub proof fn lemma_placed_by_flags(m: TocModel, depth: int)
    requires
        m.wf(),
        1 <= depth <= 6,
    ensures
        m.placed_depth(depth) == flag_placed(open_flags(m), depth),
        (m.parent(depth) is Some) == (flag_parent(open_flags(m), depth) is Some),
    decreases depth,
{
    if depth > 1 {
        if m.open[depth - 1] is None {
            lemma_placed_by_flags(m, depth - 1);
        }
    }
}

/// Inserting a heading that fits keeps the table well formed, opens the
/// level it was placed at and adds one heading.
pub proof fn lemma_insert_model(m: TocModel, depth: int, slug: Seq<char>, text: Seq<char>)
    requires
        m.wf(),
        m.fits(depth),
    ensures
        m.insert(depth, slug, text).wf(),
        open_flags(m.insert(depth, slug, text)) == open_flags(m).update(m.placed_depth(depth), true),
        m.insert(depth, slug, text).nodes.len() == m.nodes.len() + 1,
{
    let k = lemma_parent_level(m, depth);
    let r = m.insert(depth, slug, text);
    assert(open_flags(r) =~= open_flags(m).update(m.placed_depth(depth), true));
}

/// A heading is never placed deeper than its own level, and never above
/// level 1: skipped levels are closed up, so a heading of level 1 always
/// starts a new top-level entry.
pub proof fn lemma_placed_depth_bounds(m: TocModel, depth: int)
    requires
        m.wf(),
        1 <= depth <= 6,
    ensures
        1 <= m.placed_depth(depth) <= depth,
        depth == 1 ==> m.placed_depth(depth) == 1 && m.parent(depth) is None,
{
    let k = lemma_parent_level(m, depth);
}

/// Where the level just above is open, a heading keeps its own level and
/// goes below the open heading of that level.
pub proof fn lemma_placed_below_open_level(m: TocModel, depth: int)
    requires
        m.wf(),
        2 <= depth <= 6,
        m.open[depth - 1] is Some,
    ensures
        m.parent(depth) == m.open[depth - 1],
        m.placed_depth(depth) == depth,
{
}

/// Inserting a heading keeps the level, anchor and text of every heading
/// already in the table, and adds one heading at the end.
pub proof fn lemma_insert_keeps_headings(m: TocModel, depth: int, slug: Seq<char>, text: Seq<char>)
    requires
        m.wf(),
        m.fits(depth),
    ensures
        m.insert(depth, slug, text).nodes.len() == m.nodes.len() + 1,
        forall|i: int|
            0 <= i < m.nodes.len() ==> {
                let n = #[trigger] m.insert(depth, slug, text).nodes[i];
                &&& n.depth == m.nodes[i].depth
                &&& n.slug == m.nodes[i].slug
                &&& n.text == m.nodes[i].text
            },
        m.insert(depth, slug, text).nodes[m.nodes.len() as int].slug == slug,
        m.insert(depth, slug, text).nodes[m.nodes.len() as int].text == text,
{
    let k = lemma_parent_level(m, depth);
}

/// A heading with one more child id at the end of its children.
pub open spec fn with_child(v: TocNodeView, c: (u32, usize)) -> TocNodeView {
    TocNodeView { depth: v.depth, slug: v.slug, text: v.text, children: v.children.push(c) }
}

/// The index that an open slot holds.
pub open spec fn slot_index(slot: Option<Id<TocNode>>) -> Option<int> {
    match slot {
        Some(id) => Some(toc_id_index(id) as int),
        None => None,
    }
}

/// Where `parent` finds a heading, it found it in an open slot of a level
/// above `depth`.
pub proof fn lemma_parent_level(m: TocModel, depth: int) -> (k: int)
    requires
        depth <= m.open.len(),
    ensures
        m.parent(depth) is Some ==> 1 <= k < depth && m.open[k] == m.parent(depth),
    decreases depth,
{
    if depth <= 1 {
        0
    } else if m.open[depth - 1] is Some {
        depth - 1
    } else {
        lemma_parent_level(m, depth - 1)
    }
}

/// The parent of a heading is the open heading of the nearest open level
/// above it: there is none exactly where no level above it is open, and
/// otherwise it is the open heading of some level above it with no open
/// level in between. So a skipped level falls back one level at a time:
/// where the level just above is closed, a heading gets the parent a
/// heading of that level would get.
pub proof fn lemma_parent_is_nearest_open(m: TocModel, depth: int)
    requires
        m.open.len() == 6,
        1 <= depth <= 6,
    ensures
        m.parent(depth) is None <==> forall|k: int| 1 <= k < depth ==> #[trigger] m.open[k] is None,
        m.parent(depth) is Some ==> exists|k: int|
            #![trigger m.open[k]]
            1 <= k < depth && m.open[k] == m.parent(depth) && forall|j: int|
                k < j < depth ==> #[trigger] m.open[j] is None,
        2 <= depth && m.open[depth - 1] is None ==> m.parent(depth) == m.parent(depth - 1),
    decreases depth,
{
    if depth > 1 {
        lemma_parent_is_nearest_open(m, depth - 1);
        if m.open[depth - 1] is Some {
            assert(forall|j: int| depth - 1 < j < depth ==> #[trigger] m.open[j] is None);
        } else if m.parent(depth - 1) is Some {
            let k = choose|k: int|
                #![trigger m.open[k]]
                1 <= k < depth - 1 && m.open[k] == m.parent(depth - 1) && forall|j: int|
                    k < j < depth - 1 ==> #[trigger] m.open[j] is None;
            assert(forall|j: int| k < j < depth ==> #[trigger] m.open[j] is None);
        }
    }
}

/// Every child id of this arena that is in range names its heading: for ids
/// that all name headings of the table, the headings named are one per id,
/// in the order of the ids.
pub proof fn lemma_named_nodes_all(nodes: Seq<TocNode>, tag: u32, ids: Seq<(u32, usize)>)
    requires
        forall|j: int| 0 <= j < ids.len() ==> (#[trigger] ids[j]).0 == tag && ids[j].1 < nodes.len(),
    ensures
        named_nodes(nodes, tag, ids).len() == ids.len(),
        forall|j: int|
            0 <= j < ids.len() ==> #[trigger] named_nodes(nodes, tag, ids)[j] == nodes[ids[j].1 as int],
    decreases ids.len(),
{
    if ids.len() > 0 {
        let rest = ids.drop_last();
        assert forall|j: int| 0 <= j < rest.len() implies (#[trigger] rest[j]).0 == tag && rest[j].1
            < nodes.len() by {
            assert(rest[j] == ids[j]);
        }
        lemma_named_nodes_all(nodes, tag, rest);
        assert(ids[ids.len() - 1] == ids.last());
        assert forall|j: int| 0 <= j < ids.len() implies #[trigger] named_nodes(nodes, tag, ids)[j]
            == nodes[ids[j].1 as int] by {
            if j < ids.len() - 1 {
                assert(rest[j] == ids[j]);
            }
        }
    }
}

#[derive(Debug)]
pub struct Toc {
    arena: Arena<TocNode>,
    open: [Option<Id<TocNode>>; 6],
}

impl Toc {
    /// All headings, in the order they were inserted.
    pub closed spec fn nodes(&self) -> Seq<TocNode> {
        toc_arena_nodes(self.arena)
    }

    /// The table as values.
    pub closed spec fn model(&self) -> TocModel {
        TocModel {
            tag: toc_arena_tag(self.arena),
            nodes: toc_arena_nodes(self.arena).map_values(|n: TocNode| n@),
            open: self.open@.map_values(|slot: Option<Id<TocNode>>| slot_index(slot)),
        }
    }

    /// The invariant of the model, and every open slot holds an id of this
    /// table's arena.
    pub closed spec fn wf(&self) -> bool {
        &&& self.model().wf()
        &&& forall|k: int|
            0 <= k < 6 && #[trigger] self.open@[k] is Some ==> toc_id_tag(self.open@[k]->0)
                == toc_arena_tag(self.arena)
    }

    /// A well-formed table has a well-formed model.
    pub proof fn lemma_wf(&self)
        requires
            self.wf(),
        ensures
            self.model().wf(),
    {
    }

    /// Each heading that `children` gives for a heading of this table lies
    /// exactly one level below it.
    pub proof fn lemma_children_one_level_below(&self, i: int)
        requires
            self.wf(),
            0 <= i < self.nodes().len(),
        ensures
            forall|j: int|
                0 <= j < named_nodes(self.nodes(), self.model().tag, self.nodes()[i]@.children).len()
                    ==> #[trigger] named_nodes(self.nodes(), self.model().tag, self.nodes()[i]@.children)[j]@.depth
                    == self.nodes()[i]@.depth + 1,
    {
        let ids = self.nodes()[i]@.children;
        assert(self.model().nodes[i] == self.nodes()[i]@);
        lemma_named_nodes_depth(self.nodes(), self.model().tag, ids, self.nodes()[i]@.depth + 1);
    }

    /// Every child of a heading of this table names a heading of it, so
    /// `children` gives one heading per child id, in order: the heading at
    /// that id's index.
    pub proof fn lemma_children_all(&self, i: int)
        requires
            self.wf(),
            0 <= i < self.nodes().len(),
        ensures
            named_nodes(self.nodes(), self.model().tag, self.nodes()[i]@.children).len()
                == self.nodes()[i]@.children.len(),
            forall|j: int|
                0 <= j < self.nodes()[i]@.children.len() ==> #[trigger] named_nodes(
                    self.nodes(),
                    self.model().tag,
                    self.nodes()[i]@.children,
                )[j] == self.nodes()[self.nodes()[i]@.children[j].1 as int],
    {
        let ids = self.nodes()[i]@.children;
        assert(self.model().nodes[i] == self.nodes()[i]@);
        assert(self.model().nodes.len() == self.nodes().len());
        assert forall|j: int| 0 <= j < ids.len() implies (#[trigger] ids[j]).0 == self.model().tag
            && ids[j].1 < self.nodes().len() by {
            assert(self.model().nodes[i].children[j] == ids[j]);
        }
        lemma_named_nodes_all(self.nodes(), self.model().tag, ids);
    }

    /// The model's headings are the views of the table's headings.
    pub proof fn lemma_model_nodes(&self)
        ensures
            self.model().nodes.len() == self.nodes().len(),
            forall|i: int| 0 <= i < self.nodes().len() ==> self.model().nodes[i] == #[trigger] self.nodes()[i]@,
    {
    }

    /// An empty table.
    pub fn new() -> (r: Self)
        ensures
            r.wf(),
            r.model().nodes == Seq::<TocNodeView>::empty(),
            r.model().open == seq![None::<int>, None, None, None, None, None],
    {
        let r = Toc { arena: toc_arena_new(), open: [None, None, None, None, None, None] };
        assert(r.model().open =~= seq![None::<int>, None, None, None, None, None]);
        r
    }

    /// Whether a heading of level `level` is open.
    pub fn is_open(&self, level: usize) -> (r: bool)
        requires
            self.wf(),
            level < 6,
        ensures
            r == open_flags(self.model())[level as int],
    {
        self.open[level].is_some()
    }

    /// The number of headings.
    pub fn len(&self) -> (r: usize)
        ensures
            r == self.model().nodes.len(),
    {
        toc_arena_len(&self.arena)
    }

    /// The nearest open heading above level `depth`, falling back one level
    /// at a time over skipped levels.
    fn parent_id(&self, depth: u8) -> (r: Option<Id<TocNode>>)
        requires
            1 <= depth <= 6,
            self.open@.len() == 6,
        ensures
            slot_index(r) == self.model().parent(depth as int),
            r is Some ==> exists|k: int| 1 <= k < depth && self.open@[k] == r,
        decreases depth,
    {
        if depth == 1 {
            return None;
        }
        let parent_id = self.open[depth as usize - 1];
        if parent_id.is_some() {
            assert(self.open@[depth - 1] == parent_id);
            return parent_id;
        }
        self.parent_id(depth - 1)
    }

    /// Whether `insert` can place a heading of level `depth`.
    pub fn fits(&self, depth: u8) -> (r: bool)
        requires
            self.wf(),
        ensures
            r == self.model().fits(depth as int),
    {
        if depth < 1 || depth > 6 {
            return false;
        }
        if toc_arena_len(&self.arena) == usize::MAX {
            return false;
        }
        match self.parent_id(depth) {
            Some(p) => {
                let ghost k = choose|k: int| 1 <= k < depth && self.open@[k] == Some(p);
                assert(self.model().open[k] is Some);
                match toc_arena_get(&self.arena, p) {
                    Some(n) => n.depth + 1 < 6,
                    None => false,
                }
            },
            None => depth < 6,
        }
    }

    /// Adds a heading of level `depth`. It goes below the nearest open
    /// heading of a shallower level, one level deeper than that heading
    /// whatever level was asked for; with no such heading it keeps its
    /// level. It then becomes the open heading of its level.
    pub fn insert(&mut self, depth: u8, slug: String, text: String)
        requires
            old(self).wf(),
            old(self).model().fits(depth as int),
        ensures
            final(self).wf(),
            final(self).model() == old(self).model().insert(depth as int, slug@, text@),
    {
        let ghost m = self.model();
        let ghost k = lemma_parent_level(m, depth as int);
        let node_id = toc_arena_next_id(&self.arena);
        let mut node = TocNode::new(depth, slug, text);

        if let Some(parent_id) = self.parent_id(depth) {
            let ghost j = choose|j: int| 1 <= j < depth && self.open@[j] == Some(parent_id);
            assert(m.open[j] is Some);
            if let Some(parent_node) = toc_arena_get_mut(&mut self.arena, parent_id) {
                // Account for levels that may have been skipped.
                node.depth = parent_node.depth + 1;
                parent_node.children.push((toc_id_tag_of(node_id), toc_id_index_of(node_id)));
            }
        }
        self.open[node.depth as usize] = Some(node_id);
        toc_arena_alloc(&mut self.arena, node);
        proof {
            let target = m.insert(depth as int, slug@, text@);
            assert(self.model().nodes =~= target.nodes);
            assert(self.model().open =~= target.open);
        }
    }

    /// The headings that have no headings below them, in insertion order.
    pub fn roots(&self) -> (r: Vec<&TocNode>)
        ensures
            r@.len() == childless(self.nodes()).len(),
            forall|i: int| 0 <= i < r@.len() ==> *r@[i] == childless(self.nodes())[i],
    {
        let items = toc_arena_items(&self.arena);
        let ghost nodes = self.nodes();
        let mut r: Vec<&TocNode> = Vec::new();
        let mut i: usize = 0;
        while i < items.len()
            invariant
                i <= items@.len(),
                items@.len() == nodes.len(),
                nodes == self.nodes(),
                forall|k: int| 0 <= k < items@.len() ==> *items@[k] == nodes[k],
                r@.len() == childless(nodes.take(i as int)).len(),
                forall|k: int| 0 <= k < r@.len() ==> *r@[k] == childless(nodes.take(i as int))[k],
            decreases items@.len() - i,
        {
            let node = items[i];
            assert(nodes.take(i + 1).drop_last() == nodes.take(i as int));
            if node.is_root() {
                r.push(node);
            }
            i = i + 1;
        }
        assert(nodes.take(nodes.len() as int) == nodes);
        r
    }

    /// The headings directly below `node` that this table holds, in
    /// document order.
    pub fn children<'a>(&'a self, node: &'a TocNode) -> (r: Vec<&'a TocNode>)
        ensures
            r@.len() == named_nodes(self.nodes(), self.model().tag, node@.children).len(),
            forall|i: int|
                0 <= i < r@.len() ==> *r@[i] == named_nodes(self.nodes(), self.model().tag, node@.children)[i],
    {
        let ghost ids = node@.children;
        let mut r: Vec<&TocNode> = Vec::new();
        let mut i: usize = 0;
        while i < node.children.len()
            invariant
                i <= ids.len(),
                ids == node@.children,
                ids.len() == node.children@.len(),
                forall|k: int| 0 <= k < ids.len() ==> ids[k] == node.children@[k],
                r@.len() == named_nodes(self.nodes(), self.model().tag, ids.take(i as int)).len(),
                forall|k: int|
                    0 <= k < r@.len() ==> *r@[k] == named_nodes(self.nodes(), self.model().tag, ids.take(i as int))[k],
            decreases ids.len() - i,
        {
            let (tag, index) = node.children[i];
            assert(ids.take(i + 1).drop_last() == ids.take(i as int));
            if let Some(child) = toc_arena_get(&self.arena, toc_id_new(tag, index)) {
                r.push(child);
            }
            i = i + 1;
        }
        assert(ids.take(ids.len() as int) == ids);
        r
    }
}

} // verus!
