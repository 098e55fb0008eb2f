//! The entries of the files below a directory, held in memory: kept in an
//! arena and found by path.
use vstd::prelude::*;
use crate::node::key::{key_of_path, path_key};
use id_arena::{Arena, Id};
use crate::entry::Entry;

verus! {

/// The entries of an arena of entries, in allocation order.
pub uninterp spec fn memory_entries(arena: Arena<Entry>) -> Seq<Entry>;

/// What `Id::index` returns for an id of an entry.
pub uninterp spec fn memory_id_index(id: Id<Entry>) -> usize;

/// `id_arena::Arena::new`: an arena with no entries.
#[verifier::external_body]
fn memory_arena_new() -> (r: Arena<Entry>)
    ensures
        memory_entries(r) == Seq::<Entry>::empty(),
{
    Arena::new()
}

/// `id_arena::Arena::len`: the number of entries allocated.
#[verifier::external_body]
fn memory_arena_len(arena: &Arena<Entry>) -> (r: usize)
    ensures
        r == memory_entries(*arena).len(),
{
    arena.len()
}

/// `id_arena::Arena::alloc`: pushes the entry and returns the id of its
/// position. It panics when the count would overflow, which the `requires`
/// leaves out.
#[verifier::external_body]
fn memory_arena_alloc(arena: &mut Arena<Entry>, entry: Entry) -> (r: Id<Entry>)
    requires
        memory_entries(*old(arena)).len() < usize::MAX,
    ensures
        memory_entries(*final(arena)) == memory_entries(*old(arena)).push(entry),
        memory_id_index(r) == memory_entries(*old(arena)).len(),
{
    arena.alloc(entry)
}

/// A `hashbrown::HashMap` from path keys to the ids of their entries.
#[verifier::external_body]
pub struct MemoryPaths {
    map: hashbrown::HashMap<String, Id<Entry>>,
}

/// The pairs that a path map holds.
pub uninterp spec fn memory_paths(paths: MemoryPaths) -> Map<Seq<char>, Id<Entry>>;

/// `hashbrown::HashMap::new`: an empty map.
#[verifier::external_body]
fn memory_paths_new() -> (r: MemoryPaths)
    ensures
        memory_paths(r).dom() == Set::<Seq<char>>::empty(),
{
    MemoryPaths { map: hashbrown::HashMap::new() }
}

/// `hashbrown::HashMap::insert`: maps the path to the id, replacing the id
/// it mapped to before, if any.
#[verifier::external_body]
fn memory_paths_insert(paths: &mut MemoryPaths, path: String, id: Id<Entry>)
    ensures
        memory_paths(*final(paths)) == memory_paths(*old(paths)).insert(path@, id),
{
    paths.map.insert(path, id);
}

/// The entries of the files below the directory `dir`, and for each path
/// the id of its latest entry.
pub struct Memory {
    pub dir: String,
    arena: Arena<Entry>,
    paths: MemoryPaths,
}

impl Memory {
    pub closed spec fn dir_view(&self) -> Seq<char> {
        self.dir@
    }

    pub closed spec fn entries(&self) -> Seq<Entry> {
        memory_entries(self.arena)
    }

    pub closed spec fn paths(&self) -> Map<Seq<char>, Id<Entry>> {
        memory_paths(self.paths)
    }

    /// An empty memory of the directory `dir`.
    pub fn new(dir: String) -> (r: Self)
        ensures
            r.dir_view() == dir@,
            r.entries() == Seq::<Entry>::empty(),
            r.paths().dom() == Set::<Seq<char>>::empty(),
    {
        Memory { dir, arena: memory_arena_new(), paths: memory_paths_new() }
    }

    /// The number of entries.
    pub fn len(&self) -> (r: usize)
        ensures
            r == self.entries().len(),
    {
        memory_arena_len(&self.arena)
    }

    /// Adds the entry at the end, and maps the key of its path to it, so
    /// that paths with the same components share one key.
    pub fn insert(&mut self, entry: Entry)
        requires
            old(self).entries().len() < usize::MAX,
        ensures
            final(self).dir_view() == old(self).dir_view(),
            final(self).entries() == old(self).entries().push(entry),
            final(self).paths().dom() == old(self).paths().dom().insert(path_key(entry.path@)),
            memory_id_index(final(self).paths()[path_key(entry.path@)]) == old(self).entries().len(),
            forall|p: Seq<char>|
                p != path_key(entry.path@) ==> #[trigger] final(self).paths().get(p) == old(self).paths().get(p),
    {
        let path = key_of_path(entry.path.as_str());
        let id = memory_arena_alloc(&mut self.arena, entry);
        memory_paths_insert(&mut self.paths, path, id);
    }
}

} // verus!
