//! The files below a directory, each read for what it holds, kept in an
//! arena and found by path.
use vstd::prelude::*;
use crate::node::key::{key_of_path, path_key};
use id_arena::{Arena, Id};
use self::entry::Entry;

pub mod document;
pub mod entry;

verus! {

/// The entries of an arena of storage entries, in allocation order.
pub uninterp spec fn storage_entries(arena: Arena<Entry>) -> Seq<Entry>;

/// What `Id::index` returns for an id of a storage entry.
pub uninterp spec fn storage_id_index(id: Id<Entry>) -> usize;

/// `id_arena::Arena::new`: an arena with no entries.
#[verifier::external_body]
fn storage_arena_new() -> (r: Arena<Entry>)
    ensures
        storage_entries(r) == Seq::<Entry>::empty(),
{
    Arena::new()
}

/// `id_arena::Arena::len`: the number of entries allocated.
#[verifier::external_body]
fn storage_arena_len(arena: &Arena<Entry>) -> (r: usize)
    ensures
        r == storage_entries(*arena).len(),
{
    arena.len()
}

/// `id_arena::Arena::alloc`: pushes the entry and returns the id of its
/// position. It panics when the count would overflow, which the `requires`
/// leaves out.
#[verifier::external_body]
fn storage_arena_alloc(arena: &mut Arena<Entry>, entry: Entry) -> (r: Id<Entry>)
    requires
        storage_entries(*old(arena)).len() < usize::MAX,
    ensures
        storage_entries(*final(arena)) == storage_entries(*old(arena)).push(entry),
        storage_id_index(r) == storage_entries(*old(arena)).len(),
{
    arena.alloc(entry)
}

/// A `hashbrown::HashMap` from path keys to the ids of their entries.
#[verifier::external_body]
pub struct StoragePaths {
    map: hashbrown::HashMap<String, Id<Entry>>,
}

/// The pairs that a path map holds.
pub uninterp spec fn storage_paths(paths: StoragePaths) -> Map<Seq<char>, Id<Entry>>;

/// `hashbrown::HashMap::new`: an empty map.
#[verifier::external_body]
fn storage_paths_new() -> (r: StoragePaths)
    ensures
        storage_paths(r).dom() == Set::<Seq<char>>::empty(),
{
    StoragePaths { map: hashbrown::HashMap::new() }
}

/// `hashbrown::HashMap::insert`: maps the path to the id, replacing the id
/// it mapped to before, if any.
#[verifier::external_body]
fn storage_paths_insert(paths: &mut StoragePaths, path: String, id: Id<Entry>)
    ensures
        storage_paths(*final(paths)) == storage_paths(*old(paths)).insert(path@, id),
{
    paths.map.insert(path, id);
}

/// The entries of the files below a directory, and for each path the id of
/// its latest entry.
pub struct Storage {
    arena: Arena<Entry>,
    paths: StoragePaths,
}

impl Storage {
    pub closed spec fn entries(&self) -> Seq<Entry> {
        storage_entries(self.arena)
    }

    pub closed spec fn paths(&self) -> Map<Seq<char>, Id<Entry>> {
        storage_paths(self.paths)
    }

    /// The number of entries.
    pub fn len(&self) -> (r: usize)
        ensures
            r == self.entries().len(),
    {
        storage_arena_len(&self.arena)
    }

    /// Adds the entry at the end, and maps the key of its path to it, so
    /// that paths with the same components share one key.
    pub fn insert(&mut self, entry: Entry)
        requires
            old(self).entries().len() < usize::MAX,
        ensures
            final(self).entries() == old(self).entries().push(entry),
            final(self).paths().dom() == old(self).paths().dom().insert(path_key(entry.path_view()@)),
            storage_id_index(final(self).paths()[path_key(entry.path_view()@)]) == old(self).entries().len(),
            forall|p: Seq<char>|
                p != path_key(entry.path_view()@) ==> #[trigger] final(self).paths().get(p) == old(
                    self,
                ).paths().get(p),
    {
        let path = key_of_path(entry.path());
        let id = storage_arena_alloc(&mut self.arena, entry);
        storage_paths_insert(&mut self.paths, path, id);
    }
}

impl Default for Storage {
    fn default() -> (r: Self)
        ensures
            r.entries() == Seq::<Entry>::empty(),
            r.paths().dom() == Set::<Seq<char>>::empty(),
    {
        Storage { arena: storage_arena_new(), paths: storage_paths_new() }
    }
}

} // verus!
