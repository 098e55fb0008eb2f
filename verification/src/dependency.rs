//! Collecting nodes by their absolute paths, so that the dependencies a
//! document lists can be resolved to the nodes they name.
use vstd::prelude::*;
use crate::error::Error;
use crate::node::kind::text_is;
use crate::node::{NodeData, NodePath};
use crate::node::path::{is_canonical, path_parent};

verus! {

/// The index of the entry whose absolute path is `abs`, if any.
pub open spec fn index_of(entries: Seq<(NodePath, i64, NodeData)>, abs: Seq<char>) -> Option<int>
    decreases entries.len(),
{
    if entries.len() == 0 {
        None
    } else {
        match index_of(entries.drop_last(), abs) {
            Some(i) => Some(i),
            None => if entries.last().0@.abs == abs {
                Some(entries.len() - 1)
            } else {
                None
            },
        }
    }
}

/// The entries after `collect`: an entry already under the path keeps its
/// path and takes the new id and data; else the node is added at the end.
pub open spec fn collected(
    entries: Seq<(NodePath, i64, NodeData)>,
    path: NodePath,
    id: i64,
    data: NodeData,
) -> Seq<(NodePath, i64, NodeData)> {
    match index_of(entries, path@.abs) {
        Some(i) => entries.update(i, (entries[i].0, id, data)),
        None => entries.push((path, id, data)),
    }
}

/// The id of the entry under `abs`, if any.
pub open spec fn entry_id(entries: Seq<(NodePath, i64, NodeData)>, abs: Seq<char>) -> Option<i64> {
    match index_of(entries, abs) {
        Some(i) => Some(entries[i].1),
        None => None,
    }
}

/// No two entries share an absolute path.
pub open spec fn unique_paths(entries: Seq<(NodePath, i64, NodeData)>) -> bool {
    forall|i: int, j: int|
        0 <= i < j < entries.len() ==> #[trigger] entries[i].0@.abs != #[trigger] entries[j].0@.abs
}

/// The nodes collected so far, each under its absolute path, with the id it
/// was stored under and what it holds.
#[derive(Debug)]
pub struct Collector {
    root: String,
    entries: Vec<(NodePath, i64, NodeData)>,
}

impl Collector {
    pub closed spec fn root_view(&self) -> Seq<char> {
        self.root@
    }

    pub closed spec fn entries_view(&self) -> Seq<(NodePath, i64, NodeData)> {
        self.entries@
    }

    /// The invariant: no two entries share an absolute path.
    pub open spec fn wf(&self) -> bool {
        unique_paths(self.entries_view())
    }

    /// The id stored for the absolute path `abs`, if any.
    pub open spec fn id_of(&self, abs: Seq<char>) -> Option<i64> {
        entry_id(self.entries_view(), abs)
    }

    /// A collector for the nodes below `root`, with none collected.
    pub fn new(root: &str) -> (r: Self)
        ensures
            r.wf(),
            r.root_view() == root@,
            r.entries_view() == Seq::<(NodePath, i64, NodeData)>::empty(),
    {
        Collector { root: root.to_owned(), entries: Vec::new() }
    }

    /// The index of the entry under `abs`, if any.
    fn find(&self, abs: &str) -> (r: Option<usize>)
        ensures
            r matches Some(j) ==> index_of(self.entries_view(), abs@) == Some(j as int),
            r is None ==> index_of(self.entries_view(), abs@) is None,
            r matches Some(i) ==> i < self.entries_view().len() && self.entries_view()[i as int].0@.abs
                == abs@,
    {
        let mut i: usize = 0;
        while i < self.entries.len()
            invariant
                i <= self.entries@.len(),
                index_of(self.entries@.take(i as int), abs@) is None,
            decreases self.entries@.len() - i,
        {
            assert(self.entries@.take(i + 1).drop_last() == self.entries@.take(i as int));
            if text_is(self.entries[i].0.abs().as_str(), abs) {
                proof {
                    lemma_index_of_prefix(self.entries@, i + 1, abs@);
                    lemma_index_of_found(self.entries@, abs@);
                }
                return Some(i);
            }
            i = i + 1;
        }
        assert(self.entries@.take(self.entries@.len() as int) == self.entries@);
        None
    }

    /// Records node `id` at `path` holding `data`. Where a node is already
    /// recorded under the same absolute path, its id and data are replaced
    /// and its path is kept; else the node is added at the end.
    pub fn collect(&mut self, id: i64, path: NodePath, data: NodeData)
        requires
            old(self).wf(),
        ensures
            final(self).wf(),
            final(self).root_view() == old(self).root_view(),
            final(self).entries_view() == collected(old(self).entries_view(), path, id, data),
    {
        match self.find(path.abs().as_str()) {
            Some(i) => {
                proof {
                    lemma_index_of_found(self.entries@, path@.abs);
                }
                let (kept, _, _) = self.entries.remove(i);
                self.entries.insert(i, (kept, id, data));
            },
            None => {
                proof {
                    lemma_index_of_absent(self.entries@, path@.abs);
                }
                self.entries.push((path, id, data));
            },
        }
    }

    /// The id recorded under the absolute path `abs`, if any.
    pub fn lookup(&self, abs: &str) -> (r: Option<i64>)
        ensures
            r == self.id_of(abs@),
    {
        proof {
            lemma_index_of_found(self.entries@, abs@);
        }
        match self.find(abs) {
            Some(i) => Some(self.entries[i].1),
            None => None,
        }
    }

    /// The entries, in the order they were first recorded.
    pub fn entries(&self) -> (r: &Vec<(NodePath, i64, NodeData)>)
        ensures
            r@ == self.entries_view(),
    {
        &self.entries
    }

    /// What resolving dependency `dep` of the node at `path` gives, where
    /// resolving its path gave `dep_path`: the error of that, the id
    /// recorded under the resolved path, or else an error naming the
    /// dependency's relative path and the node's.
    pub open spec fn resolves_to(&self, path: NodePath, dep_path: Result<NodePath, Error>, r: Result<i64, Error>) -> bool {
        match dep_path {
            Err(e) => r == Err::<i64, Error>(e),
            Ok(p) => match self.id_of(p@.abs) {
                Some(id) => r == Ok::<i64, Error>(id),
                None => r matches Err(Error::UnknownDep { dep: d, from }) && d@ == p@.rel && from@
                    == path@.rel,
            },
        }
    }

    /// The id of the node that dependency `dep` of the node at `path` names,
    /// once the file system has resolved the dependency to `resolved`.
    pub fn resolve_at(&self, path: &NodePath, dep: &str, resolved: Option<String>) -> (r: Result<
        i64,
        Error,
    >)
        ensures
            exists|dep_path: Result<NodePath, Error>|
                #![trigger self.resolves_to(*path, dep_path, r)]
                {
                    &&& path.dependency_is(
                        self.root_view(),
                        dep@,
                        match resolved {
                            Some(s) => Some(s@),
                            None => None,
                        },
                        dep_path,
                    )
                    &&& self.resolves_to(*path, dep_path, r)
                },
    {
        let dep_path = path.dependency_at(self.root.as_str(), dep, resolved);
        let ghost resolved_path = dep_path;
        let r = match dep_path {
            Err(e) => Err(e),
            Ok(p) => match self.lookup(p.abs().as_str()) {
                Some(id) => Ok(id),
                None => Err(
                    Error::UnknownDep {
                        dep: p.rel().as_str().to_owned(),
                        from: path.rel().as_str().to_owned(),
                    },
                ),
            },
        };
        assert(self.resolves_to(*path, resolved_path, r));
        r
    }

    /// What `resolve` gives for dependency `dep` of the node at `path`: an
    /// error where the node's path has no directory; else what looking up
    /// some resolution of `dependency_target` gives.
    pub open spec fn resolve_gives(&self, path: NodePath, dep: Seq<char>, r: Result<i64, Error>) -> bool {
        if path_parent(path@.abs) is None {
            r matches Err(Error::NoParent { path: p }) && p@ == path@.rel
        } else {
            exists|dep_path: Result<NodePath, Error>|
                #![trigger self.resolves_to(path, dep_path, r)]
                {
                    &&& exists|resolved: Option<Seq<char>>|
                        #![trigger path.dependency_is(self.root_view(), dep, resolved, dep_path)]
                        {
                            &&& resolved matches Some(s) ==> is_canonical(s)
                            &&& path.dependency_is(self.root_view(), dep, resolved, dep_path)
                        }
                    &&& self.resolves_to(path, dep_path, r)
                }
        }
    }

    /// The dependency records of the collected nodes: for each entry in
    /// order, and each dependency it lists in order, the entry's id and the
    /// id its dependency resolves to, up to the first dependency that fails
    /// to resolve, whose error comes second.
    pub fn dependency_records(&self) -> (r: (Vec<(i64, i64)>, Option<Error>))
        ensures
            r.0@.len() <= dep_list(self.entries_view()).len(),
            forall|k: int|
                0 <= k < r.0@.len() ==> {
                    let (e, d) = #[trigger] dep_list(self.entries_view())[k];
                    &&& r.0@[k].0 == self.entries_view()[e].1
                    &&& self.resolve_gives(self.entries_view()[e].0, d, Ok(r.0@[k].1))
                },
            r.1 is None ==> r.0@.len() == dep_list(self.entries_view()).len(),
            r.1 matches Some(err) ==> {
                let (e, d) = dep_list(self.entries_view())[r.0@.len() as int];
                &&& r.0@.len() < dep_list(self.entries_view()).len()
                &&& self.resolve_gives(self.entries_view()[e].0, d, Err(err))
            },
    {
        let ghost entries = self.entries@;
        let ghost full = dep_list(entries);
        let mut out: Vec<(i64, i64)> = Vec::new();
        let mut i: usize = 0;
        proof {
            lemma_dep_list_prefix(entries, 0);
            assert(entries.take(0) =~= Seq::<(NodePath, i64, NodeData)>::empty());
        }
        while i < self.entries.len()
            invariant
                i <= entries.len(),
                entries == self.entries@,
                full == dep_list(entries),
                out@.len() == dep_list(entries.take(i as int)).len(),
                out@.len() <= full.len(),
                forall|k: int|
                    0 <= k < out@.len() ==> {
                        let (e, d) = #[trigger] full[k];
                        &&& out@[k].0 == entries[e].1
                        &&& self.resolve_gives(entries[e].0, d, Ok(out@[k].1))
                    },
            decreases entries.len() - i,
        {
            proof {
                lemma_dep_list_step(entries, i as int);
                lemma_dep_list_prefix(entries, i as int + 1);
            }
            let ghost base = out@.len();
            let entry = &self.entries[i];
            match entry.2.deps() {
                Some(deps) => {
                    let mut j: usize = 0;
                    while j < deps.len()
                        invariant
                            i < entries.len(),
                            entry == entries[i as int],
                            entries == self.entries@,
                            full == dep_list(entries),
                            entry.2.deps_view() == Some(crate::document::texts(deps@)),
                            dep_list(entries.take(i + 1)) == dep_list(entries.take(i as int))
                                + dep_extra(entries, i as int),
                            base == dep_list(entries.take(i as int)).len(),
                            dep_list(entries.take(i + 1)).len() <= full.len(),
                            forall|k: int|
                                0 <= k < dep_list(entries.take(i + 1)).len() ==> #[trigger] dep_list(
                                    entries.take(i + 1),
                                )[k] == full[k],
                            j <= deps@.len(),
                            out@.len() == base + j,
                            forall|k: int|
                                0 <= k < out@.len() ==> {
                                    let (e, d) = #[trigger] full[k];
                                    &&& out@[k].0 == entries[e].1
                                    &&& self.resolve_gives(entries[e].0, d, Ok(out@[k].1))
                                },
                        decreases deps@.len() - j,
                    {
                        let ghost k = base + j;
                        assert(dep_list(entries.take(i + 1))[k] == (i as int, deps@[j as int]@));
                        assert(full[k] == (i as int, deps@[j as int]@));
                        match self.resolve(&entry.0, deps[j].as_str()) {
                            Ok(dep_id) => {
                                out.push((entry.1, dep_id));
                            },
                            Err(err) => {
                                return (out, Some(err));
                            },
                        }
                        j = j + 1;
                    }
                },
                None => {
                    assert(dep_extra(entries, i as int) =~= Seq::<(int, Seq<char>)>::empty());
                    assert(dep_list(entries.take(i + 1)) =~= dep_list(entries.take(i as int)));
                },
            }
            i = i + 1;
        }
        assert(entries.take(entries.len() as int) == entries);
        (out, None)
    }

    /// The id of the node that dependency `dep` of the node at `path` names:
    /// an error where the node's path has no directory; else `dep` is
    /// resolved as `NodePath::dependency` does and looked up.
    pub fn resolve(&self, path: &NodePath, dep: &str) -> (r: Result<i64, Error>)
        ensures
            self.resolve_gives(*path, dep@, r),
    {
        if !has_parent(path.abs().as_str()) {
            return Err(Error::NoParent { path: path.rel().as_str().to_owned() });
        }
        let root = self.root.as_str();
        let dep_path = path.dependency(root, dep);
        let ghost resolved_path = dep_path;
        assert(root@ == self.root_view());
        let r = match dep_path {
            Err(e) => Err(e),
            Ok(p) => match self.lookup(p.abs().as_str()) {
                Some(id) => Ok(id),
                None => Err(
                    Error::UnknownDep {
                        dep: p.rel().as_str().to_owned(),
                        from: path.rel().as_str().to_owned(),
                    },
                ),
            },
        };
        assert(exists|resolved: Option<Seq<char>>|
            path.dependency_is(self.root_view(), dep@, resolved, resolved_path));
        assert(self.resolves_to(*path, resolved_path, r));
        r
    }
}

/// The dependencies that entry `i` lists, each with the entry's index.
pub open spec fn dep_extra(entries: Seq<(NodePath, i64, NodeData)>, i: int) -> Seq<(int, Seq<char>)> {
    match entries[i].2.deps_view() {
        Some(ds) => ds.map_values(|d: Seq<char>| (i, d)),
        None => Seq::empty(),
    }
}

/// Every dependency that the entries list, in entry order and then in the
/// order each entry lists them, with the index of the entry that lists it.
pub open spec fn dep_list(entries: Seq<(NodePath, i64, NodeData)>) -> Seq<(int, Seq<char>)>
    decreases entries.len(),
{
    if entries.len() == 0 {
        Seq::empty()
    } else {
        dep_list(entries.drop_last()) + dep_extra(entries, entries.len() - 1)
    }
}

/// Taking one more entry adds that entry's dependencies at the end.
pub proof fn lemma_dep_list_step(entries: Seq<(NodePath, i64, NodeData)>, i: int)
    requires
        0 <= i < entries.len(),
    ensures
        dep_list(entries.take(i + 1)) == dep_list(entries.take(i)) + dep_extra(entries, i),
{
    let t = entries.take(i + 1);
    assert(t.drop_last() =~= entries.take(i));
    assert(dep_extra(t, i) =~= dep_extra(entries, i));
}

/// The dependencies of a prefix of the entries come first among those of
/// all the entries.
pub proof fn lemma_dep_list_prefix(entries: Seq<(NodePath, i64, NodeData)>, n: int)
    requires
        0 <= n <= entries.len(),
    ensures
        dep_list(entries.take(n)).len() <= dep_list(entries).len(),
        forall|k: int|
            0 <= k < dep_list(entries.take(n)).len() ==> #[trigger] dep_list(entries.take(n))[k]
                == dep_list(entries)[k],
    decreases entries.len(),
{
    if n < entries.len() {
        let s = entries.drop_last();
        assert(s.take(n) =~= entries.take(n));
        lemma_dep_list_prefix(s, n);
        assert(entries.drop_last() == s);
    } else {
        assert(entries.take(n) =~= entries);
    }
}

/// The dependencies an entry lists, none where it lists none.
pub open spec fn listed_deps(entry: (NodePath, i64, NodeData)) -> Seq<Seq<char>> {
    match entry.2.deps_view() {
        Some(ds) => ds,
        None => Seq::empty(),
    }
}

/// How many dependencies the first `n` entries list together.
pub open spec fn deps_before(entries: Seq<(NodePath, i64, NodeData)>, n: int) -> int
    decreases n,
{
    if n <= 0 {
        0
    } else {
        deps_before(entries, n - 1) + listed_deps(entries[n - 1]).len()
    }
}

/// The count of earlier entries' dependencies only grows.
proof fn lemma_deps_before_mono(entries: Seq<(NodePath, i64, NodeData)>, i: int, k: int)
    requires
        0 <= i <= k,
    ensures
        deps_before(entries, i) <= deps_before(entries, k),
    decreases k,
{
    if k > i {
        lemma_deps_before_mono(entries, i, k - 1);
    }
}

/// Dropping the last entry leaves the counts of the earlier ones as they were.
proof fn lemma_deps_before_prefix(entries: Seq<(NodePath, i64, NodeData)>, i: int)
    requires
        0 <= i < entries.len(),
    ensures
        deps_before(entries.drop_last(), i) == deps_before(entries, i),
    decreases i,
{
    if i > 0 {
        lemma_deps_before_prefix(entries, i - 1);
        assert(entries.drop_last()[i - 1] == entries[i - 1]);
    }
}

/// Every dependency of every entry is listed for recording, once, in
/// order: as many as the entries list together, and dependency `j` of
/// entry `i` comes after all those of the entries before `i`, paired with
/// `i`.
pub proof fn lemma_dep_list_complete(entries: Seq<(NodePath, i64, NodeData)>)
    ensures
        dep_list(entries).len() == deps_before(entries, entries.len() as int),
        forall|i: int, j: int|
            0 <= i < entries.len() && 0 <= j < listed_deps(entries[i]).len() ==> dep_list(entries)[deps_before(
                entries,
                i,
            ) + j] == (i, #[trigger] listed_deps(entries[i])[j]),
    decreases entries.len(),
{
    if entries.len() > 0 {
        let n = entries.len() as int;
        let e = entries.drop_last();
        lemma_dep_list_complete(e);
        lemma_deps_before_prefix(entries, n - 1);
        let extra = dep_extra(entries, n - 1);
        assert(extra.len() == listed_deps(entries[n - 1]).len());
        assert(dep_list(entries) == dep_list(e) + extra);
        assert forall|i: int, j: int|
            0 <= i < n && 0 <= j < listed_deps(entries[i]).len() implies dep_list(entries)[deps_before(
                entries,
                i,
            ) + j] == (i, #[trigger] listed_deps(entries[i])[j]) by {
            if i < n - 1 {
                lemma_deps_before_prefix(entries, i);
                lemma_deps_before_prefix(entries, i + 1);
                lemma_deps_before_mono(e, i + 1, n - 1);
                assert(e[i] == entries[i]);
                assert(deps_before(e, i + 1) == deps_before(e, i) + listed_deps(e[i]).len());
                assert(dep_list(e)[deps_before(e, i) + j] == (i, listed_deps(e[i])[j]));
                assert(e.len() == n - 1);
                assert(dep_list(e).len() == deps_before(e, n - 1));
                assert(deps_before(e, i) + j < dep_list(e).len());
                lemma_deps_before_mono(e, 0, i);
                assert((dep_list(e) + extra)[deps_before(e, i) + j] == dep_list(e)[deps_before(e, i) + j]);
            } else {
                assert(extra[j] == (i, listed_deps(entries[i])[j]));
                assert((dep_list(e) + extra)[dep_list(e).len() + j] == extra[j]);
            }
        }
    }
}

/// Whether the path has a parent directory.
fn has_parent(path: &str) -> (r: bool)
    ensures
        r == (path_parent(path@) is Some),
{
    crate::node::path::parent(path).is_some()
}

/// The entry under `abs` is the only one under it: where the paths are
/// unique, `index_of` finds exactly the index whose path is `abs`.
pub proof fn lemma_index_of_unique(entries: Seq<(NodePath, i64, NodeData)>, abs: Seq<char>, k: int)
    requires
        unique_paths(entries),
        0 <= k < entries.len(),
        entries[k].0@.abs == abs,
    ensures
        index_of(entries, abs) == Some(k),
    decreases entries.len(),
{
    if k < entries.len() - 1 {
        assert(unique_paths(entries.drop_last())) by {
            assert forall|i: int, j: int| 0 <= i < j < entries.drop_last().len() implies #[trigger] entries.drop_last()[i].0@.abs != #[trigger] entries.drop_last()[j].0@.abs by {
                assert(entries.drop_last()[i] == entries[i]);
                assert(entries.drop_last()[j] == entries[j]);
            }
        }
        assert(entries.drop_last()[k] == entries[k]);
        lemma_index_of_unique(entries.drop_last(), abs, k);
    } else {
        lemma_index_of_absent(entries.drop_last(), abs);
        if index_of(entries.drop_last(), abs) is Some {
            lemma_index_of_found(entries.drop_last(), abs);
            let i = index_of(entries.drop_last(), abs)->0;
            assert(entries.drop_last()[i] == entries[i]);
        }
    }
}

/// What `collect` records is what `lookup` finds: after collecting node
/// `id` at `path`, the id under its absolute path is `id`, and the id under
/// every other absolute path is as before; the paths stay unique.
pub proof fn lemma_collect_then_lookup(
    entries: Seq<(NodePath, i64, NodeData)>,
    path: NodePath,
    id: i64,
    data: NodeData,
    other: Seq<char>,
)
    requires
        unique_paths(entries),
    ensures
        unique_paths(collected(entries, path, id, data)),
        entry_id(collected(entries, path, id, data), path@.abs) == Some(id),
        other != path@.abs ==> entry_id(collected(entries, path, id, data), other) == entry_id(
            entries,
            other,
        ),
{
    let e2 = collected(entries, path, id, data);
    lemma_index_of_found(entries, path@.abs);
    lemma_index_of_absent(entries, path@.abs);
    match index_of(entries, path@.abs) {
        Some(i) => {
            assert(e2[i].0@.abs == path@.abs);
            assert(unique_paths(e2)) by {
                assert forall|a: int, b: int| 0 <= a < b < e2.len() implies #[trigger] e2[a].0@.abs
                    != #[trigger] e2[b].0@.abs by {
                    assert(e2[a].0 == entries[a].0);
                    assert(e2[b].0 == entries[b].0);
                }
            }
            lemma_index_of_unique(e2, path@.abs, i);
            lemma_index_of_found(entries, other);
            lemma_index_of_absent(entries, other);
            match index_of(entries, other) {
                Some(j) => {
                    assert(e2[j].0 == entries[j].0);
                    lemma_index_of_unique(e2, other, j);
                },
                None => {
                    lemma_index_of_found(e2, other);
                    if index_of(e2, other) is Some {
                        let j = index_of(e2, other)->0;
                        assert(e2[j].0 == entries[j].0);
                    }
                },
            }
        },
        None => {
            assert(unique_paths(e2)) by {
                assert forall|a: int, b: int| 0 <= a < b < e2.len() implies #[trigger] e2[a].0@.abs
                    != #[trigger] e2[b].0@.abs by {
                    if b == entries.len() {
                        assert(e2[a] == entries[a]);
                    } else {
                        assert(e2[a] == entries[a]);
                        assert(e2[b] == entries[b]);
                    }
                }
            }
            lemma_index_of_unique(e2, path@.abs, entries.len() as int);
            lemma_index_of_found(entries, other);
            lemma_index_of_absent(entries, other);
            match index_of(entries, other) {
                Some(j) => {
                    assert(e2[j] == entries[j]);
                    lemma_index_of_unique(e2, other, j);
                },
                None => {
                    lemma_index_of_found(e2, other);
                    if index_of(e2, other) is Some {
                        let j = index_of(e2, other)->0;
                        if j < entries.len() {
                            assert(e2[j] == entries[j]);
                        }
                    }
                },
            }
        },
    }
}

/// Where a prefix holds an entry under `abs`, it is the first such entry of
/// the whole sequence.
pub proof fn lemma_index_of_prefix(entries: Seq<(NodePath, i64, NodeData)>, n: int, abs: Seq<char>)
    requires
        0 <= n <= entries.len(),
        index_of(entries.take(n), abs) is Some,
    ensures
        index_of(entries, abs) == index_of(entries.take(n), abs),
    decreases entries.len(),
{
    if n < entries.len() {
        assert(entries.drop_last().take(n) == entries.take(n));
        lemma_index_of_prefix(entries.drop_last(), n, abs);
    } else {
        assert(entries.take(n) == entries);
    }
}

/// `index_of` finds an entry under the path it was asked for.
pub proof fn lemma_index_of_found(entries: Seq<(NodePath, i64, NodeData)>, abs: Seq<char>)
    ensures
        index_of(entries, abs) matches Some(i) ==> 0 <= i < entries.len() && entries[i].0@.abs
            == abs,
    decreases entries.len(),
{
    if entries.len() > 0 {
        lemma_index_of_found(entries.drop_last(), abs);
    }
}

/// Where `index_of` finds nothing, no entry is under the path.
pub proof fn lemma_index_of_absent(entries: Seq<(NodePath, i64, NodeData)>, abs: Seq<char>)
    ensures
        index_of(entries, abs) is None ==> forall|i: int|
            0 <= i < entries.len() ==> #[trigger] entries[i].0@.abs != abs,
    decreases entries.len(),
{
    if entries.len() > 0 {
        lemma_index_of_absent(entries.drop_last(), abs);
        if index_of(entries, abs) is None {
            assert forall|i: int| 0 <= i < entries.len() implies #[trigger] entries[i].0@.abs
                != abs by {
                if i < entries.len() - 1 {
                    assert(entries[i] == entries.drop_last()[i]);
                }
            }
        }
    }
}

} // verus!
