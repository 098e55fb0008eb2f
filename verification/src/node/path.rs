//! The path of a node: where it lies relative to the root directory, and
//! where it lies on disk.
use vstd::prelude::*;
use camino::Utf8Path;
use crate::db::DbNodePath;
use crate::error::Error;

verus! {

/// What `Utf8Path::strip_prefix` returns: the path that, joined onto the
/// base, gives the path, where the base is a prefix of it by whole
/// components.
pub uninterp spec fn path_strip_prefix(path: Seq<char>, base: Seq<char>) -> Option<Seq<char>>;

/// What `Utf8Path::join` returns, as `PathBuf::push` documents it on Unix:
/// an absolute `path` replaces `base`; otherwise `path` is appended to
/// `base`, after a `/` where `base` is not empty and does not end in one.
pub open spec fn path_join(base: Seq<char>, path: Seq<char>) -> Seq<char> {
    if path.len() > 0 && path[0] == '/' {
        path
    } else if base.len() > 0 && base.last() != '/' {
        base + seq!['/'] + path
    } else {
        base + path
    }
}

/// What `Utf8Path::parent` returns: the path without its final component,
/// if there is one.
pub uninterp spec fn path_parent(path: Seq<char>) -> Option<Seq<char>>;

/// What `Utf8Path::extension` returns: the part of the file name after its
/// final `.`, if any.
pub uninterp spec fn path_extension(path: Seq<char>) -> Option<Seq<char>>;

/// `Utf8Path::strip_prefix`, by the text of the result.
#[verifier::external_body]
pub(crate) fn strip_prefix(path: &str, base: &str) -> (r: Option<String>)
    ensures
        r matches Some(s) ==> path_strip_prefix(path@, base@) == Some(s@),
        r is None ==> path_strip_prefix(path@, base@) is None,
{
    match Utf8Path::new(path).strip_prefix(base) {
        Ok(rel) => Some(rel.as_str().to_owned()),
        Err(_) => None,
    }
}

/// `Utf8Path::join`, by the text of the result: std `Path::join`, which is
/// `PathBuf::push` onto a copy of `base`.
#[verifier::external_body]
fn join(base: &str, path: &str) -> (r: String)
    ensures
        r@ == path_join(base@, path@),
{
    Utf8Path::new(base).join(path).into_string()
}

/// `Utf8Path::parent`, by the text of the result.
#[verifier::external_body]
pub(crate) fn parent(path: &str) -> (r: Option<&str>)
    ensures
        r matches Some(s) ==> path_parent(path@) == Some(s@),
        r is None ==> path_parent(path@) is None,
{
    match Utf8Path::new(path).parent() {
        Some(p) => Some(p.as_str()),
        None => None,
    }
}

/// `Utf8Path::extension`.
#[verifier::external_body]
pub(crate) fn extension(path: &str) -> (r: Option<&str>)
    ensures
        r matches Some(s) ==> path_extension(path@) == Some(s@),
        r is None ==> path_extension(path@) is None,
{
    Utf8Path::new(path).extension()
}

/// A path in the form `std::fs::canonicalize` documents for its result:
/// absolute, with no `.` or `..` component.
pub open spec fn is_canonical(p: Seq<char>) -> bool {
    &&& p.len() > 0
    &&& p[0] == '/'
    &&& forall|i: int|
        0 <= i < p.len() && (i == 0 || p[i - 1] == '/') && #[trigger] p[i] == '.' ==> {
            &&& !(i + 1 == p.len() || p[i + 1] == '/')
            &&& !(i + 1 < p.len() && p[i + 1] == '.' && (i + 2 == p.len() || p[i + 2] == '/'))
        }
}

/// `Utf8Path::canonicalize_utf8`, which is `std::fs::canonicalize`: the
/// path read from the file system with every link resolved. What holds of
/// every result is stated: it is absolute, with no `.` or `..` component;
/// which path it is depends on the disk. `None` where the file system
/// refused or the result is not UTF-8.
#[verifier::external_body]
fn canonicalize(path: &str) -> (r: Option<String>)
    ensures
        r matches Some(s) ==> is_canonical(s@),
{
    match Utf8Path::new(path).canonicalize_utf8() {
        Ok(p) => Some(p.into_string()),
        Err(_) => None,
    }
}

/// The root directory of the nodes.
#[derive(Debug, Clone)]
pub struct RootPath(String);

impl View for RootPath {
    type V = Seq<char>;

    closed spec fn view(&self) -> Seq<char> {
        self.0@
    }
}

impl RootPath {
    pub fn new(path: String) -> (r: Self)
        ensures
            r@ == path@,
    {
        RootPath(path)
    }

    pub fn as_str(&self) -> (r: &str)
        ensures
            r@ == self@,
    {
        self.0.as_str()
    }
}

/// A path relative to the root directory.
#[derive(Debug)]
pub struct NodePathRel(String);

/// An absolute path on disk.
#[derive(Debug)]
pub struct NodePathAbs(String);

impl View for NodePathRel {
    type V = Seq<char>;

    closed spec fn view(&self) -> Seq<char> {
        self.0@
    }
}

impl View for NodePathAbs {
    type V = Seq<char>;

    closed spec fn view(&self) -> Seq<char> {
        self.0@
    }
}

impl NodePathRel {
    pub fn as_str(&self) -> (r: &str)
        ensures
            r@ == self@,
    {
        self.0.as_str()
    }
}

impl NodePathAbs {
    pub fn as_str(&self) -> (r: &str)
        ensures
            r@ == self@,
    {
        self.0.as_str()
    }

    /// The extension of the file name.
    pub fn extension(&self) -> (r: Option<&str>)
        ensures
            r matches Some(s) ==> path_extension(self@) == Some(s@),
            r is None ==> path_extension(self@) is None,
    {
        extension(self.0.as_str())
    }
}

/// Where a node lies, relative to the root and on disk.
#[derive(Debug)]
pub struct NodePath {
    rel: NodePathRel,
    abs: NodePathAbs,
}

/// A path as values: relative to the root, and absolute.
pub struct NodePathView {
    pub rel: Seq<char>,
    pub abs: Seq<char>,
}

impl View for NodePath {
    type V = NodePathView;

    closed spec fn view(&self) -> NodePathView {
        NodePathView { rel: self.rel@, abs: self.abs@ }
    }
}

impl NodePath {
    /// The path of the file `abs` below the directory `root`; an error
    /// where `abs` does not lie below `root`.
    pub fn new(root: &str, abs: String) -> (r: Result<Self, Error>)
        ensures
            match path_strip_prefix(abs@, root@) {
                Some(rel) => r matches Ok(p) && p@.rel == rel && p@.abs == abs@,
                None => r matches Err(Error::NotInRoot { path, root: rt }) && path@ == abs@
                    && rt@ == root@,
            },
    {
        match strip_prefix(abs.as_str(), root) {
            Some(rel) => Ok(NodePath { rel: NodePathRel(rel), abs: NodePathAbs(abs) }),
            None => Err(Error::NotInRoot { path: abs, root: root.to_owned() }),
        }
    }

    /// The path of a stored node: the stored path relative to `root`, and
    /// `root` joined with it.
    pub fn revive(root: &str, path: DbNodePath) -> (r: Self)
        ensures
            r@.rel == path.0@,
            r@.abs == path_join(root@, path.0@),
    {
        let abs = join(root, path.0.as_str());
        NodePath { rel: NodePathRel(path.0), abs: NodePathAbs(abs) }
    }

    /// What resolving dependency `dep` of this node gives once the file
    /// system has resolved it to `resolved`: an error where it could not,
    /// else the path of the resolved file below `root`, or an error where it
    /// is not below `root`.
    pub open spec fn dependency_is(
        &self,
        root: Seq<char>,
        dep: Seq<char>,
        resolved: Option<Seq<char>>,
        r: Result<NodePath, Error>,
    ) -> bool {
        match resolved {
            None => r matches Err(Error::Canonicalize { dep: d, from }) && d@ == dep && from@
                == self@.rel,
            Some(abs) => match path_strip_prefix(abs, root) {
                Some(rel) => r matches Ok(p) && p@.rel == rel && p@.abs == abs,
                None => r matches Err(Error::NotInRoot { path, root: rt }) && path@ == abs && rt@
                    == root,
            },
        }
    }

    /// The path of dependency `dep` of this node, taken relative to the
    /// node's directory, once the file system has resolved it to
    /// `resolved`.
    pub fn dependency_at(&self, root: &str, dep: &str, resolved: Option<String>) -> (r: Result<Self, Error>)
        ensures
            self.dependency_is(
                root@,
                dep@,
                match resolved {
                    Some(s) => Some(s@),
                    None => None,
                },
                r,
            ),
    {
        match resolved {
            None => Err(Error::Canonicalize { dep: dep.to_owned(), from: self.rel.0.clone() }),
            Some(abs) => Self::new(root, abs),
        }
    }

    /// Where dependency `dep` of this node points before the file system
    /// resolves it: `dep` joined onto the node's directory.
    pub fn dependency_target(&self, dep: &str) -> (r: String)
        requires
            path_parent(self@.abs) is Some,
        ensures
            r@ == path_join(path_parent(self@.abs)->0, dep@),
    {
        let dir = match parent(self.abs.0.as_str()) {
            Some(dir) => dir,
            None => {
                assert(false);
                ""
            },
        };
        join(dir, dep)
    }

    /// The path of dependency `dep` of this node: `dependency_target`
    /// resolved on disk, and placed below `root` as `dependency_at` says.
    /// The node's path must have a directory.
    pub fn dependency(&self, root: &str, dep: &str) -> (r: Result<Self, Error>)
        requires
            path_parent(self@.abs) is Some,
        ensures
            exists|resolved: Option<Seq<char>>|
                #![trigger self.dependency_is(root@, dep@, resolved, r)]
                {
                    &&& resolved matches Some(s) ==> is_canonical(s)
                    &&& self.dependency_is(root@, dep@, resolved, r)
                },
    {
        let target = self.dependency_target(dep);
        let resolved = canonicalize(target.as_str());
        let r = self.dependency_at(root, dep, resolved);
        assert(self.dependency_is(
            root@,
            dep@,
            match resolved {
                Some(s) => Some(s@),
                None => None,
            },
            r,
        ));
        r
    }

    pub fn rel(&self) -> (r: &NodePathRel)
        ensures
            r@ == self@.rel,
    {
        &self.rel
    }

    pub fn abs(&self) -> (r: &NodePathAbs)
        ensures
            r@ == self@.abs,
    {
        &self.abs
    }
}

} // verus!
