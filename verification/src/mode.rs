//! How the files below a directory are read into memory.
use vstd::prelude::*;

verus! {

/// How the files below a directory are read: walked and each read, only
/// walked, or not at all.
#[derive(Debug, Copy, Clone, PartialEq, Eq)]
pub enum Mode {
    WalkAndRead,
    Walk,
    Noop,
}

} // verus!
