//! The guard of a download attempt's temporary file: until committed, the
//! file is to be removed when the guard goes away.
use vstd::prelude::*;

verus! {

/// Records that the temporary file at `path` is not yet committed.
pub struct TempFileGuard {
    path: String,
    committed: bool,
}

impl TempFileGuard {
    pub closed spec fn path_view(&self) -> Seq<char> {
        self.path@
    }

    pub closed spec fn is_committed_view(&self) -> bool {
        self.committed
    }

    /// A guard for the temporary file at `path`, not committed.
    pub fn new(path: &str) -> (r: TempFileGuard)
        ensures
            r.path_view() == path@,
            !r.is_committed_view(),
    {
        TempFileGuard { path: String::from_str(path), committed: false }
    }

    /// Marks the file as committed: it has been moved to its final place, or
    /// nothing is left to remove, and must not be removed.
    pub fn commit(&mut self)
        ensures
            final(self).path_view() == old(self).path_view(),
            final(self).is_committed_view(),
    {
        self.committed = true;
    }

    /// The guarded path.
    pub fn path(&self) -> (r: &str)
        ensures
            r@ == self.path_view(),
    {
        self.path.as_str()
    }

    /// Whether the file has been committed.
    pub fn is_committed(&self) -> (r: bool)
        ensures
            r == self.is_committed_view(),
    {
        self.committed
    }

    /// The path to remove when the guard goes away: the guarded path unless
    /// the file was committed.
    pub fn cleanup_path(&self) -> (r: Option<String>)
        ensures
            r is Some <==> !self.is_committed_view(),
            r matches Some(p) ==> p@ == self.path_view(),
    {
        if self.committed {
            None
        } else {
            Some(self.path.clone())
        }
    }
}

} // verus!
