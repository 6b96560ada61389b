//! The session-local inode table.
//!
//! The kernel protocol names filesystem objects by integer inodes; the tree
//! names them by paths. This table is the bidirectional, lazily populated
//! map between the two: one inode per distinct path, numbers handed out
//! sequentially starting at the reserved root number 1, never reused and
//! never invalidated within a session.

use vstd::prelude::*;

use crate::errors::FsError;

verus! {

/// One table entry: an inode number and the path it stands for.
#[derive(Debug)]
pub struct Inode {
    pub path_segments: Vec<String>,
    pub ino: u64,
}

impl Inode {
    pub fn new(ino: u64, path_segments: Vec<String>) -> (inode: Inode)
        ensures
            inode.ino == ino,
            inode.path_segments == path_segments,
    {
        Inode { path_segments, ino }
    }
}

/// The index of the first occurrence of `p` in `paths`, or `-1`.
pub open spec fn spec_find_path(paths: Seq<Seq<Seq<char>>>, p: Seq<Seq<char>>) -> int
    decreases paths.len(),
{
    if paths.len() == 0 {
        -1
    } else if paths[0] == p {
        0
    } else {
        let r = spec_find_path(paths.drop_first(), p);
        if r < 0 {
            -1
        } else {
            r + 1
        }
    }
}

/// What assigning `p` does to a table holding `paths`: an existing path
/// keeps its number; a new path is appended and numbered one past the end.
/// Returns the new path list and the assigned number.
pub open spec fn spec_assign(paths: Seq<Seq<Seq<char>>>, p: Seq<Seq<char>>) -> (
    Seq<Seq<Seq<char>>>,
    int,
) {
    let i = spec_find_path(paths, p);
    if i >= 0 {
        (paths, i + 1)
    } else {
        (paths.push(p), paths.len() as int + 1)
    }
}

/// A found index is in range and holds the path searched for.
pub proof fn lemma_find_valid(paths: Seq<Seq<Seq<char>>>, p: Seq<Seq<char>>)
    requires
        spec_find_path(paths, p) >= 0,
    ensures
        0 <= spec_find_path(paths, p) < paths.len(),
        paths[spec_find_path(paths, p)] == p,
    decreases paths.len(),
{
    if paths.len() != 0 && paths[0] != p {
        lemma_find_valid(paths.drop_first(), p);
    }
}

/// The find is the first match: a match at `i` with no earlier match is
/// found exactly at `i`.
pub proof fn lemma_find_first(paths: Seq<Seq<Seq<char>>>, p: Seq<Seq<char>>, i: int)
    requires
        0 <= i < paths.len(),
        paths[i] == p,
        forall|k: int| 0 <= k < i ==> paths[k] != p,
    ensures
        spec_find_path(paths, p) == i,
    decreases paths.len(),
{
    if i > 0 {
        lemma_find_first(paths.drop_first(), p, i - 1);
    }
}

/// A failed find means no entry holds the path.
pub proof fn lemma_find_complete(paths: Seq<Seq<Seq<char>>>, p: Seq<Seq<char>>)
    requires
        spec_find_path(paths, p) == -1,
    ensures
        forall|k: int| 0 <= k < paths.len() ==> paths[k] != p,
    decreases paths.len(),
{
    if paths.len() != 0 {
        lemma_find_complete(paths.drop_first(), p);
        assert forall|k: int| 0 <= k < paths.len() implies paths[k] != p by {
            if k > 0 {
                assert(paths.drop_first()[k - 1] == paths[k]);
            }
        }
    }
}

/// Inode index for a filesystem.
///
/// This is a partial view of the filesystem and holds only the paths that
/// have been traversed in the current session. Entry `i` carries inode
/// number `i + 1`; the root path is registered first and so receives the
/// reserved root number.
#[derive(Debug)]
pub struct Inodes {
    entries: Vec<Inode>,
}

impl Default for Inodes {
    fn default() -> (r: Inodes)
        ensures
            r.wf(),
            r.paths() == Seq::<Seq<Seq<char>>>::empty(),
    {
        Inodes { entries: Vec::new() }
    }
}

impl Inodes {
    /// The paths this table has numbered, in assignment order: the path of
    /// inode `i` stands at position `i - 1`.
    pub closed spec fn paths(&self) -> Seq<Seq<Seq<char>>> {
        self.entries@.map_values(|e: Inode| e.path_segments.deep_view())
    }

    /// The table's invariant: one entry per distinct path, and entry `i`
    /// carries inode number `i + 1`.
    pub closed spec fn wf(&self) -> bool {
        &&& forall|i: int, j: int|
            0 <= i < j < self.paths().len() ==> self.paths()[i] != self.paths()[j]
        &&& forall|i: int| 0 <= i < self.entries@.len() ==> self.entries@[i].ino == i + 1
    }

    /// A fresh table with the root path pre-registered under the reserved
    /// root number 1.
    pub fn with_root() -> (t: Inodes)
        ensures
            t.wf(),
            t.paths() == seq![Seq::<Seq<char>>::empty()],
    {
        let mut t = Inodes { entries: Vec::new() };
        let root: Vec<String> = Vec::new();
        proof {
            assert(root.deep_view() =~= Seq::<Seq<char>>::empty());
        }
        t.push(root);
        proof {
            assert(t.paths() =~= seq![Seq::<Seq<char>>::empty()]);
        }
        t
    }

    /// Records a path the table has not seen and returns its fresh,
    /// sequentially assigned inode number.
    pub fn push(&mut self, path_segments: Vec<String>) -> (ino: u64)
        requires
            old(self).wf(),
            !old(self).paths().contains(path_segments.deep_view()),
            old(self).paths().len() < 0xffff_ffff_ffff_ffff,
        ensures
            final(self).wf(),
            final(self).paths() == old(self).paths().push(path_segments.deep_view()),
            ino == old(self).paths().len() + 1,
    {
        let ino: u64 = (self.entries.len() as u64) + 1;
        let ghost p = path_segments.deep_view();
        self.entries.push(Inode { path_segments, ino });
        proof {
            assert(self.paths() =~= old(self).paths().push(p));
            assert forall|i: int, j: int|
                0 <= i < j < self.paths().len() implies self.paths()[i] != self.paths()[j] by {
                if j == self.paths().len() - 1 {
                    assert(old(self).paths().contains(old(self).paths()[i]));
                }
            }
        }
        ino
    }

    /// Looks an inode number up; `None` exactly on the numbers this table
    /// never assigned.
    pub fn get(&self, ino: u64) -> (r: Option<&Inode>)
        requires
            self.wf(),
        ensures
            match r {
                Some(inode) => 1 <= ino && ino <= self.paths().len() && inode.ino == ino
                    && inode.path_segments.deep_view() == self.paths()[ino - 1],
                None => ino < 1 || ino > self.paths().len(),
            },
    {
        if ino >= 1 && ino <= self.entries.len() as u64 {
            Some(&self.entries[(ino - 1) as usize])
        } else {
            None
        }
    }

    /// The path an inode stands for; fails with `UnknownInode` exactly on
    /// numbers this table never assigned.
    pub fn resolve(&self, ino: u64) -> (r: Result<&Vec<String>, FsError>)
        requires
            self.wf(),
        ensures
            match r {
                Ok(path) => 1 <= ino && ino <= self.paths().len() && path.deep_view()
                    == self.paths()[ino - 1],
                Err(e) => e == FsError::UnknownInode && (ino < 1 || ino > self.paths().len()),
            },
    {
        match self.get_path_segments(ino) {
            Some(path) => Ok(path),
            None => Err(FsError::UnknownInode),
        }
    }

    /// The path an inode stands for; `None` exactly on numbers never
    /// assigned.
    pub fn get_path_segments(&self, ino: u64) -> (r: Option<&Vec<String>>)
        requires
            self.wf(),
        ensures
            match r {
                Some(path) => 1 <= ino && ino <= self.paths().len() && path.deep_view()
                    == self.paths()[ino - 1],
                None => ino < 1 || ino > self.paths().len(),
            },
    {
        match self.get(ino) {
            Some(inode) => Some(&inode.path_segments),
            None => None,
        }
    }

    /// The entry a path was numbered under; `None` exactly on paths never
    /// seen.
    pub fn get_by_path(&self, path: &[String]) -> (r: Option<&Inode>)
        requires
            self.wf(),
        ensures
            match r {
                Some(inode) => spec_find_path(self.paths(), path.deep_view()) == inode.ino - 1
                    && 1 <= inode.ino && inode.ino <= self.paths().len()
                    && inode.path_segments.deep_view() == path.deep_view(),
                None => spec_find_path(self.paths(), path.deep_view()) == -1,
            },
    {
        let ghost p = path.deep_view();
        let mut i: usize = 0;
        while i < self.entries.len()
            invariant
                self.wf(),
                i <= self.entries@.len(),
                p == path.deep_view(),
                forall|k: int| 0 <= k < i ==> self.paths()[k] != p,
            decreases self.entries@.len() - i,
        {
            if path_eq(&self.entries[i].path_segments, path) {
                proof {
                    assert(self.paths()[i as int] == p);
                    lemma_find_first(self.paths(), p, i as int);
                }
                return Some(&self.entries[i]);
            }
            proof {
                assert(self.paths()[i as int] != p);
            }
            i += 1;
        }
        proof {
            if spec_find_path(self.paths(), p) >= 0 {
                lemma_find_valid(self.paths(), p);
            }
        }
        None
    }

    /// Returns the path's entry, numbering it first if it was never seen:
    /// the lazily populated `assign` of the table. Assigning the same path
    /// again returns the same number and changes nothing.
    pub fn get_or_push(&mut self, path: &[String]) -> (r: Inode)
        requires
            old(self).wf(),
            old(self).paths().len() < 0xffff_ffff_ffff_ffff,
        ensures
            final(self).wf(),
            final(self).paths() == spec_assign(old(self).paths(), path.deep_view()).0,
            r.ino == spec_assign(old(self).paths(), path.deep_view()).1,
            r.path_segments.deep_view() == path.deep_view(),
    {
        let ghost p = path.deep_view();
        match self.get_by_path(path) {
            Some(inode) => {
                let ino = inode.ino;
                let segs = path_to_vec(path);
                Inode { ino, path_segments: segs }
            },
            None => {
                proof {
                    lemma_find_complete(self.paths(), p);
                    if self.paths().contains(p) {
                        let k = choose|k: int| 0 <= k < self.paths().len() && self.paths()[k] == p;
                        assert(self.paths()[k] == p);
                    }
                }
                let segs = path_to_vec(path);
                let ino = self.push(segs);
                proof {
                    lemma_find_complete(old(self).paths(), p);
                }
                Inode { ino, path_segments: path_to_vec(path) }
            },
        }
    }
}

/// Compares two paths segment by segment.
fn path_eq(a: &Vec<String>, b: &[String]) -> (r: bool)
    ensures
        r == (a.deep_view() == b.deep_view()),
{
    if a.len() != b.len() {
        proof {
            assert(a.deep_view().len() == a@.len());
            assert(b.deep_view().len() == b@.len());
        }
        return false;
    }
    let n = a.len();
    let mut i: usize = 0;
    while i < n
        invariant
            n == a@.len(),
            n == b@.len(),
            i <= n,
            forall|k: int| 0 <= k < i ==> a.deep_view()[k] == b.deep_view()[k],
        decreases n - i,
    {
        let ax = &a[i];
        let bx = &b[i];
        if !ax.eq(bx) {
            proof {
                assert(a.deep_view()[i as int] == a@[i as int]@);
                assert(b.deep_view()[i as int] == b@[i as int]@);
            }
            return false;
        }
        proof {
            assert(a.deep_view()[i as int] == a@[i as int]@);
            assert(b.deep_view()[i as int] == b@[i as int]@);
        }
        i += 1;
    }
    proof {
        assert(a.deep_view() =~= b.deep_view());
    }
    true
}

/// Copies a borrowed path into an owned one.
pub(crate) fn path_to_vec(path: &[String]) -> (r: Vec<String>)
    ensures
        r@ == path@,
        r.deep_view() == path.deep_view(),
{
    let mut r: Vec<String> = Vec::new();
    let mut i: usize = 0;
    while i < path.len()
        invariant
            i <= path@.len(),
            r@ == path@.subrange(0, i as int),
        decreases path@.len() - i,
    {
        r.push(path[i].clone());
        proof {
            assert(path@.subrange(0, i + 1) == path@.subrange(0, i as int).push(path@[i as int]));
        }
        i += 1;
    }
    proof {
        assert(path@.subrange(0, path@.len() as int) == path@);
        assert(r.deep_view() =~= path.deep_view());
    }
    r
}

/// Assigning a path twice gives the same number, and the second assignment
/// changes nothing.
pub proof fn lemma_assign_stable(paths: Seq<Seq<Seq<char>>>, p: Seq<Seq<char>>)
    ensures
        spec_assign(spec_assign(paths, p).0, p) == spec_assign(paths, p),
{
    let i = spec_find_path(paths, p);
    if i < 0 {
        lemma_find_complete(paths, p);
        lemma_find_first(paths.push(p), p, paths.len() as int);
    }
}

/// Distinct paths never share a number: assigning one path and then a
/// different one yields different numbers.
pub proof fn lemma_assign_distinct(paths: Seq<Seq<Seq<char>>>, p1: Seq<Seq<char>>, p2: Seq<Seq<char>>)
    requires
        p1 != p2,
    ensures
        spec_assign(spec_assign(paths, p1).0, p2).1 != spec_assign(paths, p1).1,
{
    let i1 = spec_find_path(paths, p1);
    if i1 >= 0 {
        lemma_find_valid(paths, p1);
        let i2 = spec_find_path(paths, p2);
        if i2 >= 0 {
            lemma_find_valid(paths, p2);
        }
    } else {
        let paths2 = paths.push(p1);
        let i2 = spec_find_path(paths2, p2);
        if i2 >= 0 {
            lemma_find_valid(paths2, p2);
        }
    }
}

/// Resolving a freshly assigned number yields the path that was assigned.
pub proof fn lemma_assign_resolve(paths: Seq<Seq<Seq<char>>>, p: Seq<Seq<char>>)
    ensures
        0 < spec_assign(paths, p).1 <= spec_assign(paths, p).0.len(),
        spec_assign(paths, p).0[spec_assign(paths, p).1 - 1] == p,
{
    let i = spec_find_path(paths, p);
    if i >= 0 {
        lemma_find_valid(paths, p);
    }
}

} // verus!
