use vstd::prelude::*;
use crate::search::fs::dir_event::{event_file, DirEvent};

verus! {

/// A depth-first walk over a directory tree that hands out the files it
/// finds. It keeps a stack of open directories; the innermost one is read
/// next, and a subdirectory is entered as soon as it is found.
///
/// The directory handles are of the caller's type `D`: the caller reads the
/// next entry of the directory that `take_current` hands it, and gives the
/// directory back to `step` together with what the read gave.
pub struct DepthFirstRecursiveDirTraversal<D> {
    dirs: Vec<D>,
}

/// The stack after the innermost directory `current`, taken off `rest`, has
/// produced `event`: it is dropped when it has no entries left, else it goes
/// back on top, with a newly found subdirectory above it.
pub open spec fn dfs_after<D, E>(rest: Seq<D>, current: D, event: DirEvent<D, E>) -> Seq<D> {
    match event {
        DirEvent::End => rest,
        DirEvent::Skip => rest.push(current),
        DirEvent::File(_) => rest.push(current),
        DirEvent::Dir(sub) => rest.push(current).push(sub),
    }
}

impl<D> DepthFirstRecursiveDirTraversal<D> {
    /// The open directories, outermost first.
    pub closed spec fn view(&self) -> Seq<D> {
        self.dirs@
    }

    /// A walk that starts in the opened directory `root`.
    pub fn new(root: D) -> (r: Self)
        ensures
            r@ == seq![root],
    {
        let mut dirs = Vec::new();
        dirs.push(root);
        DepthFirstRecursiveDirTraversal { dirs }
    }

    /// Takes the directory to read from next, the innermost open one;
    /// `None` when the walk is over.
    pub fn take_current(&mut self) -> (r: Option<D>)
        ensures
            old(self)@.len() == 0 ==> r is None && final(self)@ == old(self)@,
            old(self)@.len() > 0 ==> r == Some(old(self)@.last()) && final(self)@ == old(self)@.drop_last(),
    {
        self.dirs.pop()
    }

    /// Gives back the directory taken by `take_current`, with what reading its
    /// next entry gave, and hands out the file found, if any.
    pub fn step<E>(&mut self, current: D, event: DirEvent<D, E>) -> (r: Option<E>)
        ensures
            final(self)@ == dfs_after(old(self)@, current, event),
            r == event_file(event),
    {
        match event {
            DirEvent::End => None,
            DirEvent::Skip => {
                self.dirs.push(current);
                None
            },
            DirEvent::File(e) => {
                self.dirs.push(current);
                Some(e)
            },
            DirEvent::Dir(sub) => {
                self.dirs.push(current);
                self.dirs.push(sub);
                None
            },
        }
    }
}

} // verus!
