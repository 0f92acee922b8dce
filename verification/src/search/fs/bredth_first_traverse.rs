use std::collections::VecDeque;
use vstd::prelude::*;
use crate::search::fs::dir_event::{event_file, DirEvent};

verus! {

/// A breadth-first walk over a directory tree that hands out the files it
/// finds. It keeps a queue of open directories; the first one is read until
/// it has no entries left, and subdirectories join the back of the queue.
///
/// The directory handles are of the caller's type `D`: the caller reads the
/// next entry of the directory that `take_current` hands it, and gives the
/// directory back to `step` together with what the read gave.
pub struct BredthFirstRecursiveDirTraversal<D> {
    dirs: VecDeque<D>,
}

/// The queue after the first directory `current`, taken off `rest`, has
/// produced `event`: it is dropped when it has no entries left, else it goes
/// back to the front, and a newly found subdirectory joins the back.
pub open spec fn bfs_after<D, E>(rest: Seq<D>, current: D, event: DirEvent<D, E>) -> Seq<D> {
    match event {
        DirEvent::End => rest,
        DirEvent::Skip => seq![current] + rest,
        DirEvent::File(_) => seq![current] + rest,
        DirEvent::Dir(sub) => (seq![current] + rest).push(sub),
    }
}

impl<D> BredthFirstRecursiveDirTraversal<D> {
    /// The open directories, in the order they are read.
    pub closed spec fn view(&self) -> Seq<D> {
        self.dirs@
    }

    /// A walk that starts in the opened directory `root`.
    pub fn new(root: D) -> (r: Self)
        ensures
            r@ == seq![root],
    {
        let mut dirs = VecDeque::new();
        dirs.push_back(root);
        BredthFirstRecursiveDirTraversal { dirs }
    }

    /// Takes the directory to read from next, the first in the queue;
    /// `None` when the walk is over.
    pub fn take_current(&mut self) -> (r: Option<D>)
        ensures
            old(self)@.len() == 0 ==> r is None && final(self)@ == old(self)@,
            old(self)@.len() > 0 ==> r == Some(old(self)@[0]) && final(self)@ == old(self)@.drop_first(),
    {
        self.dirs.pop_front()
    }

    /// Gives back the directory taken by `take_current`, with what reading its
    /// next entry gave, and hands out the file found, if any.
    pub fn step<E>(&mut self, current: D, event: DirEvent<D, E>) -> (r: Option<E>)
        ensures
            final(self)@ == bfs_after(old(self)@, current, event),
            r == event_file(event),
    {
        match event {
            DirEvent::End => None,
            DirEvent::Skip => {
                self.dirs.push_front(current);
                None
            },
            DirEvent::File(e) => {
                self.dirs.push_front(current);
                Some(e)
            },
            DirEvent::Dir(sub) => {
                self.dirs.push_front(current);
                self.dirs.push_back(sub);
                None
            },
        }
    }
}

} // verus!
