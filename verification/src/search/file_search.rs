use std::sync::mpsc::Receiver;
use vstd::prelude::*;
use crate::files::any_file::AnyFile;
use crate::search::channel::receive_waiting;
use crate::search::search_type::SearchType;

verus! {

/// The search over all files below the current directory: the files found
/// so far, and the channel on which the walk sends the rest.
pub struct FileSearch {
    cache: Vec<AnyFile>,
    receiver: Receiver<AnyFile>,
}

impl FileSearch {
    /// A search with nothing received yet, fed by `receiver`.
    pub fn new(receiver: Receiver<AnyFile>) -> (r: Self)
        ensures
            r.cache_view() == Seq::<AnyFile>::empty(),
            r.source() == receiver,
    {
        FileSearch { cache: Vec::new(), receiver }
    }
}

impl FileSearch {
    /// The channel the search reads from.
    pub closed spec fn source(&self) -> Receiver<AnyFile> {
        self.receiver
    }

    /// Appends `arrived`, the files that came in on the channel since the
    /// last check, to the cache in the order they came; tells whether there
    /// were any.
    pub fn take_arrived(&mut self, arrived: Vec<AnyFile>) -> (r: bool)
        ensures
            final(self).cache_view() == old(self).cache_view() + arrived@,
            final(self).source() == old(self).source(),
            r == (arrived@.len() > 0),
    {
        let mut arrived = arrived;
        let need_rerender = arrived.len() > 0;
        self.cache.append(&mut arrived);
        need_rerender
    }
}

impl SearchType<AnyFile> for FileSearch {
    closed spec fn cache_view(&self) -> Seq<AnyFile> {
        self.cache@
    }

    fn check_for_updates(&mut self) -> (r: bool)
        ensures
            final(self).source() == old(self).source(),
    {
        let arrived = receive_waiting(&self.receiver);
        self.take_arrived(arrived)
    }

    fn get_cache(&self) -> (r: &Vec<AnyFile>) {
        &self.cache
    }
}

} // verus!
