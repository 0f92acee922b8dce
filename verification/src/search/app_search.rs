use std::sync::mpsc::Receiver;
use vstd::prelude::*;
use crate::files::runnable_file::RunnableFile;
use crate::search::channel::receive_waiting;
use crate::search::find_exe::AsyncFinder;
use crate::search::search_type::SearchType;

verus! {

/// The search over runnable files: the files found so far, and the channel
/// on which the background search sends the rest.
pub struct AppSearch {
    cache: Vec<RunnableFile>,
    receiver: Receiver<RunnableFile>,
}

impl AppSearch {
    /// A search with nothing received yet, fed by `finder`.
    pub fn new(finder: AsyncFinder) -> (r: Self)
        ensures
            r.cache_view() == Seq::<RunnableFile>::empty(),
            r.source() == finder.receiver,
    {
        AppSearch { cache: Vec::new(), receiver: finder.receiver }
    }
}

impl AppSearch {
    /// The channel the search reads from.
    pub closed spec fn source(&self) -> Receiver<RunnableFile> {
        self.receiver
    }

    /// Appends `arrived`, the files that came in on the channel since the
    /// last check, to the cache in the order they came; tells whether there
    /// were any.
    pub fn take_arrived(&mut self, arrived: Vec<RunnableFile>) -> (r: bool)
        ensures
            final(self).cache_view() == old(self).cache_view() + arrived@,
            final(self).source() == old(self).source(),
            r == (arrived@.len() > 0),
    {
        let mut arrived = arrived;
        let need_rerender = arrived.len() > 0;
        self.cache.append(&mut arrived);
        need_rerender
    }
}

impl SearchType<RunnableFile> for AppSearch {
    closed spec fn cache_view(&self) -> Seq<RunnableFile> {
        self.cache@
    }

    fn check_for_updates(&mut self) -> (r: bool)
        ensures
            final(self).source() == old(self).source(),
    {
        let arrived = receive_waiting(&self.receiver);
        self.take_arrived(arrived)
    }

    fn get_cache(&self) -> (r: &Vec<RunnableFile>) {
        &self.cache
    }
}

} // verus!
