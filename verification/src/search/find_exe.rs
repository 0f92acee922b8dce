use std::sync::mpsc::Receiver;
use vstd::prelude::*;
use crate::files::runnable_file::RunnableFile;

verus! {

/// The receiving end of the search for runnable files that runs in the
/// background.
pub struct AsyncFinder {
    pub receiver: Receiver<RunnableFile>,
}

impl AsyncFinder {
    pub fn from_receiver(receiver: Receiver<RunnableFile>) -> (r: Self)
        ensures
            r.receiver == receiver,
    {
        AsyncFinder { receiver }
    }
}

} // verus!
