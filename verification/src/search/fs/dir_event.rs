use vstd::prelude::*;

verus! {

/// What reading the next entry of an open directory gave.
pub enum DirEvent<D, E> {
    /// The directory has no entries left.
    End,
    /// An entry that is passed over: it could not be read, its metadata could
    /// not be read, it is a directory that could not be opened, or it is
    /// neither a file nor a directory.
    Skip,
    /// A file.
    File(E),
    /// A subdirectory, opened for reading.
    Dir(D),
}

/// The file that an event hands out, if it is one.
pub open spec fn event_file<D, E>(event: DirEvent<D, E>) -> Option<E> {
    match event {
        DirEvent::File(e) => Some(e),
        _ => None,
    }
}

} // verus!
