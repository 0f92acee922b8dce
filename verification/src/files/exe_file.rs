use vstd::prelude::*;
use crate::files::file_base::FileBase;

verus! {

/// An executable file; the search matches its full path.
#[derive(Debug, Clone)]
pub struct ExeFile {
    path: String,
}

impl ExeFile {
    pub fn new(path: String) -> (r: Self)
        ensures
            r.path_view() == path@,
    {
        ExeFile { path: path }
    }
}

impl FileBase for ExeFile {
    closed spec fn path_view(&self) -> Seq<char> {
        self.path@
    }

    closed spec fn search_path_view(&self) -> Seq<char> {
        self.path@
    }

    fn get_path(&self) -> (r: &String) {
        &self.path
    }

    fn get_search_path(&self) -> (r: &str) {
        self.path.as_str()
    }
}

impl ExeFile {
    /// An executable is searched by its full path.
    pub proof fn lemma_search_path_is_path(&self)
        ensures
            self.search_path_view() == self.path_view(),
    {
    }
}

} // verus!
