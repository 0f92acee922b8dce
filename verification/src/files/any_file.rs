use vstd::prelude::*;
use crate::files::file_base::FileBase;

verus! {

/// Any file found below the directory the search started in: its full path,
/// and the path relative to that directory, which the search matches.
#[derive(Debug, Clone)]
pub struct AnyFile {
    pub path: String,
    pub search_path: String,
}

impl AnyFile {
    pub fn new(path: String, search_path: String) -> (r: Self)
        ensures
            r.path@ == path@,
            r.search_path@ == search_path@,
    {
        AnyFile { path, search_path }
    }
}

impl FileBase for AnyFile {
    open spec fn path_view(&self) -> Seq<char> {
        self.path@
    }

    open spec fn search_path_view(&self) -> Seq<char> {
        self.search_path@
    }

    fn get_path(&self) -> (r: &String) {
        &self.path
    }

    fn get_search_path(&self) -> (r: &str) {
        self.search_path.as_str()
    }
}

} // verus!
