use vstd::prelude::*;

verus! {

/// A file that can be listed and searched: its full path, and the text that
/// the fuzzy search is run against.
pub trait FileBase {
    /// The full path of the file.
    spec fn path_view(&self) -> Seq<char>;

    /// The text that a search pattern is matched against.
    spec fn search_path_view(&self) -> Seq<char>;

    fn get_path(&self) -> (r: &String)
        ensures
            r@ == self.path_view(),
    ;

    fn get_search_path(&self) -> (r: &str)
        ensures
            r@ == self.search_path_view(),
    ;
}

} // verus!
