use vstd::prelude::*;
use crate::files::file_base::FileBase;
use crate::search::app_search::AppSearch;
use crate::search::file_search::FileSearch;

verus! {

/// A source of files that fills a cache as its results arrive.
pub trait SearchType<T: FileBase> {
    /// The files received so far, in the order they arrived.
    spec fn cache_view(&self) -> Seq<T>;

    /// Adds the files that have arrived since the last check to the end of
    /// the cache; tells whether there were any.
    fn check_for_updates(&mut self) -> (r: bool)
        ensures
            final(self).cache_view().len() >= old(self).cache_view().len(),
            final(self).cache_view().subrange(0, old(self).cache_view().len() as int)
                == old(self).cache_view(),
            r == (final(self).cache_view().len() > old(self).cache_view().len()),
    ;

    fn get_cache(&self) -> (r: &Vec<T>)
        ensures
            r@ == self.cache_view(),
    ;
}

/// The cache after checks that brought in, one check after the other, the
/// files of `arrivals`, starting from the cache `cache`: each check appends
/// what arrived (see `take_arrived` of the two searches).
pub open spec fn cache_after<T>(cache: Seq<T>, arrivals: Seq<Seq<T>>) -> Seq<T>
    decreases arrivals.len(),
{
    if arrivals.len() == 0 {
        cache
    } else {
        cache_after(cache, arrivals.drop_last()) + arrivals.last()
    }
}

/// Over any series of checks the cache only grows at its end: what it held
/// after an earlier check stays, in the same order, at its front after every
/// later check.
pub proof fn law_cache_only_grows_at_its_end<T>(cache: Seq<T>, arrivals: Seq<Seq<T>>, i: int, j: int)
    requires
        0 <= i <= j <= arrivals.len(),
    ensures
        cache_after(cache, arrivals.take(i)).len() <= cache_after(cache, arrivals.take(j)).len(),
        cache_after(cache, arrivals.take(j)).subrange(0, cache_after(cache, arrivals.take(i)).len() as int)
            == cache_after(cache, arrivals.take(i)),
    decreases j - i,
{
    let early = cache_after(cache, arrivals.take(i));
    if i == j {
        assert(early.subrange(0, early.len() as int) =~= early);
    } else {
        law_cache_only_grows_at_its_end(cache, arrivals, i, j - 1);
        let mid = cache_after(cache, arrivals.take(j - 1));
        assert(arrivals.take(j).drop_last() =~= arrivals.take(j - 1));
        let late = cache_after(cache, arrivals.take(j));
        assert(late == mid + arrivals.take(j).last());
        assert(late.subrange(0, early.len() as int) =~= mid.subrange(0, early.len() as int));
    }
}

/// Which search the selection screen runs (`NoSearch` before a command
/// has chosen one).
pub enum SearchMode {
    NoSearch,
    AppSerach(AppSearch),
    FileSearch(FileSearch),
}

} // verus!
