use std::collections::BTreeMap;
use vstd::prelude::*;
use vstd::std_specs::btree::{increasing_seq, spec_btree_map_iter};
use vstd::std_specs::iter::IteratorSpec;
use vstd::std_specs::cmp::OrdSpec;
use crate::files::file_base::FileBase;
use crate::matcher::{found_view, score_or_zero, search_score, score_or_zero_spec, skim_fuzzy_indices, SearchMatcher};
use crate::ordered_type::OrderedSearchMatch;
use vstd::relations::injective_on;
use vstd::set_lib::{lemma_int_range, lemma_map_size, lemma_subset_equality, set_int_range};

verus! {

/// The number of results that one page of the list shows.
pub const PAGE_SIZE: usize = 25;

/// The search results over a list of files, keyed by score: for each score
/// that some file reached, the last file in the list that reached it.
pub struct FilteredList<'a, T: FileBase> {
    filtered_list: BTreeMap<i64, OrderedSearchMatch<&'a T>>,
}

/// The results after entering, in order, the scored files of `entries`:
/// a later file replaces an earlier one with the same score.
pub open spec fn ranking<T>(entries: Seq<(i64, Seq<usize>, T)>) -> Map<i64, (Seq<usize>, T)>
    decreases entries.len(),
{
    if entries.len() == 0 {
        Map::empty()
    } else {
        let last = entries.last();
        ranking(entries.drop_last()).insert(last.0, (last.1, last.2))
    }
}

/// The results hold one entry for each score that some entry reached, and
/// for each score the last entry that reached it: a later file with the
/// same score replaces an earlier one.
pub proof fn law_ranking_keeps_last<T>(entries: Seq<(i64, Seq<usize>, T)>, k: i64)
    ensures
        ranking(entries).contains_key(k) <==> exists|i: int| 0 <= i < entries.len() && #[trigger] entries[i].0 == k,
        forall|j: int|
            0 <= j < entries.len() && #[trigger] entries[j].0 == k && (forall|i: int|
                j < i < entries.len() ==> entries[i].0 != k) ==> ranking(entries)[k] == (
                entries[j].1,
                entries[j].2,
            ),
    decreases entries.len(),
{
    if entries.len() > 0 {
        let rest = entries.drop_last();
        law_ranking_keeps_last(rest, k);
        let n = entries.len() - 1;
        if entries[n].0 != k {
            assert forall|i: int| 0 <= i < rest.len() && rest[i].0 == k implies 0 <= i < entries.len() && entries[i].0 == k by {
                assert(rest[i] == entries[i]);
            }
            assert forall|i: int| 0 <= i < entries.len() && entries[i].0 == k implies 0 <= i < rest.len() && rest[i].0 == k by {
                assert(rest[i] == entries[i]);
            }
            assert forall|j: int|
                0 <= j < entries.len() && #[trigger] entries[j].0 == k && (forall|i: int|
                    j < i < entries.len() ==> entries[i].0 != k) implies ranking(entries)[k] == (
                    entries[j].1,
                    entries[j].2,
                ) by {
                assert(rest[j] == entries[j]);
                assert forall|i: int| j < i < rest.len() implies rest[i].0 != k by {
                    assert(rest[i] == entries[i]);
                }
            }
        } else {
            assert(entries[n].0 == k);
        }
    }
}

/// Each file of `commands`, with the score and positions that it reaches
/// for `pattern`.
pub open spec fn scored_files<T: FileBase>(
    element_limit: usize,
    commands: Seq<T>,
    pattern: Seq<char>,
) -> Seq<(i64, Seq<usize>, T)> {
    Seq::new(
        commands.len(),
        |i: int|
            {
                let s = search_score(element_limit, commands[i].search_path_view(), pattern);
                (s.0, s.1, commands[i])
            },
    )
}

/// Each file is ranked by what the matcher answers for its search path (for
/// a file found below the search directory, the path relative to it), never
/// for its full path: the entry of the `i`-th file carries the score and the
/// positions of that answer and the file itself; a file whose search path
/// the matcher does not match gets score 0 and no positions, whatever its
/// full path holds. Its score is then among the scores of the results.
pub proof fn law_files_are_scored_on_their_search_path<T: FileBase>(
    element_limit: usize,
    commands: Seq<T>,
    pattern: Seq<char>,
    i: int,
)
    requires
        0 <= i < commands.len(),
    ensures
        ({
            let entry = scored_files(element_limit, commands, pattern)[i];
            let answer = skim_fuzzy_indices(element_limit, commands[i].search_path_view(), pattern);
            &&& entry.2 == commands[i]
            &&& answer matches Some(found) ==> entry.0 == found.0 && entry.1 == found.1
            &&& answer is None ==> entry.0 == 0 && entry.1 == Seq::<usize>::empty()
            &&& ranking(scored_files(element_limit, commands, pattern)).contains_key(entry.0)
        }),
{
    law_ranking_keeps_last(scored_files(element_limit, commands, pattern), scored_files(element_limit, commands, pattern)[i].0);
}

impl<'a, T: FileBase> FilteredList<'a, T> {
    /// Each result is stored under its own score.
    #[verifier::type_invariant]
    closed spec fn wf(&self) -> bool {
        forall|k: i64| #[trigger] self.filtered_list@.contains_key(k) ==> self.filtered_list@[k].score == k
    }

    /// For each score, the positions that matched and the file.
    pub closed spec fn view(&self) -> Map<i64, (Seq<usize>, T)> {
        self.filtered_list@.map_values(|m: OrderedSearchMatch<&'a T>| (m.indices@, *m.file))
    }

    /// A list without results.
    pub fn empty() -> (r: Self)
        ensures
            r.view() == Map::<i64, (Seq<usize>, T)>::empty(),
    {
        let r = FilteredList { filtered_list: BTreeMap::new() };
        assert(r.view() =~= Map::<i64, (Seq<usize>, T)>::empty());
        r
    }

    /// Enters `file` with the matcher's answer for it: a file that did not
    /// match is entered with score 0 and no positions; an earlier result with
    /// the same score is replaced.
    pub fn insert_match(&mut self, found: Option<(i64, Vec<usize>)>, file: &'a T)
        ensures
            final(self).view() == old(self).view().insert(
                score_or_zero_spec(found_view(found)).0,
                (score_or_zero_spec(found_view(found)).1, *file),
            ),
    {
        proof {
            use_type_invariant(&*self);
        }
        let (score, indices) = score_or_zero(found);
        let m = OrderedSearchMatch { score, indices, file };
        let mut map = BTreeMap::new();
        std::mem::swap(&mut map, &mut self.filtered_list);
        map.insert(score, m);
        self.filtered_list = map;
        assert(self.view() =~= old(self).view().insert(score, (m.indices@, *file)));
    }

    /// Scores every file of `commands` against `search_str` and keeps, for
    /// each score, the last file that reached it.
    pub fn new(commands: &'a Vec<T>, search_str: &str, matcher: &SearchMatcher) -> (r: Self)
        ensures
            r.view() == ranking(scored_files(matcher.element_limit, commands@, search_str@)),
    {
        let mut list = FilteredList::empty();
        let ghost entries = scored_files(matcher.element_limit, commands@, search_str@);
        let mut i: usize = 0;
        while i < commands.len()
            invariant
                0 <= i <= commands@.len(),
                entries == scored_files(matcher.element_limit, commands@, search_str@),
                list.view() == ranking(entries.take(i as int)),
            decreases commands@.len() - i,
        {
            let file: &'a T = &commands[i];
            let found = crate::matcher::skim_indices(matcher.element_limit, file.get_search_path(), search_str);
            list.insert_match(found, file);
            assert(entries.take(i + 1).drop_last() =~= entries.take(i as int));
            i = i + 1;
        }
        assert(entries.take(commands@.len() as int) =~= entries);
        list
    }

    /// The results shown on page `page`: from the highest score down, the
    /// page skips `page` times the page size and shows up to a page size.
    /// The result at position `j` is the one whose score has exactly
    /// `page * PAGE_SIZE + j` higher scores above it.
    pub fn iter<'b>(&'b self, page: usize) -> (r: Vec<&'b OrderedSearchMatch<&'a T>>)
        requires
            page * PAGE_SIZE <= usize::MAX,
        ensures
            self.view().dom().finite(),
            r@.map_values(|o: &OrderedSearchMatch<&'a T>| (o.score, o.indices@, *o.file))
                == page_view(self.view(), page as nat),
            r@.len() == page_len(self.view().dom().len(), page as nat),
            forall|j: int|
                0 <= j < r@.len() ==> {
                    &&& self.view().contains_key(#[trigger] r@[j].score)
                    &&& self.view()[r@[j].score] == (r@[j].indices@, *r@[j].file)
                    &&& higher_scores(self.view().dom(), r@[j].score) == page * PAGE_SIZE + j
                },
    {
        proof {
            use_type_invariant(self);
        }
        let ghost m = self.filtered_list@;
        let ghost kvs = spec_btree_map_iter(&self.filtered_list).remaining();
        let mut all: Vec<&'b OrderedSearchMatch<&'a T>> = Vec::new();
        for kv in it: self.filtered_list.iter()
            invariant
                kvs == it.seq(),
                all@.len() == it.index(),
                forall|j: int| 0 <= j < it.index() ==> all@[j] == #[trigger] it.seq()[j].1,
        {
            all.push(kv.1);
        }
        let ghost ks = kvs.map_values(|kv: (&i64, &OrderedSearchMatch<&'a T>)| *kv.0);
        proof {
            assert(all@.len() == kvs.len());
            assert(ks.to_set() =~= m.dom()) by {
                assert forall|k: i64| m.dom().contains(k) implies ks.to_set().contains(k) by {
                    assert(kvs.contains((&k, &m[k])));
                    let i = choose|i: int| 0 <= i < kvs.len() && kvs[i] == (&k, &m[k]);
                    assert(ks[i] == k);
                }
                assert forall|k: i64| ks.to_set().contains(k) implies m.dom().contains(k) by {
                    let i = choose|i: int| 0 <= i < ks.len() && ks[i] == k;
                    assert(m.contains_key(*kvs[i].0));
                }
            }
            lemma_increasing_keys(ks);
        }
        let n = all.len();
        let start = page * PAGE_SIZE;
        let mut r: Vec<&'b OrderedSearchMatch<&'a T>> = Vec::new();
        if start < n {
            let mut j: usize = 0;
            while j < PAGE_SIZE && j < n - start
                invariant
                    start < n,
                    n == all@.len(),
                    j <= PAGE_SIZE,
                    j <= n - start,
                    r@.len() == j,
                    forall|jj: int| 0 <= jj < j ==> r@[jj] == all@[n - 1 - start - jj],
                decreases PAGE_SIZE - j,
            {
                r.push(all[n - 1 - start - j]);
                j = j + 1;
            }
        }
        proof {
            assert(self.view().dom() =~= m.dom());
            assert(n == m.dom().len());
            assert forall|j: int| 0 <= j < r@.len() implies {
                &&& self.view().contains_key(#[trigger] r@[j].score)
                &&& self.view()[r@[j].score] == (r@[j].indices@, *r@[j].file)
                &&& higher_scores(self.view().dom(), r@[j].score) == page * PAGE_SIZE + j
            } by {
                let i = n - 1 - start - j;
                assert(m.contains_key(*kvs[i].0) && m[*kvs[i].0] == *kvs[i].1);
                assert(ks[i] == r@[j].score);
                lemma_higher_in_sorted(ks, i);
                assert(self.view().dom() =~= m.dom());
            }
            let v = self.view();
            let rv = r@.map_values(|o: &OrderedSearchMatch<&'a T>| (o.score, o.indices@, *o.file));
            assert(v.dom().finite());
            assert forall|j: int| 0 <= j < r@.len() implies #[trigger] rv[j] == page_view(v, page as nat)[j] by {
                let k = r@[j].score;
                assert(v.contains_key(k));
                let c = score_at_rank(v.dom(), page * PAGE_SIZE + j);
                assert(v.dom().contains(c) && higher_scores(v.dom(), c) == page * PAGE_SIZE + j);
                law_each_result_has_its_own_row(v.dom(), c, k);
            }
            assert(rv =~= page_view(v, page as nat));
        }
        r
    }
}

/// The file on row `cursor` (counted from 1) of a page of results; `None`
/// where the page has no such row.
pub fn file_at_row<'b, 'a, T>(page: &Vec<&'b OrderedSearchMatch<&'a T>>, cursor: usize) -> (r: Option<&'a T>)
    ensures
        1 <= cursor <= page@.len() ==> r == Some(page@[cursor - 1].file),
        !(1 <= cursor <= page@.len()) ==> r is None,
{
    if 1 <= cursor && cursor <= page.len() {
        Some(page[cursor - 1].file)
    } else {
        None
    }
}

/// How many of the keys of `keys` are greater than `k`.
pub open spec fn higher_scores(keys: Set<i64>, k: i64) -> nat {
    keys.filter(|x: i64| x > k).len()
}

/// The score among `keys` that has exactly `rank` higher scores above it.
pub open spec fn score_at_rank(keys: Set<i64>, rank: int) -> i64 {
    choose|k: i64| keys.contains(k) && higher_scores(keys, k) == rank
}

/// What page `page` of the results `m` shows, row by row: the score, the
/// matched positions and the file of the result whose score has `page *
/// PAGE_SIZE + j` higher scores above it, for each row `j` of the page.
pub open spec fn page_view<T>(m: Map<i64, (Seq<usize>, T)>, page: nat) -> Seq<(i64, Seq<usize>, T)> {
    Seq::new(
        page_len(m.dom().len(), page),
        |j: int|
            {
                let k = score_at_rank(m.dom(), page * PAGE_SIZE + j);
                (k, m[k].0, m[k].1)
            },
    )
}

/// How many results page `page` shows when there are `n` results in all.
pub open spec fn page_len(n: nat, page: nat) -> nat {
    if n <= page * PAGE_SIZE {
        0
    } else if n - page * PAGE_SIZE < PAGE_SIZE {
        (n - page * PAGE_SIZE) as nat
    } else {
        PAGE_SIZE as nat
    }
}

/// Every result of a list stands on exactly one row of one page: its number
/// of higher scores is below the number of results (so it falls on page
/// `higher / PAGE_SIZE`, row `higher % PAGE_SIZE`), and two different scores
/// never have the same number of higher scores.
pub proof fn law_each_result_has_its_own_row(keys: Set<i64>, k1: i64, k2: i64)
    requires
        keys.finite(),
        keys.contains(k1),
        keys.contains(k2),
    ensures
        higher_scores(keys, k1) < keys.len(),
        k1 != k2 ==> higher_scores(keys, k1) != higher_scores(keys, k2),
{
    let above1 = keys.filter(|x: i64| x > k1);
    let above2 = keys.filter(|x: i64| x > k2);
    vstd::set_lib::lemma_len_subset(above1.insert(k1), keys);
    assert(!above1.contains(k1));
    if k1 < k2 {
        vstd::set_lib::lemma_len_subset(above2.insert(k2), above1);
        assert(!above2.contains(k2));
    } else if k2 < k1 {
        vstd::set_lib::lemma_len_subset(above1.insert(k1), above2);
    }
}

/// The rows of the pages, taken in order, are filled without a gap: for
/// each rank below the number of results there is a result with exactly
/// that many higher scores.
pub proof fn law_every_rank_is_filled(keys: Set<i64>, rank: int)
    requires
        keys.finite(),
        0 <= rank < keys.len(),
    ensures
        keys.contains(score_at_rank(keys, rank)),
        higher_scores(keys, score_at_rank(keys, rank)) == rank,
{
    let n = keys.len() as int;
    let f = |k: i64| higher_scores(keys, k) as int;
    let ranks = keys.map(f);
    assert(injective_on(f, keys)) by {
        assert forall|a: i64, b: i64| keys.contains(a) && keys.contains(b) && #[trigger] f(a) == #[trigger] f(b) implies a == b by {
            if a != b {
                law_each_result_has_its_own_row(keys, a, b);
            }
        }
    }
    lemma_map_size(keys, ranks, f);
    lemma_int_range(0, n);
    assert(ranks.subset_of(set_int_range(0, n))) by {
        assert forall|x: int| ranks.contains(x) implies set_int_range(0, n).contains(x) by {
            let k = choose|k: i64| keys.contains(k) && f(k) == x;
            law_each_result_has_its_own_row(keys, k, k);
        }
    }
    lemma_subset_equality(ranks, set_int_range(0, n));
    assert(set_int_range(0, n).contains(rank));
    assert(ranks.contains(rank));
    let k = choose|k: i64| keys.contains(k) && f(k) == rank;
    assert(keys.contains(k) && higher_scores(keys, k) == rank);
}

/// Down the rows of a page and on to the next page, scores strictly
/// decrease: a result with fewer higher scores has the greater score.
pub proof fn law_rows_descend(keys: Set<i64>, rank1: int, rank2: int)
    requires
        keys.finite(),
        0 <= rank1 < rank2 < keys.len(),
    ensures
        score_at_rank(keys, rank1) > score_at_rank(keys, rank2),
{
    law_every_rank_is_filled(keys, rank1);
    law_every_rank_is_filled(keys, rank2);
    let k1 = score_at_rank(keys, rank1);
    let k2 = score_at_rank(keys, rank2);
    if k1 <= k2 {
        let above1 = keys.filter(|x: i64| x > k1);
        let above2 = keys.filter(|x: i64| x > k2);
        assert(above2.subset_of(above1));
        vstd::set_lib::lemma_len_subset(above2, above1);
    }
}

/// Every result of a list is shown once, on page `h / PAGE_SIZE` at row
/// `h % PAGE_SIZE`, where `h` is its number of higher scores; that row
/// exists on that page.
pub proof fn law_each_result_is_on_its_page(keys: Set<i64>, k: i64)
    requires
        keys.finite(),
        keys.contains(k),
    ensures
        higher_scores(keys, k) % (PAGE_SIZE as nat) < page_len(keys.len(), higher_scores(keys, k) / (PAGE_SIZE as nat)),
        score_at_rank(keys, higher_scores(keys, k) as int) == k,
{
    let h = higher_scores(keys, k);
    law_each_result_has_its_own_row(keys, k, k);
    let c = score_at_rank(keys, h as int);
    assert(keys.contains(c) && higher_scores(keys, c) == h);
    law_each_result_has_its_own_row(keys, c, k);
    let p = h / (PAGE_SIZE as nat);
    let j = h % (PAGE_SIZE as nat);
    assert(h == p * PAGE_SIZE + j);
}

/// Every page before the last holds a full page of results, the last holds
/// the rest, and a page past the results holds none.
pub proof fn law_page_lengths(n: nat, page: nat)
    ensures
        (page + 1) * PAGE_SIZE <= n ==> page_len(n, page) == PAGE_SIZE,
        page * PAGE_SIZE < n < (page + 1) * PAGE_SIZE ==> page_len(n, page) == n - page * PAGE_SIZE,
        n <= page * PAGE_SIZE ==> page_len(n, page) == 0,
{
}

/// Keys that a `BTreeMap` yields in increasing order are strictly increasing
/// integers.
proof fn lemma_increasing_keys(ks: Seq<i64>)
    requires
        increasing_seq(ks),
    ensures
        forall|a: int, b: int| 0 <= a < b < ks.len() ==> ks[a] < ks[b],
{
    assert forall|a: int, b: int| 0 <= a < b < ks.len() implies ks[a] < ks[b] by {
        assert(ks[a].cmp_spec(&ks[b]) is Less);
    }
}

/// In a strictly increasing sequence, exactly the elements after position
/// `i` are greater than the element at `i`.
proof fn lemma_higher_in_sorted(ks: Seq<i64>, i: int)
    requires
        forall|a: int, b: int| 0 <= a < b < ks.len() ==> ks[a] < ks[b],
        0 <= i < ks.len(),
    ensures
        higher_scores(ks.to_set(), ks[i]) == ks.len() - 1 - i,
{
    let tail = ks.subrange(i + 1, ks.len() as int);
    assert(ks.to_set().filter(|x: i64| x > ks[i]) =~= tail.to_set()) by {
        assert forall|x: i64| ks.to_set().filter(|x: i64| x > ks[i]).contains(x) implies tail.to_set().contains(x) by {
            let a = choose|a: int| 0 <= a < ks.len() && ks[a] == x;
            if a <= i {
                if a < i {
                    assert(ks[a] < ks[i]);
                }
            }
            assert(tail[a - i - 1] == x);
        }
        assert forall|x: i64| tail.to_set().contains(x) implies ks.to_set().filter(|x: i64| x > ks[i]).contains(x) by {
            let b = choose|b: int| 0 <= b < tail.len() && tail[b] == x;
            assert(ks[i + 1 + b] == x);
        }
    }
    assert(tail.no_duplicates()) by {
        assert forall|a: int, b: int| 0 <= a < tail.len() && 0 <= b < tail.len() && a != b implies tail[a] != tail[b] by {
            if a < b {
                assert(ks[i + 1 + a] < ks[i + 1 + b]);
            } else {
                assert(ks[i + 1 + b] < ks[i + 1 + a]);
            }
        }
    }
    tail.unique_seq_to_set();
}

} // verus!
