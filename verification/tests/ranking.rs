use std::cmp::Ordering;

use ifnd::files::any_file::AnyFile;
use ifnd::files::exe_file::ExeFile;
use ifnd::files::file_base::FileBase;
use ifnd::filtered_list::{file_at_row, FilteredList, PAGE_SIZE};
use ifnd::matcher::{score_or_zero, SearchMatcher};
use ifnd::ordered_type::OrderedSearchMatch;

fn exe(path: &str) -> ExeFile {
    ExeFile::new(path.to_string())
}

#[test]
fn ordered_search_match_compares_scores_only() {
    let a = OrderedSearchMatch { score: 3, indices: vec![0], file: "a" };
    let b = OrderedSearchMatch { score: 3, indices: vec![1, 2], file: "b" };
    let c = OrderedSearchMatch { score: 7, indices: vec![], file: "c" };
    assert!(a == b);
    assert!(!(a != b));
    assert!(a != c);
    assert_eq!(a.cmp(&c), Ordering::Less);
    assert_eq!(c.cmp(&a), Ordering::Greater);
    assert_eq!(a.cmp(&b), Ordering::Equal);
    assert_eq!(a.partial_cmp(&c), Some(Ordering::Less));
    assert!(a < c);
}

#[test]
fn score_or_zero_defaults_missing_matches() {
    assert_eq!(score_or_zero(None), (0, vec![]));
    assert_eq!(score_or_zero(Some((42, vec![1, 3]))), (42, vec![1, 3]));
}

#[test]
fn matcher_scores_subsequences() {
    let m = SearchMatcher::new(2000);
    let (score, indices) = m.score("abc", "b");
    assert!(score > 0);
    assert_eq!(indices, vec![1]);
    assert_eq!(m.score("abc", ""), (0, vec![]));
    // no match at all counts as score 0 without positions
    assert_eq!(m.score("abc", "xyz"), (0, vec![]));
}

#[test]
fn empty_list_has_empty_pages() {
    let list: FilteredList<ExeFile> = FilteredList::empty();
    assert!(list.iter(0).is_empty());
    assert!(list.iter(3).is_empty());
}

#[test]
fn iter_pages_from_highest_score_down() {
    let files: Vec<ExeFile> = (0..60).map(|i| exe(&format!("f{}", i))).collect();
    let mut list = FilteredList::empty();
    for (i, f) in files.iter().enumerate() {
        list.insert_match(Some((i as i64 * 10, vec![i])), f);
    }
    let p0 = list.iter(0);
    assert_eq!(p0.len(), PAGE_SIZE);
    assert_eq!(p0[0].score, 590);
    assert_eq!(p0[0].file.get_path(), "f59");
    assert_eq!(p0[24].score, 350);
    let p1 = list.iter(1);
    assert_eq!(p1.len(), 25);
    assert_eq!(p1[0].score, 340);
    let p2 = list.iter(2);
    assert_eq!(p2.len(), 10);
    assert_eq!(p2[9].score, 0);
    assert_eq!(p2[9].indices, vec![0]);
    assert!(list.iter(3).is_empty());
}

#[test]
fn later_file_with_same_score_replaces_earlier() {
    let files = vec![exe("first"), exe("second"), exe("third")];
    let mut list = FilteredList::empty();
    list.insert_match(Some((5, vec![])), &files[0]);
    list.insert_match(None, &files[1]);
    list.insert_match(Some((5, vec![2])), &files[2]);
    let page = list.iter(0);
    assert_eq!(page.len(), 2);
    assert_eq!(page[0].score, 5);
    assert_eq!(page[0].file.get_path(), "third");
    assert_eq!(page[0].indices, vec![2]);
    assert_eq!(page[1].score, 0);
    assert_eq!(page[1].file.get_path(), "second");
}

#[test]
fn new_ranks_by_fuzzy_score() {
    let files = vec![exe("zzz"), exe("notepad.exe"), exe("note")];
    let m = SearchMatcher::new(2000);
    let list = FilteredList::new(&files, "note", &m);
    let page = list.iter(0);
    // "zzz" does not match and is kept with score 0
    assert_eq!(page.last().unwrap().score, 0);
    assert_eq!(page.last().unwrap().file.get_path(), "zzz");
    for w in page.windows(2) {
        assert!(w[0].score > w[1].score);
    }
    assert!(page.iter().any(|m| m.file.get_path() == "note" && m.indices == vec![0, 1, 2, 3]));
}

#[test]
fn new_with_empty_pattern_keeps_last_file() {
    let files = vec![exe("a"), exe("b"), exe("c")];
    let list = FilteredList::new(&files, "", &SearchMatcher::new(0));
    let page = list.iter(0);
    assert_eq!(page.len(), 1);
    assert_eq!(page[0].score, 0);
    assert_eq!(page[0].file.get_path(), "c");
}

#[test]
fn any_file_searches_its_relative_path() {
    let f = AnyFile::new("/home/u/proj/src/main.rs".to_string(), "src/main.rs".to_string());
    assert_eq!(f.get_path(), "/home/u/proj/src/main.rs");
    assert_eq!(f.get_search_path(), "src/main.rs");
    let e = exe("C:\\bin\\tool.exe");
    assert_eq!(e.get_search_path(), "C:\\bin\\tool.exe");
}

#[test]
fn pages_show_every_result_once() {
    let files: Vec<ExeFile> = (0..53).map(|i| exe(&format!("f{}", i))).collect();
    let mut list = FilteredList::empty();
    for (i, f) in files.iter().enumerate() {
        // scores repeat every 40 files, so 40 results remain
        list.insert_match(Some(((i % 40) as i64 * 3 - 50, vec![])), f);
    }
    let mut seen: Vec<i64> = Vec::new();
    for page in 0..4 {
        for m in list.iter(page) {
            seen.push(m.score);
        }
    }
    assert_eq!(seen.len(), 40);
    let mut sorted = seen.clone();
    sorted.sort();
    sorted.reverse();
    sorted.dedup();
    assert_eq!(sorted, seen);
    // the score 13 was reached by files 21 and 61 -> only file 21 exists; -50 by files 0 and 40
    assert!(list.iter(1).iter().any(|m| m.score == -50 && m.file.get_path() == "f40"));
}

#[test]
fn pages_together_show_each_result_once_in_descending_order() {
    let files: Vec<ExeFile> = (0..30).map(|i| exe(&format!("g{}", i))).collect();
    let mut list = FilteredList::empty();
    for (i, f) in files.iter().enumerate() {
        // scores out of order, each one distinct
        list.insert_match(Some((((i * 7) % 30) as i64, vec![])), f);
    }
    let pages: Vec<Vec<i64>> = (0..4).map(|p| list.iter(p).iter().map(|m| m.score).collect()).collect();
    assert_eq!(pages[0].len(), PAGE_SIZE);
    assert_eq!(pages[1].len(), 5);
    assert!(pages[2].is_empty());
    assert!(pages[3].is_empty());
    let all: Vec<i64> = pages.concat();
    let expected: Vec<i64> = (0..30).rev().collect();
    assert_eq!(all, expected);
    // asking for the same page again gives the same rows
    let again: Vec<i64> = list.iter(1).iter().map(|m| m.score).collect();
    assert_eq!(again, pages[1]);
}

#[test]
fn rows_are_counted_from_one() {
    let files: Vec<ExeFile> = (0..3).map(|i| exe(&format!("h{}", i))).collect();
    let mut list = FilteredList::empty();
    for (i, f) in files.iter().enumerate() {
        list.insert_match(Some((i as i64, vec![])), f);
    }
    let page = list.iter(0);
    assert_eq!(file_at_row(&page, 1).map(|f| f.get_path().as_str()), Some("h2"));
    assert_eq!(file_at_row(&page, 3).map(|f| f.get_path().as_str()), Some("h0"));
    assert!(file_at_row(&page, 0).is_none());
    assert!(file_at_row(&page, 4).is_none());
}
