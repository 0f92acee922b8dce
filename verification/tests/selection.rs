use std::sync::mpsc;

use ifnd::files::any_file::AnyFile;
use ifnd::files::file_base::FileBase;
use ifnd::files::lnk_parser::LnkFile;
use ifnd::files::runnable_file::{file_kind, FileKind, RunnableFile};
use ifnd::files::exe_file::ExeFile;
use ifnd::filtered_list::FilteredList;
use ifnd::list_view::{highlight_marks, plan_results};
use ifnd::matcher::SearchMatcher;
use ifnd::search::app_search::AppSearch;
use ifnd::search::file_search::FileSearch;
use ifnd::search::find_exe::AsyncFinder;
use ifnd::search::search_type::{SearchMode, SearchType};
use ifnd::selection_gui::{
    make_selection, mode_request, refresh, select_internal, select_on_one_page, selected_file, FileTypes, InputEvent, KeyInput, ModeRequest, SelectRet,
    SelectionError, State, ELEMENT_LIMIT,
};
use ifnd::text::{command_args, split_first_space, trim_range, white_space};

fn key(k: KeyInput) -> Option<InputEvent> {
    Some(InputEvent::Key(k))
}

fn any(path: &str) -> AnyFile {
    AnyFile::new(format!("/root/{}", path), path.to_string())
}

#[test]
fn new_state_starts_empty() {
    let s = State::new(7);
    assert_eq!(s.matcher.element_limit, ELEMENT_LIMIT);
    assert_eq!(s.input_search_str, "");
    assert_eq!((s.cursor, s.page, s.items_displayed_on_current_page), (0, 0, 0));
    assert!(s.need_rerender);
    assert_eq!(s.start_row, 7);
    assert_eq!(s.split_input(), ("", ""));
}

#[test]
fn typing_and_deleting_edit_the_input() {
    let mut s = State::new(0);
    for c in "f main".chars() {
        assert_eq!(select_internal(&mut s, key(KeyInput::Char(c))), SelectRet::Rerender);
    }
    assert_eq!(s.input_search_str, "f main");
    assert_eq!(s.split_input(), ("f", "main"));
    assert_eq!(select_internal(&mut s, key(KeyInput::Backspace)), SelectRet::Rerender);
    assert_eq!(s.input_search_str, "f mai");
    let mut e = State::new(0);
    assert_eq!(select_internal(&mut e, key(KeyInput::Backspace)), SelectRet::Rerender);
    assert_eq!(e.input_search_str, "");
}

#[test]
fn cursor_stays_within_the_page() {
    let mut s = State::new(0);
    s.set_items_displayed(3);
    select_internal(&mut s, key(KeyInput::Up));
    assert_eq!(s.cursor, 1);
    select_internal(&mut s, key(KeyInput::Up));
    assert_eq!(s.cursor, 1);
    for _ in 0..5 {
        select_internal(&mut s, key(KeyInput::Down));
    }
    assert_eq!(s.cursor, 3);
    select_internal(&mut s, key(KeyInput::Up));
    assert_eq!(s.cursor, 2);
}

#[test]
fn pages_turn_and_other_events() {
    let mut s = State::new(0);
    assert_eq!(select_internal(&mut s, key(KeyInput::PageDown)), SelectRet::Rerender);
    assert_eq!(select_internal(&mut s, key(KeyInput::PageDown)), SelectRet::Rerender);
    assert_eq!(s.page, 2);
    select_internal(&mut s, key(KeyInput::PageUp));
    assert_eq!(s.page, 1);
    assert_eq!(select_internal(&mut s, key(KeyInput::Enter)), SelectRet::MakeSelection);
    assert_eq!(select_internal(&mut s, None), SelectRet::Norerender);
    assert_eq!(select_internal(&mut s, Some(InputEvent::Other)), SelectRet::Rerender);
    assert_eq!(select_internal(&mut s, key(KeyInput::Tab)), SelectRet::Rerender);
    assert_eq!(s.page, 1);
    s.after_select(SelectRet::Norerender);
    assert!(!s.need_rerender);
    s.after_select(SelectRet::Rerender);
    assert!(s.need_rerender);
}

#[test]
fn commands_choose_the_search() {
    assert_eq!(mode_request(&SearchMode::NoSearch, "a"), ModeRequest::StartAppSearch);
    assert_eq!(mode_request(&SearchMode::NoSearch, "f"), ModeRequest::StartFileSearch);
    assert_eq!(mode_request(&SearchMode::NoSearch, "x"), ModeRequest::Keep);
    assert_eq!(mode_request(&SearchMode::NoSearch, "ab"), ModeRequest::Keep);
    let (_tx, rx) = mpsc::channel();
    let fs = SearchMode::FileSearch(FileSearch::new(rx));
    assert_eq!(mode_request(&fs, "f"), ModeRequest::Keep);
    assert_eq!(mode_request(&fs, "a"), ModeRequest::StartAppSearch);
    let (_tx2, rx2) = mpsc::channel();
    let app = SearchMode::AppSerach(AppSearch::new(AsyncFinder::from_receiver(rx2)));
    assert_eq!(mode_request(&app, "a"), ModeRequest::Keep);
    assert_eq!(mode_request(&app, "f"), ModeRequest::StartFileSearch);
}

#[test]
fn file_search_collects_what_arrives() {
    let (tx, rx) = mpsc::channel();
    let mut search = FileSearch::new(rx);
    assert!(!search.check_for_updates());
    tx.send(any("a.txt")).unwrap();
    tx.send(any("b.txt")).unwrap();
    assert!(search.check_for_updates());
    assert!(!search.check_for_updates());
    let cache = search.get_cache();
    assert_eq!(cache.len(), 2);
    assert_eq!(cache[1].get_search_path(), "b.txt");
}

#[test]
fn app_search_collects_what_arrives() {
    let (tx, rx) = mpsc::channel();
    let mut search = AppSearch::new(AsyncFinder::from_receiver(rx));
    tx.send(RunnableFile::ExeFile(ExeFile::new("C:\\a.exe".to_string()))).unwrap();
    assert!(search.check_for_updates());
    assert_eq!(search.get_cache()[0].get_path(), "C:\\a.exe");
}

#[test]
fn file_search_appends_arrivals_in_order() {
    let (_tx, rx) = mpsc::channel();
    let mut search = FileSearch::new(rx);
    assert!(!search.take_arrived(Vec::new()));
    assert_eq!(search.get_cache().len(), 0);
    assert!(search.take_arrived(vec![any("a.txt"), any("b.txt")]));
    assert!(search.take_arrived(vec![any("c.txt")]));
    assert!(!search.take_arrived(Vec::new()));
    let cache = search.get_cache();
    assert_eq!(cache.len(), 3);
    assert_eq!(cache[0].get_search_path(), "a.txt");
    assert_eq!(cache[1].get_search_path(), "b.txt");
    assert_eq!(cache[2].get_search_path(), "c.txt");
}

#[test]
fn app_search_appends_arrivals_in_order() {
    let (_tx, rx) = mpsc::channel();
    let mut search = AppSearch::new(AsyncFinder::from_receiver(rx));
    assert!(!search.take_arrived(Vec::new()));
    let first = RunnableFile::ExeFile(ExeFile::new("C:\\a.exe".to_string()));
    let second = RunnableFile::ExeFile(ExeFile::new("C:\\b.exe".to_string()));
    assert!(search.take_arrived(vec![first, second]));
    assert_eq!(search.get_cache().len(), 2);
    assert_eq!(search.get_cache()[0].get_path(), "C:\\a.exe");
    assert_eq!(search.get_cache()[1].get_path(), "C:\\b.exe");
}

#[test]
fn refresh_only_checks_when_no_drawing_is_pending() {
    let (tx, rx) = mpsc::channel();
    let mut search = FileSearch::new(rx);
    let mut s = State::new(0);
    tx.send(any("a.txt")).unwrap();
    assert!(refresh(&mut search, &mut s));
    assert_eq!(search.get_cache().len(), 0);
    s.after_select(SelectRet::Norerender);
    assert!(refresh(&mut search, &mut s));
    assert_eq!(search.get_cache().len(), 1);
    s.after_select(SelectRet::Norerender);
    assert!(!refresh(&mut search, &mut s));
    assert!(!s.need_rerender);
}

#[test]
fn make_selection_picks_the_marked_row() {
    let (tx, rx) = mpsc::channel();
    let mut search = FileSearch::new(rx);
    for p in ["alpha.txt", "beta.txt", "gamma.txt"] {
        tx.send(any(p)).unwrap();
    }
    search.check_for_updates();
    let mut s = State::new(0);
    for c in "f beta".chars() {
        select_internal(&mut s, key(KeyInput::Char(c)));
    }
    s.set_items_displayed(4);
    select_internal(&mut s, key(KeyInput::Down));
    let picked = make_selection(&search, &s).unwrap();
    assert_eq!(picked.get_search_path(), "beta.txt");
    // the picked file is the one listed at the cursor's row
    let (_, search_str) = s.split_input();
    let list = FilteredList::new(search.get_cache(), search_str, &s.matcher);
    let page = list.iter(s.page);
    assert!(std::ptr::eq(page[s.cursor - 1].file, picked));
    // rows beyond the results give no file
    s.cursor = 30;
    assert_eq!(make_selection(&search, &s).err(), Some(SelectionError::NoSearchMatch));
}

#[test]
fn splitting_the_input() {
    assert_eq!(split_first_space("a notepad"), ("a", Some("notepad")));
    assert_eq!(split_first_space("f a b"), ("f", Some("a b")));
    assert_eq!(split_first_space("abc"), ("abc", None));
    assert_eq!(split_first_space(" x"), ("", Some("x")));
    assert_eq!(split_first_space(""), ("", None));
}

#[test]
fn command_args_split_trim_and_drop_empty() {
    assert_eq!(command_args("-a  -b\tc\n"), vec!["-a", "-b\tc"]);
    assert_eq!(command_args("\n"), Vec::<String>::new());
    assert_eq!(command_args(" x y "), vec!["x", "y"]);
    assert_eq!(command_args("\u{3000}wide\u{00a0} "), vec!["wide"]);
    assert!(white_space('\u{85}'));
    assert!(!white_space('x'));
    assert_eq!(trim_range("  ab  ", 0, 6), (2, 4));
    assert_eq!(trim_range("   ", 0, 3).0, trim_range("   ", 0, 3).1);
}

#[test]
fn files_are_classified_by_extension() {
    assert_eq!(file_kind("lnk"), FileKind::Lnk);
    assert_eq!(file_kind("exe"), FileKind::Exe);
    assert_eq!(file_kind("EXE"), FileKind::Other);
    assert_eq!(file_kind(""), FileKind::Other);
    assert_eq!(file_kind("exes"), FileKind::Other);
}

#[test]
fn broken_links_are_refused() {
    assert!(LnkFile::new("x.lnk".to_string(), b"not a link").is_err());
    assert!(LnkFile::new("x.lnk".to_string(), &[]).is_err());
}

#[test]
fn rows_mark_cursor_and_matched_characters() {
    let files = vec![any("ab"), any("xyz")];
    let mut list = FilteredList::empty();
    list.insert_match(Some((9, vec![1])), &files[0]);
    list.insert_match(Some((4, vec![0, 2])), &files[1]);
    let page = list.iter(0);
    let (rows, count) = plan_results(2, &page, 10);
    assert_eq!(count, 3);
    assert_eq!(rows.len(), 2);
    assert_eq!((rows[0].counter, rows[0].physical_row, rows[0].selected, rows[0].score), (1, 11, false, 9));
    assert_eq!(rows[0].highlighted, vec![false, true]);
    assert_eq!((rows[1].counter, rows[1].physical_row, rows[1].selected), (2, 12, true));
    assert_eq!(rows[1].highlighted, vec![true, false, true]);
    assert_eq!(highlight_marks("héllo", &vec![1, 9]), vec![false, true, false, false, false]);
    let (none, n) = plan_results::<AnyFile>(1, &Vec::new(), 0);
    assert!(none.is_empty());
    assert_eq!(n, 1);
    let m = SearchMatcher::new(0);
    assert_eq!(m.element_limit, 0);
}

#[test]
fn backspace_undoes_typing_and_pages_come_back() {
    let mut s = State::new(3);
    for c in "a x".chars() {
        select_internal(&mut s, key(KeyInput::Char(c)));
    }
    s.page = 4;
    s.cursor = 2;
    select_internal(&mut s, key(KeyInput::Char('é')));
    select_internal(&mut s, key(KeyInput::Backspace));
    assert_eq!(s.input_search_str, "a x");
    select_internal(&mut s, key(KeyInput::PageDown));
    select_internal(&mut s, key(KeyInput::PageUp));
    assert_eq!((s.page, s.cursor), (4, 2));
    for k in [KeyInput::Left, KeyInput::Right, KeyInput::Home, KeyInput::End, KeyInput::Delete, KeyInput::Insert, KeyInput::F(2), KeyInput::Null, KeyInput::Esc, KeyInput::BackTab] {
        assert_eq!(select_internal(&mut s, key(k)), SelectRet::Rerender);
    }
    assert_eq!((s.input_search_str.as_str(), s.page, s.cursor), ("a x", 4, 2));
}

#[test]
fn the_picked_file_is_of_the_running_search() {
    let (_tx, rx) = mpsc::channel();
    let mut search = FileSearch::new(rx);
    search.take_arrived(vec![any("alpha.txt"), any("beta.txt")]);
    let mode = SearchMode::FileSearch(search);
    let mut s = State::new(0);
    for c in "f beta".chars() {
        select_internal(&mut s, key(KeyInput::Char(c)));
    }
    s.cursor = 1;
    match selected_file(&mode, &s) {
        Ok(FileTypes::AnyFile(f)) => assert_eq!(f.get_search_path(), "beta.txt"),
        _ => panic!("a file of the file search should be picked"),
    }
    s.cursor = 30;
    assert_eq!(selected_file(&mode, &s).err(), Some(SelectionError::NoSearchMatch));

    let (_tx2, rx2) = mpsc::channel();
    let mut apps = AppSearch::new(AsyncFinder::from_receiver(rx2));
    apps.take_arrived(vec![RunnableFile::ExeFile(ExeFile::new("C:\\tool.exe".to_string()))]);
    let mode = SearchMode::AppSerach(apps);
    let mut s = State::new(0);
    s.cursor = 1;
    match selected_file(&mode, &s) {
        Ok(FileTypes::RunnableFile(f)) => assert_eq!(f.get_path(), "C:\\tool.exe"),
        _ => panic!("a runnable file should be picked"),
    }
}

#[test]
fn searches_change_only_on_a_or_f() {
    let (_tx, rx) = mpsc::channel();
    let files = SearchMode::FileSearch(FileSearch::new(rx));
    assert_eq!(mode_request(&files, "f"), ModeRequest::Keep);
    assert_eq!(mode_request(&files, "x"), ModeRequest::Keep);
    assert_eq!(mode_request(&files, ""), ModeRequest::Keep);
    assert_eq!(mode_request(&files, "af"), ModeRequest::Keep);
    assert_eq!(mode_request(&files, "a"), ModeRequest::StartAppSearch);
    assert_eq!(mode_request(&SearchMode::NoSearch, "x"), ModeRequest::Keep);
}

#[test]
fn the_plain_picker_ignores_page_keys() {
    let mut s = State::new(0);
    assert_eq!(select_on_one_page(&mut s, key(KeyInput::PageUp)), SelectRet::Norerender);
    assert_eq!(select_on_one_page(&mut s, key(KeyInput::PageDown)), SelectRet::Norerender);
    assert_eq!(s.page, 0);
    assert_eq!(select_on_one_page(&mut s, key(KeyInput::Char('x'))), SelectRet::Rerender);
    assert_eq!(s.input_search_str, "x");
    assert_eq!(select_on_one_page(&mut s, key(KeyInput::Enter)), SelectRet::MakeSelection);
}
