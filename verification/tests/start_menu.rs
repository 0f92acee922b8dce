use ifnd::files::exe_file::ExeFile;
use ifnd::files::file_base::FileBase;
use ifnd::files::lnk_parser::resolve_link_target;
use ifnd::files::runnable_file::RunnableFile;
use ifnd::list_view::shifted_marks;
use ifnd::start_menu::{chars_of, filter_by_text, find_text, parse_choice};

fn run(path: &str) -> RunnableFile {
    RunnableFile::ExeFile(ExeFile::new(path.to_string()))
}

#[test]
fn substring_filter_ignores_case_and_keeps_order() {
    let commands = vec![run("C:\\Tools\\Notepad.exe"), run("C:\\x\\calc.exe"), run("D:\\NOTES\\n.exe")];
    let found = filter_by_text(&commands, "NOTE");
    assert_eq!(found.len(), 2);
    assert_eq!(found[0].get_path(), "C:\\Tools\\Notepad.exe");
    assert_eq!(found[1].get_path(), "D:\\NOTES\\n.exe");
    assert_eq!(filter_by_text(&commands, "").len(), 3);
    assert!(filter_by_text(&commands, "zzz").is_empty());
}

#[test]
fn substring_filter_shows_one_page() {
    let commands: Vec<RunnableFile> = (0..40).map(|i| run(&format!("app{}.exe", i))).collect();
    let found = filter_by_text(&commands, "app");
    assert_eq!(found.len(), 25);
    assert_eq!(found[24].get_path(), "app24.exe");
}

#[test]
fn text_search() {
    let hay = chars_of("hello world");
    assert_eq!(hay.len(), 11);
    assert!(find_text(&hay, &chars_of("o w")));
    assert!(find_text(&hay, &chars_of("")));
    assert!(!find_text(&hay, &chars_of("wold")));
    assert!(!find_text(&chars_of("ab"), &chars_of("abc")));
}

#[test]
fn choices_are_read_from_digits() {
    assert_eq!(parse_choice("12\n"), Some(12));
    assert_eq!(parse_choice(" 1a2 "), Some(12));
    assert_eq!(parse_choice("none\n"), None);
    assert_eq!(parse_choice("٣"), None);
    assert_eq!(parse_choice("99999999999999999999999999"), None);
    assert_eq!(parse_choice("0"), Some(0));
    assert_eq!(parse_choice("x1y2"), Some(12));
}

#[test]
fn link_targets_fall_back_to_relative_path() {
    assert_eq!(resolve_link_target(Some("C:\\a\\b.exe".to_string()), Some("..\\b.exe".to_string())), "C:\\a\\b.exe");
    assert_eq!(resolve_link_target(None, Some("..\\b.exe".to_string())), "..\\b.exe");
    assert_eq!(resolve_link_target(None, None), "");
}

#[test]
fn marks_shift_positions() {
    assert_eq!(shifted_marks("abc", 4, &vec![4, 6, 1]), vec![true, false, true]);
    assert_eq!(shifted_marks("", 4, &vec![4]), Vec::<bool>::new());
}
