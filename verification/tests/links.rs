use ifnd::files::file_base::FileBase;
use ifnd::files::lnk_layout::link_layout_ok;
use ifnd::files::lnk_parser::{is_lnk_path, start_argument, LnkFile};

/// A shell link with a relative path and a working directory, in ANSI
/// strings, and nothing else.
fn small_link(relative: &str, working_dir: &str) -> Vec<u8> {
    let mut bytes = vec![0x4c, 0, 0, 0];
    bytes.extend(vec![0u8; 16]);
    bytes.extend(vec![0x18, 0, 0, 0]);
    bytes.extend(vec![0u8; 52]);
    assert_eq!(bytes.len(), 76);
    for s in [relative, working_dir] {
        bytes.push(s.len() as u8);
        bytes.push(0);
        bytes.extend(s.as_bytes());
    }
    bytes
}

#[test]
fn links_are_read_from_their_bytes() {
    let bytes = small_link("..\\bin\\tool.exe", "C:\\Tools");
    let file = match LnkFile::new("C:\\menu\\tool.lnk".to_string(), &bytes) {
        Ok(f) => f,
        Err(_) => panic!("the link should parse"),
    };
    assert_eq!(file.get_path(), "C:\\menu\\tool.lnk");
    assert_eq!(file.get_search_path(), "C:\\menu\\tool.lnk");
    let (relative, working_dir) = file.link_parts();
    assert_eq!(relative.as_deref(), Some("..\\bin\\tool.exe"));
    assert_eq!(working_dir.as_deref(), Some("C:\\Tools"));
    let copy = file.clone();
    assert_eq!(copy.get_path(), "C:\\menu\\tool.lnk");
}

#[test]
fn truncated_links_are_refused() {
    let bytes = small_link("a", "b");
    assert!(LnkFile::new("x.lnk".to_string(), &bytes[..70]).is_err());
    assert!(LnkFile::new("x.lnk".to_string(), &bytes[..80]).is_err());
}

/// A header with the given low byte of the link flags and nothing after it.
fn header(flags: u8) -> Vec<u8> {
    let mut bytes = vec![0x4c, 0, 0, 0];
    bytes.extend(vec![0u8; 16]);
    bytes.extend(vec![flags, 0, 0, 0]);
    bytes.extend(vec![0u8; 52]);
    bytes
}

#[test]
fn only_lnk_paths_are_links() {
    let bytes = small_link("a.exe", "C:\\");
    assert!(LnkFile::new("C:\\menu\\tool.lnk".to_string(), &bytes).is_ok());
    assert!(LnkFile::new("readme.txt".to_string(), &bytes).is_err());
    assert!(LnkFile::new("C:\\menu\\tool.LNK".to_string(), &bytes).is_err());
    assert!(LnkFile::new("C:\\menu\\.lnk".to_string(), &bytes).is_err());
    assert!(LnkFile::new("tool.lnk.txt".to_string(), &bytes).is_err());
    assert!(LnkFile::new("lnk".to_string(), &bytes).is_err());
    assert!(is_lnk_path("a/b.lnk"));
    assert!(is_lnk_path("..lnk"));
    assert!(!is_lnk_path(".lnk"));
    assert!(!is_lnk_path("a/.lnk"));
    assert!(!is_lnk_path("a\\.lnk"));
    assert!(!is_lnk_path("a.lnk/"));
    assert!(!is_lnk_path(""));
}

#[test]
fn extra_data_blocks_below_their_header_are_refused() {
    for signature in [0x08u8, 0x09, 0x0c] {
        let mut bytes = header(0);
        bytes.extend([4, 0, 0, 0, signature, 0, 0, 0xa0]);
        assert!(!link_layout_ok(&bytes));
        assert!(LnkFile::new("x.lnk".to_string(), &bytes).is_err());
    }
    let mut bytes = header(0);
    bytes.extend([8, 0, 0, 0, 0x08, 0, 0, 0xa0]);
    assert!(link_layout_ok(&bytes));
    assert!(LnkFile::new("x.lnk".to_string(), &bytes).is_ok());
    let mut bytes = header(0);
    bytes.extend([12, 0, 0, 0, 0x04, 0, 0, 0xa0, 1, 2, 3, 4]);
    bytes.extend([0, 0, 0, 0, 0x09, 0, 0, 0xa0]);
    assert!(!link_layout_ok(&bytes));
    assert!(LnkFile::new("x.lnk".to_string(), &bytes).is_err());
}

#[test]
fn oversized_wide_strings_are_refused() {
    let mut bytes = header(0x88);
    bytes.extend([0x00, 0x80]);
    assert!(!link_layout_ok(&bytes));
    assert!(LnkFile::new("x.lnk".to_string(), &bytes).is_err());
    let mut bytes = header(0x88);
    bytes.extend([0xff, 0x7f, 0x41, 0x00]);
    assert!(link_layout_ok(&bytes));
    assert!(LnkFile::new("x.lnk".to_string(), &bytes).is_err());
    let mut bytes = header(0x88);
    bytes.extend([0x01, 0x00, 0x41, 0x00]);
    assert!(link_layout_ok(&bytes));
    assert!(LnkFile::new("x.lnk".to_string(), &bytes).is_ok());
}

#[test]
fn links_start_from_the_tmp_folder() {
    assert_eq!(start_argument("tool.lnk"), "$Env:tmp\\tool.lnk");
    assert_eq!(start_argument(""), "$Env:tmp\\");
}
