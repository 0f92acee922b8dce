use vstd::prelude::*;
use crate::files::exe_file::ExeFile;
use crate::files::file_base::FileBase;
use crate::files::lnk_parser::LnkFile;

verus! {

/// A file that can be started: a shell link or an executable.
#[derive(Clone)]
pub enum RunnableFile {
    LnkFile(LnkFile),
    ExeFile(ExeFile),
}

impl FileBase for RunnableFile {
    open spec fn path_view(&self) -> Seq<char> {
        match self {
            RunnableFile::LnkFile(v) => v.path_view(),
            RunnableFile::ExeFile(v) => v.path_view(),
        }
    }

    open spec fn search_path_view(&self) -> Seq<char> {
        match self {
            RunnableFile::LnkFile(v) => v.search_path_view(),
            RunnableFile::ExeFile(v) => v.search_path_view(),
        }
    }

    fn get_path(&self) -> (r: &String) {
        match self {
            RunnableFile::LnkFile(v) => v.get_path(),
            RunnableFile::ExeFile(v) => v.get_path(),
        }
    }

    fn get_search_path(&self) -> (r: &str) {
        match self {
            RunnableFile::LnkFile(v) => v.get_search_path(),
            RunnableFile::ExeFile(v) => v.get_search_path(),
        }
    }
}

/// What a file is taken for, by its extension.
#[derive(Debug, Clone, Copy, PartialEq, Eq, Structural)]
pub enum FileKind {
    Lnk,
    Exe,
    Other,
}

/// The kind of a file with extension `extension` (the empty text when the
/// file has none): `lnk` and `exe`, compared exactly, are runnable.
pub open spec fn file_kind_spec(extension: Seq<char>) -> FileKind {
    if extension == seq!['l', 'n', 'k'] {
        FileKind::Lnk
    } else if extension == seq!['e', 'x', 'e'] {
        FileKind::Exe
    } else {
        FileKind::Other
    }
}

/// Classifies a file by its extension.
pub fn file_kind(extension: &str) -> (r: FileKind)
    ensures
        r == file_kind_spec(extension@),
{
    if extension.unicode_len() == 3 {
        let a = extension.get_char(0);
        let b = extension.get_char(1);
        let c = extension.get_char(2);
        if a == 'l' && b == 'n' && c == 'k' {
            assert(extension@ =~= seq!['l', 'n', 'k']);
            return FileKind::Lnk;
        }
        if a == 'e' && b == 'x' && c == 'e' {
            assert(extension@ =~= seq!['e', 'x', 'e']);
            return FileKind::Exe;
        }
    }
    FileKind::Other
}

} // verus!
